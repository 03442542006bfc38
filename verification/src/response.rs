use vstd::prelude::*;
use vstd::utf8::{decode_utf8, valid_utf8};

use crate::error::Error;
use crate::row::DbRow;
use crate::value::{values_model, ValueModel};

pub mod error_info;

verus! {

/// Length byte of a value sent in chunks.
pub const LONG_LENGTH_INDICATOR: u8 = 254;

/// Length byte of a null value.
pub const NULL_LENGTH_INDICATOR: u8 = 255;

// ---------------------------------------------------------------------------
// The wire format, as functions on bytes.
// ---------------------------------------------------------------------------

/// `256` to the power `n`.
pub open spec fn pow256(n: nat) -> nat
    decreases n,
{
    if n == 0 {
        1
    } else {
        256 * pow256((n - 1) as nat)
    }
}

/// The unsigned number whose big-endian bytes are `s`.
pub open spec fn be_value(s: Seq<u8>) -> nat
    decreases s.len(),
{
    if s.len() == 0 {
        0
    } else {
        be_value(s.drop_last()) * 256 + s.last() as nat
    }
}

/// One byte.
pub open spec fn spec_read_u8(buf: Seq<u8>, pos: int) -> Result<(u8, int), Error> {
    if 0 <= pos < buf.len() {
        Ok((buf[pos], pos + 1))
    } else {
        Err(Error::UnexpectedEndOfData)
    }
}

/// An unsigned integer of at most `max_len` bytes: a length byte, then that
/// many bytes, most significant first. A length byte with its high bit set
/// announces a negative number.
pub open spec fn spec_read_uint(buf: Seq<u8>, pos: int, max_len: u8) -> Result<(nat, int), Error> {
    match spec_read_u8(buf, pos) {
        Err(e) => Err(e),
        Ok((len, p)) => if len >= 0x80 {
            Err(Error::UnexpectedNegativeInteger)
        } else if len > max_len {
            Err(Error::IntegerTooLarge { length: len, max_length: max_len })
        } else if p + len > buf.len() {
            Err(Error::UnexpectedEndOfData)
        } else {
            Ok((be_value(buf.subrange(p, p + len)), p + len))
        },
    }
}

/// A value sent in chunks: each chunk is a four-byte unsigned length and that
/// many bytes; a chunk of length zero ends the value.
pub open spec fn spec_read_chunks(buf: Seq<u8>, pos: int) -> Result<(Seq<u8>, int), Error>
    decreases buf.len() - pos,
{
    match spec_read_uint(buf, pos, 4) {
        Err(e) => Err(e),
        Ok((n, p)) => if n == 0 {
            Ok((Seq::empty(), p))
        } else if p + n > buf.len() {
            Err(Error::UnexpectedEndOfData)
        } else {
            match spec_read_chunks(buf, p + n) {
                Err(e) => Err(e),
                Ok((rest, q)) => Ok((buf.subrange(p, p + n) + rest, q)),
            }
        },
    }
}

/// A byte string: a length byte, then the bytes; a length byte of zero or of
/// the null indicator gives no bytes, and the long indicator announces chunks.
pub open spec fn spec_read_bytes(buf: Seq<u8>, pos: int) -> Result<(Seq<u8>, int), Error> {
    match spec_read_u8(buf, pos) {
        Err(e) => Err(e),
        Ok((len, p)) => if len == 0 || len == NULL_LENGTH_INDICATOR {
            Ok((Seq::empty(), p))
        } else if len == LONG_LENGTH_INDICATOR {
            spec_read_chunks(buf, p)
        } else if p + len > buf.len() {
            Err(Error::UnexpectedEndOfData)
        } else {
            Ok((buf.subrange(p, p + len), p + len))
        },
    }
}

/// A byte string preceded by its four-byte unsigned length; a length of zero
/// gives no bytes and nothing more is read.
pub open spec fn spec_read_bytes_with_length(buf: Seq<u8>, pos: int) -> Result<(Seq<u8>, int), Error> {
    match spec_read_uint(buf, pos, 4) {
        Err(e) => Err(e),
        Ok((n, p)) => if n == 0 {
            Ok((Seq::empty(), p))
        } else {
            spec_read_bytes(buf, p)
        },
    }
}

/// A UTF-8 string preceded by its four-byte unsigned length.
pub open spec fn spec_read_utf8_with_length(buf: Seq<u8>, pos: int) -> Result<(Seq<char>, int), Error> {
    match spec_read_bytes_with_length(buf, pos) {
        Err(e) => Err(e),
        Ok((b, p)) => if valid_utf8(b) {
            Ok((decode_utf8(b), p))
        } else {
            Err(Error::InvalidUtf8)
        },
    }
}

/// The status that opens a reply: a four-byte call status and a two-byte
/// end-to-end sequence number, both unsigned.
pub open spec fn spec_read_status(buf: Seq<u8>, pos: int) -> Result<int, Error> {
    match spec_read_uint(buf, pos, 4) {
        Err(e) => Err(e),
        Ok((_, p)) => match spec_read_uint(buf, p, 2) {
            Err(e) => Err(e),
            Ok((_, q)) => Ok(q),
        },
    }
}

/// The position after a successful read, or its error.
pub open spec fn pos_after<T>(r: Result<(T, int), Error>) -> Result<int, Error> {
    match r {
        Ok((_, p)) => Ok(p),
        Err(e) => Err(e),
    }
}

/// The number read by a successful read (zero after a failed one).
pub open spec fn value_of(r: Result<(nat, int), Error>) -> nat {
    match r {
        Ok((v, _)) => v,
        Err(_) => 0,
    }
}

/// An unsigned integer read where an earlier read left off, if it succeeded.
pub open spec fn uint_then(buf: Seq<u8>, at: Result<int, Error>, max_len: u8) -> Result<
    (nat, int),
    Error,
> {
    match at {
        Ok(p) => spec_read_uint(buf, p, max_len),
        Err(e) => Err(e),
    }
}

/// One byte read where an earlier read left off, if it succeeded.
pub open spec fn u8_then(buf: Seq<u8>, at: Result<int, Error>) -> Result<(u8, int), Error> {
    match at {
        Ok(p) => spec_read_u8(buf, p),
        Err(e) => Err(e),
    }
}

pub proof fn lemma_be_value_bound(s: Seq<u8>)
    ensures
        be_value(s) < pow256(s.len()),
    decreases s.len(),
{
    if s.len() > 0 {
        lemma_be_value_bound(s.drop_last());
    }
}

pub proof fn lemma_pow256_values()
    ensures
        pow256(1) == 0x100,
        pow256(2) == 0x10000,
        pow256(4) == 0x1_0000_0000,
        pow256(8) == 0x1_0000_0000_0000_0000,
{
    reveal_with_fuel(pow256, 9);
}

pub proof fn lemma_pow256_monotonic(a: nat, b: nat)
    requires
        a <= b,
    ensures
        pow256(a) <= pow256(b),
    decreases b,
{
    if a < b {
        lemma_pow256_monotonic(a, (b - 1) as nat);
    }
}

/// The `n` big-endian bytes of `v` (its `n` lowest bytes when it does not fit).
pub open spec fn be_bytes(v: nat, n: nat) -> Seq<u8>
    decreases n,
{
    if n == 0 {
        Seq::empty()
    } else {
        be_bytes(v / 256, (n - 1) as nat).push((v % 256) as u8)
    }
}

proof fn lemma_be_bytes_value(v: nat, n: nat)
    requires
        v < pow256(n),
    ensures
        be_bytes(v, n).len() == n,
        be_value(be_bytes(v, n)) == v,
    decreases n,
{
    if n > 0 {
        let p = pow256((n - 1) as nat);
        assert(v / 256 < p) by (nonlinear_arith)
            requires
                v < 256 * p,
        ;
        lemma_be_bytes_value(v / 256, (n - 1) as nat);
        let b = be_bytes(v, n);
        assert(b.drop_last() =~= be_bytes(v / 256, (n - 1) as nat));
        assert((v / 256) * 256 + v % 256 == v) by (nonlinear_arith);
    }
}

/// An unsigned integer reads back as written: a length byte of at most
/// `max_len`, then the number's big-endian bytes, give the number and the
/// position after its bytes, whatever follows.
pub proof fn law_read_uint_of_encoding(v: nat, len: u8, max_len: u8, rest: Seq<u8>)
    requires
        len <= max_len < 0x80,
        v < pow256(len as nat),
    ensures
        spec_read_uint(seq![len] + be_bytes(v, len as nat) + rest, 0, max_len) == Ok::<
            (nat, int),
            Error,
        >((v, 1 + len)),
{
    lemma_be_bytes_value(v, len as nat);
    let buf = seq![len] + be_bytes(v, len as nat) + rest;
    assert(buf.subrange(1, 1 + len) =~= be_bytes(v, len as nat));
}

/// The wire form of an unsigned integer given as its length in bytes and
/// its value: the length byte, then the value's big-endian bytes.
pub open spec fn enc_uint(f: (u8, nat)) -> Seq<u8> {
    seq![f.0] + be_bytes(f.1, f.0 as nat)
}

/// Whether an integer given as length and value is well formed for a field
/// of at most `max_len` bytes: the length is allowed and the value fits it.
pub open spec fn fits(f: (u8, nat), max_len: u8) -> bool {
    f.0 <= max_len && f.1 < pow256(f.0 as nat)
}

/// The wire form of a byte string of 1 to 253 bytes preceded by its length
/// as a four-byte unsigned integer: that integer, the length byte, the bytes.
pub open spec fn enc_bytes_with_length(b: Seq<u8>) -> Seq<u8> {
    enc_uint((1, b.len())) + (seq![b.len() as u8] + b)
}

/// An unsigned integer is refused when its length byte has the high bit
/// set (`UnexpectedNegativeInteger`), when it announces more bytes than the
/// field allows (`IntegerTooLarge`), or when the bytes it announces are not
/// all there (`UnexpectedEndOfData`); a reply that ends before the length
/// byte is `UnexpectedEndOfData` too. None of these moves the reader.
pub proof fn law_read_uint_errors(buf: Seq<u8>, p: int, max_len: u8)
    requires
        max_len < 0x80,
    ensures
        !(0 <= p < buf.len()) ==> spec_read_uint(buf, p, max_len) == Err::<(nat, int), Error>(
            Error::UnexpectedEndOfData,
        ),
        0 <= p < buf.len() && buf[p] >= 0x80 ==> spec_read_uint(buf, p, max_len) == Err::<
            (nat, int),
            Error,
        >(Error::UnexpectedNegativeInteger),
        0 <= p < buf.len() && max_len < buf[p] < 0x80 ==> spec_read_uint(buf, p, max_len) == Err::<
            (nat, int),
            Error,
        >(Error::IntegerTooLarge { length: buf[p], max_length: max_len }),
        0 <= p < buf.len() && buf[p] <= max_len && p + 1 + buf[p] > buf.len() ==> spec_read_uint(
            buf,
            p,
            max_len,
        ) == Err::<(nat, int), Error>(Error::UnexpectedEndOfData),
{
}

/// Reading an unsigned integer where its wire form starts gives its value and
/// leaves the reader just after it.
pub proof fn lemma_read_uint_prefix(buf: Seq<u8>, p: int, f: (u8, nat), max_len: u8, tail: Seq<u8>)
    requires
        0 <= p <= buf.len(),
        buf.skip(p) == enc_uint(f) + tail,
        fits(f, max_len),
        max_len < 0x80,
    ensures
        spec_read_uint(buf, p, max_len) == Ok::<(nat, int), Error>((f.1, p + 1 + f.0)),
        buf.skip(p + 1 + f.0) == tail,
{
    lemma_be_bytes_value(f.1, f.0 as nat);
    let e = enc_uint(f);
    assert(e.len() == 1 + f.0);
    assert((e + tail).len() == 1 + f.0 + tail.len());
    assert(buf.skip(p).len() == buf.len() - p);
    assert(buf.len() == p + 1 + f.0 + tail.len());
    assert(buf[p] == buf.skip(p)[0]);
    assert(e[0] == f.0);
    assert(buf.subrange(p + 1, p + 1 + f.0) =~= be_bytes(f.1, f.0 as nat)) by {
        assert forall|i: int| 0 <= i < f.0 implies buf.subrange(p + 1, p + 1 + f.0)[i] == be_bytes(
            f.1,
            f.0 as nat,
        )[i] by {
            assert(buf[p + 1 + i] == buf.skip(p)[1 + i]);
        }
    }
    assert(buf.skip(p + 1 + f.0) =~= tail) by {
        assert forall|i: int| 0 <= i < tail.len() implies buf.skip(p + 1 + f.0)[i] == tail[i] by {
            assert(buf[p + 1 + f.0 + i] == buf.skip(p)[1 + f.0 + i]);
        }
    }
}

/// Reading one byte where it stands gives it and leaves the reader after it.
pub proof fn lemma_read_u8_prefix(buf: Seq<u8>, p: int, b: u8, tail: Seq<u8>)
    requires
        0 <= p <= buf.len(),
        buf.skip(p) == seq![b] + tail,
    ensures
        spec_read_u8(buf, p) == Ok::<(u8, int), Error>((b, p + 1)),
        buf.skip(p + 1) == tail,
{
    assert(buf.skip(p).len() == buf.len() - p);
    assert((seq![b] + tail).len() == 1 + tail.len());
    assert(buf[p] == buf.skip(p)[0]);
    assert(buf.skip(p + 1) =~= tail) by {
        assert forall|i: int| 0 <= i < tail.len() implies buf.skip(p + 1)[i] == tail[i] by {
            assert(buf[p + 1 + i] == buf.skip(p)[1 + i]);
        }
    }
}

/// A byte string written with its length reads back as written.
pub proof fn lemma_read_bytes_with_length_prefix(buf: Seq<u8>, p: int, b: Seq<u8>, tail: Seq<u8>)
    requires
        0 <= p <= buf.len(),
        0 < b.len() < 254,
        buf.skip(p) == enc_bytes_with_length(b) + tail,
    ensures
        spec_read_bytes_with_length(buf, p) == Ok::<(Seq<u8>, int), Error>(
            (b, p + enc_bytes_with_length(b).len()),
        ),
        buf.skip(p + enc_bytes_with_length(b).len()) == tail,
{
    lemma_pow256_values();
    let n = b.len();
    assert(enc_bytes_with_length(b) + tail =~= enc_uint((1, n)) + ((seq![n as u8] + b) + tail));
    lemma_read_uint_prefix(buf, p, (1, n), 4, (seq![n as u8] + b) + tail);
    let q = p + 2;
    assert((seq![n as u8] + b) + tail =~= seq![n as u8] + (b + tail));
    lemma_read_u8_prefix(buf, q, n as u8, b + tail);
    assert(buf.subrange(q + 1, q + 1 + n) =~= b) by {
        assert forall|i: int| 0 <= i < n implies buf.subrange(q + 1, q + 1 + n)[i] == b[i] by {
            assert(buf[q + 1 + i] == buf.skip(q + 1)[i]);
        }
    }
    assert(buf.skip(q + 1 + n) =~= tail) by {
        assert forall|i: int| 0 <= i < tail.len() implies buf.skip(q + 1 + n)[i] == tail[i] by {
            assert(buf[q + 1 + n + i] == buf.skip(q + 1)[n + i]);
        }
    }
}

// ---------------------------------------------------------------------------
// Reading from a buffer at a position, without moving any cursor.
// ---------------------------------------------------------------------------

fn u8_at(buf: &Vec<u8>, pos: usize) -> (r: Result<(u8, usize), Error>)
    ensures
        match spec_read_u8(buf@, pos as int) {
            Ok((v, p)) => r matches Ok((x, q)) && x == v && q == p,
            Err(e) => r == Err::<(u8, usize), Error>(e),
        },
{
    if pos < buf.len() {
        Ok((buf[pos], pos + 1))
    } else {
        Err(Error::UnexpectedEndOfData)
    }
}

fn uint_at(buf: &Vec<u8>, pos: usize, max_len: u8) -> (r: Result<(u64, usize), Error>)
    requires
        max_len <= 8,
    ensures
        match spec_read_uint(buf@, pos as int, max_len) {
            Ok((v, p)) => r matches Ok((x, q)) && x == v && q == p && v < pow256(max_len as nat),
            Err(e) => r == Err::<(u64, usize), Error>(e),
        },
{
    let (len, p) = match u8_at(buf, pos) {
        Ok(x) => x,
        Err(e) => {
            return Err(e);
        },
    };
    if len >= 0x80 {
        return Err(Error::UnexpectedNegativeInteger);
    }
    if len > max_len {
        return Err(Error::IntegerTooLarge { length: len, max_length: max_len });
    }
    if len as usize > buf.len() - p {
        return Err(Error::UnexpectedEndOfData);
    }
    let end = p + len as usize;
    let mut value: u64 = 0;
    let mut i: usize = p;
    proof {
        lemma_pow256_values();
        lemma_pow256_monotonic(len as nat, 8);
        lemma_pow256_monotonic(len as nat, max_len as nat);
    }
    while i < end
        invariant
            p <= i <= end <= buf@.len(),
            end == p + len,
            len <= 8,
            pow256(len as nat) <= 0x1_0000_0000_0000_0000,
            value == be_value(buf@.subrange(p as int, i as int)),
        decreases end - i,
    {
        proof {
            lemma_be_value_bound(buf@.subrange(p as int, i as int));
            lemma_pow256_monotonic((i - p + 1) as nat, len as nat);
            assert(buf@.subrange(p as int, i + 1).drop_last() =~= buf@.subrange(p as int, i as int));
        }
        value = value * 256 + buf[i] as u64;
        i += 1;
    }
    proof {
        lemma_be_value_bound(buf@.subrange(p as int, end as int));
    }
    Ok((value, end))
}

fn chunks_at(buf: &Vec<u8>, pos: usize) -> (r: Result<(Vec<u8>, usize), Error>)
    ensures
        match spec_read_chunks(buf@, pos as int) {
            Ok((v, p)) => r matches Ok((x, q)) && x@ == v && q == p,
            Err(e) => r matches Err(x) && x == e,
        },
{
    let mut out: Vec<u8> = Vec::new();
    let mut q: usize = pos;
    loop
        invariant
            spec_read_chunks(buf@, pos as int) == match spec_read_chunks(buf@, q as int) {
                Ok((rest, e)) => Ok((out@ + rest, e)),
                Err(e) => Err::<(Seq<u8>, int), Error>(e),
            },
        decreases buf@.len() - q,
    {
        let (n, p) = match uint_at(buf, q, 4) {
            Ok(x) => x,
            Err(e) => {
                return Err(e);
            },
        };
        if n == 0 {
            assert(out@ + Seq::<u8>::empty() =~= out@);
            return Ok((out, p));
        }
        proof {
            lemma_pow256_values();
        }
        let n = n as usize;
        if n > buf.len() - p {
            return Err(Error::UnexpectedEndOfData);
        }
        let end = p + n;
        let ghost before = out@;
        let ghost q0 = q;
        let mut i: usize = p;
        while i < end
            invariant
                p <= i <= end <= buf@.len(),
                out@ == before + buf@.subrange(p as int, i as int),
            decreases end - i,
        {
            out.push(buf[i]);
            i += 1;
            assert(out@ =~= before + buf@.subrange(p as int, i as int));
        }
        assert(spec_read_chunks(buf@, q0 as int) == match spec_read_chunks(buf@, end as int) {
            Ok((rest, e)) => Ok((buf@.subrange(p as int, end as int) + rest, e)),
            Err(e) => Err::<(Seq<u8>, int), Error>(e),
        });
        proof {
            match spec_read_chunks(buf@, end as int) {
                Ok((rest, e)) => {
                    assert(before + (buf@.subrange(p as int, end as int) + rest) =~= out@ + rest);
                },
                Err(e) => {},
            }
        }
        q = end;
    }
}

fn bytes_at(buf: &Vec<u8>, pos: usize) -> (r: Result<(Vec<u8>, usize), Error>)
    ensures
        match spec_read_bytes(buf@, pos as int) {
            Ok((v, p)) => r matches Ok((x, q)) && x@ == v && q == p,
            Err(e) => r matches Err(x) && x == e,
        },
{
    let (len, p) = match u8_at(buf, pos) {
        Ok(x) => x,
        Err(e) => {
            return Err(e);
        },
    };
    if len == 0 || len == NULL_LENGTH_INDICATOR {
        return Ok((Vec::new(), p));
    }
    if len == LONG_LENGTH_INDICATOR {
        return chunks_at(buf, p);
    }
    if len as usize > buf.len() - p {
        return Err(Error::UnexpectedEndOfData);
    }
    let end = p + len as usize;
    let mut out: Vec<u8> = Vec::new();
    let mut i: usize = p;
    while i < end
        invariant
            p <= i <= end <= buf@.len(),
            out@ == buf@.subrange(p as int, i as int),
        decreases end - i,
    {
        out.push(buf[i]);
        i += 1;
        assert(out@ =~= buf@.subrange(p as int, i as int));
    }
    Ok((out, end))
}

fn bytes_with_length_at(buf: &Vec<u8>, pos: usize) -> (r: Result<(Vec<u8>, usize), Error>)
    ensures
        match spec_read_bytes_with_length(buf@, pos as int) {
            Ok((v, p)) => r matches Ok((x, q)) && x@ == v && q == p,
            Err(e) => r matches Err(x) && x == e,
        },
{
    let (n, p) = match uint_at(buf, pos, 4) {
        Ok(x) => x,
        Err(e) => {
            return Err(e);
        },
    };
    if n == 0 {
        return Ok((Vec::new(), p));
    }
    bytes_at(buf, p)
}

/// Decodes UTF-8 bytes into a string.
///
/// Calls `String::from_utf8`, which fails exactly when the bytes are not
/// valid UTF-8 and otherwise yields the characters they encode.
#[verifier::external_body]
fn utf8_to_string(bytes: Vec<u8>) -> (r: Option<String>)
    ensures
        r is Some <==> valid_utf8(bytes@),
        r matches Some(s) ==> s@ == decode_utf8(bytes@),
{
    String::from_utf8(bytes).ok()
}

// ---------------------------------------------------------------------------
// The reply being read.
// ---------------------------------------------------------------------------

/// A reply from the database: its bytes with a read position, and what
/// earlier parts of the reply left for the execution result (the rows of an
/// output container, and the number of rows affected).
pub struct Response {
    data: Vec<u8>,
    pos: usize,
    rows: Option<Vec<DbRow>>,
    rowcount: u64,
}

/// The model of a list of wire rows.
pub open spec fn rows_model(rows: Seq<DbRow>) -> Seq<Seq<Option<ValueModel>>> {
    rows.map_values(|r: DbRow| values_model(r@))
}

impl Response {
    pub fn new(data: Vec<u8>, rows: Option<Vec<DbRow>>, rowcount: u64) -> (r: Response)
        ensures
            r.bytes_spec() == data@,
            r.pos_spec() == 0,
            r.rows_spec() == (match rows {
                Some(v) => Some(rows_model(v@)),
                None => None,
            }),
            r.rowcount_spec() == rowcount,
    {
        Response { data, pos: 0, rows, rowcount }
    }

    pub closed spec fn bytes_spec(&self) -> Seq<u8> {
        self.data@
    }

    pub closed spec fn pos_spec(&self) -> int {
        self.pos as int
    }

    pub closed spec fn rows_spec(&self) -> Option<Seq<Seq<Option<ValueModel>>>> {
        match self.rows {
            Some(v) => Some(rows_model(v@)),
            None => None,
        }
    }

    pub closed spec fn rowcount_spec(&self) -> u64 {
        self.rowcount
    }

    /// Whether `other` has the same bytes, rows and row count as `self`.
    pub open spec fn same_content(&self, other: &Response) -> bool {
        &&& other.bytes_spec() == self.bytes_spec()
        &&& other.rows_spec() == self.rows_spec()
        &&& other.rowcount_spec() == self.rowcount_spec()
    }

    /// The read position.
    pub fn position(&self) -> (r: usize)
        ensures
            r == self.pos_spec(),
    {
        self.pos
    }

    /// The number of rows affected by the execution.
    pub fn get_rowcount(&self) -> (r: u64)
        ensures
            r == self.rowcount_spec(),
    {
        self.rowcount
    }

    /// Takes the rows of the output container, leaving none behind.
    pub fn take_rows(&mut self) -> (r: Option<Vec<DbRow>>)
        ensures
            match r {
                Some(v) => old(self).rows_spec() == Some(rows_model(v@)),
                None => old(self).rows_spec() is None,
            },
            final(self).rows_spec() is None,
            final(self).bytes_spec() == old(self).bytes_spec(),
            final(self).pos_spec() == old(self).pos_spec(),
            final(self).rowcount_spec() == old(self).rowcount_spec(),
    {
        self.rows.take()
    }

    pub fn read_u8(&mut self) -> (r: Result<u8, Error>)
        ensures
            old(self).same_content(final(self)),
            match spec_read_u8(old(self).bytes_spec(), old(self).pos_spec()) {
                Ok((v, p)) => r == Ok::<u8, Error>(v) && final(self).pos_spec() == p,
                Err(e) => r == Err::<u8, Error>(e) && final(self).pos_spec() == old(self).pos_spec(),
            },
    {
        let (v, p) = match u8_at(&self.data, self.pos) {
            Ok(x) => x,
            Err(e) => {
                return Err(e);
            },
        };
        self.pos = p;
        Ok(v)
    }

    pub fn read_ub2(&mut self) -> (r: Result<u16, Error>)
        ensures
            old(self).same_content(final(self)),
            match spec_read_uint(old(self).bytes_spec(), old(self).pos_spec(), 2) {
                Ok((v, p)) => r matches Ok(x) && x == v && final(self).pos_spec() == p,
                Err(e) => r == Err::<u16, Error>(e) && final(self).pos_spec() == old(self).pos_spec(),
            },
    {
        let (v, p) = match uint_at(&self.data, self.pos, 2) {
            Ok(x) => x,
            Err(e) => {
                return Err(e);
            },
        };
        proof {
            lemma_pow256_values();
        }
        self.pos = p;
        Ok(v as u16)
    }

    pub fn read_ub4(&mut self) -> (r: Result<u32, Error>)
        ensures
            old(self).same_content(final(self)),
            match spec_read_uint(old(self).bytes_spec(), old(self).pos_spec(), 4) {
                Ok((v, p)) => r matches Ok(x) && x == v && final(self).pos_spec() == p,
                Err(e) => r == Err::<u32, Error>(e) && final(self).pos_spec() == old(self).pos_spec(),
            },
    {
        let (v, p) = match uint_at(&self.data, self.pos, 4) {
            Ok(x) => x,
            Err(e) => {
                return Err(e);
            },
        };
        proof {
            lemma_pow256_values();
        }
        self.pos = p;
        Ok(v as u32)
    }

    pub fn read_ub8(&mut self) -> (r: Result<u64, Error>)
        ensures
            old(self).same_content(final(self)),
            match spec_read_uint(old(self).bytes_spec(), old(self).pos_spec(), 8) {
                Ok((v, p)) => r matches Ok(x) && x == v && final(self).pos_spec() == p,
                Err(e) => r == Err::<u64, Error>(e) && final(self).pos_spec() == old(self).pos_spec(),
            },
    {
        let (v, p) = match uint_at(&self.data, self.pos, 8) {
            Ok(x) => x,
            Err(e) => {
                return Err(e);
            },
        };
        self.pos = p;
        Ok(v)
    }

    pub fn read_bytes_with_length(&mut self) -> (r: Result<Vec<u8>, Error>)
        ensures
            old(self).same_content(final(self)),
            match spec_read_bytes_with_length(old(self).bytes_spec(), old(self).pos_spec()) {
                Ok((v, p)) => r matches Ok(x) && x@ == v && final(self).pos_spec() == p,
                Err(e) => r matches Err(x) && x == e && final(self).pos_spec() == old(self).pos_spec(),
            },
    {
        let (v, p) = match bytes_with_length_at(&self.data, self.pos) {
            Ok(x) => x,
            Err(e) => {
                return Err(e);
            },
        };
        self.pos = p;
        Ok(v)
    }

    pub fn read_utf8_with_length(&mut self) -> (r: Result<String, Error>)
        ensures
            old(self).same_content(final(self)),
            match spec_read_utf8_with_length(old(self).bytes_spec(), old(self).pos_spec()) {
                Ok((v, p)) => r matches Ok(x) && x@ == v && final(self).pos_spec() == p,
                Err(e) => r matches Err(x) && x == e && final(self).pos_spec() == old(self).pos_spec(),
            },
    {
        let (bytes, p) = match bytes_with_length_at(&self.data, self.pos) {
            Ok(x) => x,
            Err(e) => {
                return Err(e);
            },
        };
        match utf8_to_string(bytes) {
            Some(s) => {
                self.pos = p;
                Ok(s)
            },
            None => Err(Error::InvalidUtf8),
        }
    }

    /// Reads the status that opens a reply.
    pub fn deserialize_status(&mut self) -> (r: Result<(), Error>)
        ensures
            old(self).same_content(final(self)),
            match spec_read_status(old(self).bytes_spec(), old(self).pos_spec()) {
                Ok(p) => r is Ok && final(self).pos_spec() == p,
                Err(e) => r == Err::<(), Error>(e) && final(self).pos_spec() == old(self).pos_spec(),
            },
    {
        let (_call_status, p) = match uint_at(&self.data, self.pos, 4) {
            Ok(x) => x,
            Err(e) => {
                return Err(e);
            },
        };
        let (_seq_num, q) = match uint_at(&self.data, p, 2) {
            Ok(x) => x,
            Err(e) => {
                return Err(e);
            },
        };
        self.pos = q;
        Ok(())
    }
}

} // verus!
