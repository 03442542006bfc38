use vstd::prelude::*;

use crate::error::Error;
use crate::response::{
    enc_uint, fits, lemma_read_u8_prefix, lemma_read_uint_prefix, pos_after, spec_read_uint, u8_then,
    uint_then, value_of, Response,
};

verus! {

/// The physical address of a row, as the server reports it.
#[derive(Clone, Copy, Debug, PartialEq, Eq, Structural)]
pub struct Rowid {
    pub rba: u32,
    pub partition_id: u16,
    pub block_num: u32,
    pub slot_num: u16,
}

/// A row address on the wire: a four-byte block address, a two-byte
/// partition, one byte that is skipped, a four-byte block number and a
/// two-byte slot number, each unsigned. Yields the four numbers in that
/// order and the position after them.
pub open spec fn spec_read_rowid(buf: Seq<u8>, pos: int) -> Result<((nat, nat, nat, nat), int), Error> {
    let rba = spec_read_uint(buf, pos, 4);
    let partition_id = uint_then(buf, pos_after(rba), 2);
    let skipped = u8_then(buf, pos_after(partition_id));
    let block_num = uint_then(buf, pos_after(skipped), 4);
    let slot_num = uint_then(buf, pos_after(block_num), 2);
    match slot_num {
        Err(e) => Err(e),
        Ok((slot, p)) => Ok(((value_of(rba), value_of(partition_id), value_of(block_num), slot), p)),
    }
}

/// A rowid read where an earlier read left off, if it succeeded.
pub open spec fn rowid_then(buf: Seq<u8>, at: Result<int, Error>) -> Result<
    ((nat, nat, nat, nat), int),
    Error,
> {
    match at {
        Ok(p) => spec_read_rowid(buf, p),
        Err(e) => Err(e),
    }
}

/// The wire form of a row address given as its fields (each number as its
/// length and value): block address, partition, the skipped byte, block
/// number, slot number.
pub open spec fn enc_rowid(r: ((u8, nat), (u8, nat), u8, (u8, nat), (u8, nat))) -> Seq<u8> {
    enc_uint(r.0) + (enc_uint(r.1) + (seq![r.2] + (enc_uint(r.3) + enc_uint(r.4))))
}

/// Whether the numbers of a row address fit their fields.
pub open spec fn rowid_fits(r: ((u8, nat), (u8, nat), u8, (u8, nat), (u8, nat))) -> bool {
    fits(r.0, 4) && fits(r.1, 2) && fits(r.3, 4) && fits(r.4, 2)
}

/// A row address reads back as written, whatever the skipped byte, and the
/// reader ends just after it.
pub proof fn law_read_rowid_of_encoding(
    buf: Seq<u8>,
    p: int,
    r: ((u8, nat), (u8, nat), u8, (u8, nat), (u8, nat)),
    tail: Seq<u8>,
)
    requires
        0 <= p <= buf.len(),
        buf.skip(p) == enc_rowid(r) + tail,
        rowid_fits(r),
    ensures
        spec_read_rowid(buf, p) == Ok::<((nat, nat, nat, nat), int), Error>(
            ((r.0.1, r.1.1, r.3.1, r.4.1), p + enc_rowid(r).len()),
        ),
        buf.skip(p + enc_rowid(r).len()) == tail,
{
    let t4 = enc_uint(r.4) + tail;
    let t3 = enc_uint(r.3) + t4;
    let t2 = seq![r.2] + t3;
    let t1 = enc_uint(r.1) + t2;
    assert(enc_rowid(r) + tail =~= enc_uint(r.0) + t1);
    lemma_read_uint_prefix(buf, p, r.0, 4, t1);
    let p1 = p + 1 + r.0.0;
    lemma_read_uint_prefix(buf, p1, r.1, 2, t2);
    let p2 = p1 + 1 + r.1.0;
    lemma_read_u8_prefix(buf, p2, r.2, t3);
    let p3 = p2 + 1;
    lemma_read_uint_prefix(buf, p3, r.3, 4, t4);
    let p4 = p3 + 1 + r.3.0;
    lemma_read_uint_prefix(buf, p4, r.4, 2, tail);
    assert(enc_rowid(r).len() == p4 + 1 + r.4.0 - p);
}

impl Rowid {
    /// Reads a row address from the reply.
    pub fn deserialize(resp: &mut Response) -> (r: Result<Rowid, Error>)
        ensures
            old(resp).same_content(final(resp)),
            match spec_read_rowid(old(resp).bytes_spec(), old(resp).pos_spec()) {
                Ok(((rba, partition_id, block_num, slot_num), p)) => r matches Ok(x) && x.rba
                    == rba && x.partition_id == partition_id && x.block_num == block_num
                    && x.slot_num == slot_num && final(resp).pos_spec() == p,
                Err(e) => r == Err::<Rowid, Error>(e),
            },
    {
        let rba = match resp.read_ub4() {
            Ok(v) => v,
            Err(e) => {
                return Err(e);
            },
        };
        let partition_id = match resp.read_ub2() {
            Ok(v) => v,
            Err(e) => {
                return Err(e);
            },
        };
        match resp.read_u8() {
            Ok(_) => {},
            Err(e) => {
                return Err(e);
            },
        }
        let block_num = match resp.read_ub4() {
            Ok(v) => v,
            Err(e) => {
                return Err(e);
            },
        };
        let slot_num = match resp.read_ub2() {
            Ok(v) => v,
            Err(e) => {
                return Err(e);
            },
        };
        Ok(Rowid { rba, partition_id, block_num, slot_num })
    }
}

} // verus!
