use vstd::prelude::*;

use crate::client::{Client, TTC_FIELD_VERSION_20_1};
use crate::error::Error;
use crate::response::{
    enc_bytes_with_length, enc_uint, fits, lemma_pow256_values, lemma_read_bytes_with_length_prefix,
    lemma_read_u8_prefix, lemma_read_uint_prefix, pos_after, spec_read_bytes_with_length,
    spec_read_status, spec_read_uint, spec_read_utf8_with_length, u8_then, uint_then, value_of,
    Response,
};
use crate::rowid::{enc_rowid, law_read_rowid_of_encoding, rowid_fits, rowid_then, Rowid};
use vstd::utf8::{decode_utf8, valid_utf8};

verus! {

/// Whether a character is white space in the sense of the Unicode property
/// White_Space, the property that `char::is_whitespace` tests.
pub uninterp spec fn is_white_space(c: char) -> bool;

/// A string without its trailing white space.
pub open spec fn trim_white_end(s: Seq<char>) -> Seq<char>
    decreases s.len(),
{
    if s.len() > 0 && is_white_space(s.last()) {
        trim_white_end(s.drop_last())
    } else {
        s
    }
}

/// Removes trailing white space.
///
/// Calls `str::trim_end`, which returns the longest prefix of the string
/// that does not end in a character with the Unicode property White_Space.
#[verifier::external_body]
fn trim_end(s: &str) -> (r: &str)
    ensures
        r@.len() <= s@.len(),
        r@ == s@.take(r@.len() as int),
        forall|i: int| r@.len() <= i < s@.len() ==> is_white_space(#[trigger] s@[i]),
        r@.len() > 0 ==> !is_white_space(r@.last()),
{
    s.trim_end()
}

proof fn lemma_trim_white_end(s: Seq<char>, k: int)
    requires
        0 <= k <= s.len(),
        forall|i: int| k <= i < s.len() ==> is_white_space(#[trigger] s[i]),
        k > 0 ==> !is_white_space(s[k - 1]),
    ensures
        trim_white_end(s) == s.take(k),
    decreases s.len(),
{
    if s.len() > k {
        assert(is_white_space(s[s.len() - 1]));
        assert(s.drop_last().take(k) =~= s.take(k));
        lemma_trim_white_end(s.drop_last(), k);
    } else {
        assert(s.take(k) =~= s);
    }
}

/// A database error's message keeps everything but its trailing white
/// space: it is a prefix of the message sent, the characters dropped are all
/// white space, it does not end in white space, and trimming it again
/// changes nothing.
pub proof fn law_trimmed_message(s: Seq<char>)
    ensures
        trim_white_end(s).len() <= s.len(),
        trim_white_end(s) == s.take(trim_white_end(s).len() as int),
        forall|i: int| trim_white_end(s).len() <= i < s.len() ==> is_white_space(#[trigger] s[i]),
        trim_white_end(s).len() > 0 ==> !is_white_space(trim_white_end(s).last()),
        trim_white_end(trim_white_end(s)) == trim_white_end(s),
    decreases s.len(),
{
    if s.len() > 0 && is_white_space(s.last()) {
        law_trimmed_message(s.drop_last());
        let t = trim_white_end(s.drop_last());
        assert(s.drop_last().take(t.len() as int) =~= s.take(t.len() as int));
        assert forall|i: int| t.len() <= i < s.len() implies is_white_space(#[trigger] s[i]) by {
            if i < s.len() - 1 {
                assert(s.drop_last()[i] == s[i]);
            }
        }
    } else {
        assert(s.take(s.len() as int) =~= s);
    }
}

// ---------------------------------------------------------------------------
// The layout of the error information in a reply.
// ---------------------------------------------------------------------------

/// The part of the error information before the batch error counts: the
/// reply status and a run of fields of which the cursor id, the error
/// position and the flags are kept. Yields those three and the position
/// after the part.
#[verifier::opaque]
pub open spec fn spec_read_header(buf: Seq<u8>, pos: int) -> Result<((nat, nat, u8), int), Error> {
    let status = spec_read_status(buf, pos);
    let current_row_num = uint_then(buf, status, 4);
    let error_num_short = uint_then(buf, pos_after(current_row_num), 2);
    let array_elem_error_1 = uint_then(buf, pos_after(error_num_short), 2);
    let array_elem_error_2 = uint_then(buf, pos_after(array_elem_error_1), 2);
    let cursor_id = uint_then(buf, pos_after(array_elem_error_2), 2);
    let error_pos = uint_then(buf, pos_after(cursor_id), 2);
    let old_sql_type = u8_then(buf, pos_after(error_pos));
    let fatal = u8_then(buf, pos_after(old_sql_type));
    let flags_1 = u8_then(buf, pos_after(fatal));
    let user_cursor_options = u8_then(buf, pos_after(flags_1));
    let upi_parameter = u8_then(buf, pos_after(user_cursor_options));
    let flags = u8_then(buf, pos_after(upi_parameter));
    let rowid = rowid_then(buf, pos_after(flags));
    let os_error = uint_then(buf, pos_after(rowid), 4);
    let statement_num = u8_then(buf, pos_after(os_error));
    let call_num = u8_then(buf, pos_after(statement_num));
    let padding = uint_then(buf, pos_after(call_num), 2);
    let success_iters = uint_then(buf, pos_after(padding), 4);
    let logical_rowid = uint_then(buf, pos_after(success_iters), 4);
    let end = match logical_rowid {
        Err(e) => Err(e),
        Ok((n, p)) => if n > 0 {
            pos_after(spec_read_bytes_with_length(buf, p))
        } else {
            Ok(p)
        },
    };
    match (end, flags) {
        (Ok(p), Ok((f, _))) => Ok(((value_of(cursor_id), value_of(error_pos), f), p)),
        (Err(e), _) => Err(e),
        (Ok(_), Err(e)) => Err(e),
    }
}

/// The three batch error counts (two, four and two bytes). Yields the
/// position after them when all are zero, and `None` at the first that is
/// not: batch errors are not supported.
pub open spec fn spec_read_batch_counts(buf: Seq<u8>, pos: int) -> Result<Option<int>, Error> {
    match spec_read_uint(buf, pos, 2) {
        Err(e) => Err(e),
        Ok((n1, p1)) => if n1 > 0 {
            Ok(None)
        } else {
            match spec_read_uint(buf, p1, 4) {
                Err(e) => Err(e),
                Ok((n2, p2)) => if n2 > 0 {
                    Ok(None)
                } else {
                    match spec_read_uint(buf, p2, 2) {
                        Err(e) => Err(e),
                        Ok((n3, p3)) => if n3 > 0 {
                            Ok(None)
                        } else {
                            Ok(Some(p3))
                        },
                    }
                },
            }
        },
    }
}

/// The part after the batch error counts: the error number and the row
/// count; from field version 20.1 on, two more four-byte fields; then, when
/// the error number is not zero, the error message. Yields the error number,
/// the row count, the message if any, and the position after the part.
#[verifier::opaque]
pub open spec fn spec_read_tail(buf: Seq<u8>, pos: int, field_version_20_1: bool) -> Result<
    ((nat, nat, Option<Seq<char>>), int),
    Error,
> {
    let error_num = spec_read_uint(buf, pos, 4);
    let rowcount = uint_then(buf, pos_after(error_num), 8);
    let counted = if field_version_20_1 {
        let sql_type = uint_then(buf, pos_after(rowcount), 4);
        let server_checksum = uint_then(buf, pos_after(sql_type), 4);
        pos_after(server_checksum)
    } else {
        pos_after(rowcount)
    };
    match counted {
        Err(e) => Err(e),
        Ok(q) => if value_of(error_num) == 0 {
            Ok(((0, value_of(rowcount), None), q))
        } else {
            match spec_read_utf8_with_length(buf, q) {
                Err(e) => Err(e),
                Ok((m, r)) => Ok(((value_of(error_num), value_of(rowcount), Some(m)), r)),
            }
        },
    }
}

/// Whether the error information at `pos` announces batch errors.
pub open spec fn spec_has_batch_errors(buf: Seq<u8>, pos: int) -> bool {
    match spec_read_header(buf, pos) {
        Ok((_, p)) => spec_read_batch_counts(buf, p) == Ok::<Option<int>, Error>(None),
        Err(_) => false,
    }
}

/// The error information at `pos` of a reply without batch errors: the
/// cursor id, the error position, the flags, the error number, the row count,
/// the message if any, and the position after it all.
pub open spec fn spec_read_error_info(buf: Seq<u8>, pos: int, field_version_20_1: bool) -> Result<
    ((nat, nat, u8, nat, nat, Option<Seq<char>>), int),
    Error,
> {
    match spec_read_header(buf, pos) {
        Err(e) => Err(e),
        Ok(((cursor_id, error_pos, flags), p)) => match spec_read_batch_counts(buf, p) {
            Err(e) => Err(e),
            Ok(None) => arbitrary(),
            Ok(Some(q)) => match spec_read_tail(buf, q, field_version_20_1) {
                Err(e) => Err(e),
                Ok(((error_num, rowcount, message), r)) => Ok(
                    ((cursor_id, error_pos, flags, error_num, rowcount, message), r),
                ),
            },
        },
    }
}

// ---------------------------------------------------------------------------
// Error information as it is written, and what reading it gives back.
// ---------------------------------------------------------------------------

/// A number field given as its length in bytes and its value.
pub type NumField = (u8, nat);

/// The fields of a row address: block address, partition, a skipped byte,
/// block number, slot number.
pub type RowidFields = (NumField, NumField, u8, NumField, NumField);

/// The wire form of the part of the error information before the batch
/// error counts, followed by `tail`: the status (call status, sequence
/// number); the current row number, the short error number and the two array
/// element errors; the cursor id and the error position; five option bytes
/// and the flags byte; the row address; the OS error, the statement and call
/// numbers (one byte each), padding and the success iterations; and the
/// logical rowid (a zero, or a non-zero number followed by the rowid's bytes
/// with their length).
#[verifier::opaque]
pub open spec fn enc_header(
    status: (NumField, NumField),
    counters: (NumField, NumField, NumField, NumField),
    cursor_id: NumField,
    error_pos: NumField,
    options: (u8, u8, u8, u8, u8),
    flags: u8,
    rowid: RowidFields,
    trailer: (NumField, u8, u8, NumField, NumField),
    logical_rowid: Seq<u8>,
    tail: Seq<u8>,
) -> Seq<u8> {
    let t_lrid = if logical_rowid.len() == 0 {
        seq![0u8] + tail
    } else {
        enc_uint((1, 1)) + (enc_bytes_with_length(logical_rowid) + tail)
    };
    let t_trailer = enc_uint(trailer.0) + (seq![trailer.1] + (seq![trailer.2] + (enc_uint(trailer.3)
        + (enc_uint(trailer.4) + t_lrid))));
    let t_rowid = enc_rowid(rowid) + t_trailer;
    let t_options = seq![options.0] + (seq![options.1] + (seq![options.2] + (seq![options.3] + (
    seq![options.4] + (seq![flags] + t_rowid)))));
    let t_ids = enc_uint(cursor_id) + (enc_uint(error_pos) + t_options);
    let t_counters = enc_uint(counters.0) + (enc_uint(counters.1) + (enc_uint(counters.2) + (
    enc_uint(counters.3) + t_ids)));
    enc_uint(status.0) + (enc_uint(status.1) + t_counters)
}

/// The wire form of the part after the batch error counts, followed by
/// `rest`: the error number and the row count; from field version 20.1 on
/// (`extra` present), the SQL type and the server checksum; and, when the
/// error number is not zero, the message's bytes with their length.
#[verifier::opaque]
pub open spec fn enc_tail(
    error_num: NumField,
    rowcount: NumField,
    extra: Option<(NumField, NumField)>,
    message: Seq<u8>,
    rest: Seq<u8>,
) -> Seq<u8> {
    let t_msg = if error_num.1 == 0 {
        rest
    } else {
        enc_bytes_with_length(message) + rest
    };
    let t_extra = match extra {
        Some((sql_type, checksum)) => enc_uint(sql_type) + (enc_uint(checksum) + t_msg),
        None => t_msg,
    };
    enc_uint(error_num) + (enc_uint(rowcount) + t_extra)
}

/// The wire form of error information without batch errors: the part before
/// the batch error counts, three zero counts, and the part after them.
pub open spec fn enc_error_info(
    status: (NumField, NumField),
    counters: (NumField, NumField, NumField, NumField),
    cursor_id: NumField,
    error_pos: NumField,
    options: (u8, u8, u8, u8, u8),
    flags: u8,
    rowid: RowidFields,
    trailer: (NumField, u8, u8, NumField, NumField),
    logical_rowid: Seq<u8>,
    error_num: NumField,
    rowcount: NumField,
    extra: Option<(NumField, NumField)>,
    message: Seq<u8>,
    rest: Seq<u8>,
) -> Seq<u8> {
    enc_header(
        status,
        counters,
        cursor_id,
        error_pos,
        options,
        flags,
        rowid,
        trailer,
        logical_rowid,
        seq![0u8] + (seq![0u8] + (seq![0u8] + enc_tail(error_num, rowcount, extra, message, rest))),
    )
}

/// The part before the batch error counts reads back as written: whatever
/// the skipped fields hold, the cursor id, error position and flags are the
/// ones written, and the reader ends where the part ends.
#[verifier::rlimit(100)]
#[verifier::spinoff_prover]
pub proof fn law_header_of_encoding(
    buf: Seq<u8>,
    p0: int,
    status: (NumField, NumField),
    counters: (NumField, NumField, NumField, NumField),
    cursor_id: NumField,
    error_pos: NumField,
    options: (u8, u8, u8, u8, u8),
    flags: u8,
    rowid: RowidFields,
    trailer: (NumField, u8, u8, NumField, NumField),
    logical_rowid: Seq<u8>,
    tail: Seq<u8>,
)
    requires
        0 <= p0 <= buf.len(),
        buf.skip(p0) == enc_header(
            status,
            counters,
            cursor_id,
            error_pos,
            options,
            flags,
            rowid,
            trailer,
            logical_rowid,
            tail,
        ),
        fits(status.0, 4) && fits(status.1, 2),
        fits(counters.0, 4) && fits(counters.1, 2) && fits(counters.2, 2) && fits(counters.3, 2),
        fits(cursor_id, 2) && fits(error_pos, 2),
        rowid_fits(rowid),
        fits(trailer.0, 4) && fits(trailer.3, 2) && fits(trailer.4, 4),
        logical_rowid.len() < 254,
    ensures
        p0 <= buf.len() - tail.len(),
        buf.skip(buf.len() - tail.len()) == tail,
        spec_read_header(buf, p0) == Ok::<((nat, nat, u8), int), Error>(
            ((cursor_id.1, error_pos.1, flags), buf.len() - tail.len()),
        ),
{
    reveal(enc_header);
    lemma_pow256_values();
    let t_lrid_bytes = enc_bytes_with_length(logical_rowid) + tail;
    let t_lrid = if logical_rowid.len() == 0 {
        seq![0u8] + tail
    } else {
        enc_uint((1, 1)) + t_lrid_bytes
    };
    let t_success = enc_uint(trailer.4) + t_lrid;
    let t_padding = enc_uint(trailer.3) + t_success;
    let t_call = seq![trailer.2] + t_padding;
    let t_stmt = seq![trailer.1] + t_call;
    let t_trailer = enc_uint(trailer.0) + t_stmt;
    let t_rowid = enc_rowid(rowid) + t_trailer;
    let t_flags = seq![flags] + t_rowid;
    let t_o4 = seq![options.4] + t_flags;
    let t_o3 = seq![options.3] + t_o4;
    let t_o2 = seq![options.2] + t_o3;
    let t_o1 = seq![options.1] + t_o2;
    let t_options = seq![options.0] + t_o1;
    let t_epos = enc_uint(error_pos) + t_options;
    let t_ids = enc_uint(cursor_id) + t_epos;
    let t_c3 = enc_uint(counters.3) + t_ids;
    let t_c2 = enc_uint(counters.2) + t_c3;
    let t_c1 = enc_uint(counters.1) + t_c2;
    let t_counters = enc_uint(counters.0) + t_c1;
    let t_status = enc_uint(status.1) + t_counters;
    // status
    lemma_read_uint_prefix(buf, p0, status.0, 4, t_status);
    let p = p0 + 1 + status.0.0;
    lemma_read_uint_prefix(buf, p, status.1, 2, t_counters);
    let p = p + 1 + status.1.0;
    assert(spec_read_status(buf, p0) == Ok::<int, Error>(p));
    // counters, cursor id, error position
    lemma_read_uint_prefix(buf, p, counters.0, 4, t_c1);
    let p = p + 1 + counters.0.0;
    lemma_read_uint_prefix(buf, p, counters.1, 2, t_c2);
    let p = p + 1 + counters.1.0;
    lemma_read_uint_prefix(buf, p, counters.2, 2, t_c3);
    let p = p + 1 + counters.2.0;
    lemma_read_uint_prefix(buf, p, counters.3, 2, t_ids);
    let p = p + 1 + counters.3.0;
    lemma_read_uint_prefix(buf, p, cursor_id, 2, t_epos);
    let p = p + 1 + cursor_id.0;
    lemma_read_uint_prefix(buf, p, error_pos, 2, t_options);
    let p = p + 1 + error_pos.0;
    // option bytes and flags
    lemma_read_u8_prefix(buf, p, options.0, t_o1);
    lemma_read_u8_prefix(buf, p + 1, options.1, t_o2);
    lemma_read_u8_prefix(buf, p + 2, options.2, t_o3);
    lemma_read_u8_prefix(buf, p + 3, options.3, t_o4);
    lemma_read_u8_prefix(buf, p + 4, options.4, t_flags);
    lemma_read_u8_prefix(buf, p + 5, flags, t_rowid);
    let p = p + 6;
    // row address
    law_read_rowid_of_encoding(buf, p, rowid, t_trailer);
    let p = p + enc_rowid(rowid).len();
    // OS error, statement and call numbers, padding, success iterations
    lemma_read_uint_prefix(buf, p, trailer.0, 4, t_stmt);
    let p = p + 1 + trailer.0.0;
    lemma_read_u8_prefix(buf, p, trailer.1, t_call);
    lemma_read_u8_prefix(buf, p + 1, trailer.2, t_padding);
    let p = p + 2;
    lemma_read_uint_prefix(buf, p, trailer.3, 2, t_success);
    let p = p + 1 + trailer.3.0;
    lemma_read_uint_prefix(buf, p, trailer.4, 4, t_lrid);
    let p = p + 1 + trailer.4.0;
    // logical rowid
    if logical_rowid.len() == 0 {
        assert(seq![0u8] + tail =~= enc_uint((0, 0)) + tail);
        lemma_read_uint_prefix(buf, p, (0, 0), 4, tail);
    } else {
        lemma_read_uint_prefix(buf, p, (1, 1), 4, t_lrid_bytes);
        lemma_read_bytes_with_length_prefix(buf, p + 2, logical_rowid, tail);
    }
    reveal(spec_read_header);
}

/// The part after the batch error counts reads back as written: the error
/// number and row count written, the message decoded when the error number
/// is not zero, and the reader ends where the part ends; the two fields of
/// field version 20.1 are read exactly when that version is in use.
#[verifier::rlimit(50)]
pub proof fn law_tail_of_encoding(
    buf: Seq<u8>,
    p0: int,
    error_num: NumField,
    rowcount: NumField,
    field_version_20_1: bool,
    extra: (NumField, NumField),
    message: Seq<u8>,
    rest: Seq<u8>,
)
    requires
        0 <= p0 <= buf.len(),
        buf.skip(p0) == enc_tail(
            error_num,
            rowcount,
            if field_version_20_1 {
                Some(extra)
            } else {
                None
            },
            message,
            rest,
        ),
        fits(error_num, 4) && fits(rowcount, 8),
        fits(extra.0, 4) && fits(extra.1, 4),
        error_num.1 != 0 ==> 0 < message.len() < 254 && valid_utf8(message),
    ensures
        spec_read_tail(buf, p0, field_version_20_1) == Ok::<
            ((nat, nat, Option<Seq<char>>), int),
            Error,
        >(
            (
                (
                    error_num.1,
                    rowcount.1,
                    if error_num.1 == 0 {
                        None
                    } else {
                        Some(decode_utf8(message))
                    },
                ),
                buf.len() - rest.len(),
            ),
        ),
{
    reveal(enc_tail);
    reveal(spec_read_tail);
    lemma_pow256_values();
    let t_msg = if error_num.1 == 0 {
        rest
    } else {
        enc_bytes_with_length(message) + rest
    };
    let t_extra = if field_version_20_1 {
        enc_uint(extra.0) + (enc_uint(extra.1) + t_msg)
    } else {
        t_msg
    };
    let t_rowcount = enc_uint(rowcount) + t_extra;
    lemma_read_uint_prefix(buf, p0, error_num, 4, t_rowcount);
    let p = p0 + 1 + error_num.0;
    lemma_read_uint_prefix(buf, p, rowcount, 8, t_extra);
    let p = p + 1 + rowcount.0;
    let p = if field_version_20_1 {
        lemma_read_uint_prefix(buf, p, extra.0, 4, enc_uint(extra.1) + t_msg);
        lemma_read_uint_prefix(buf, p + 1 + extra.0.0, extra.1, 4, t_msg);
        p + 1 + extra.0.0 + 1 + extra.1.0
    } else {
        p
    };
    assert(buf.skip(p) == t_msg);
    if error_num.1 != 0 {
        lemma_read_bytes_with_length_prefix(buf, p, message, rest);
    }
}

/// Error information reads back as written: whatever the values of the
/// fields that are skipped (the current row number among them), the cursor
/// id, error position, flags, error number, row count and message are the
/// ones written, no batch errors are seen, and the reader ends where the
/// error information ends.
pub proof fn law_error_info_of_encoding(
    status: (NumField, NumField),
    counters: (NumField, NumField, NumField, NumField),
    cursor_id: NumField,
    error_pos: NumField,
    options: (u8, u8, u8, u8, u8),
    flags: u8,
    rowid: RowidFields,
    trailer: (NumField, u8, u8, NumField, NumField),
    logical_rowid: Seq<u8>,
    error_num: NumField,
    rowcount: NumField,
    field_version_20_1: bool,
    extra: (NumField, NumField),
    message: Seq<u8>,
    rest: Seq<u8>,
)
    requires
        fits(status.0, 4) && fits(status.1, 2),
        fits(counters.0, 4) && fits(counters.1, 2) && fits(counters.2, 2) && fits(counters.3, 2),
        fits(cursor_id, 2) && fits(error_pos, 2),
        rowid_fits(rowid),
        fits(trailer.0, 4) && fits(trailer.3, 2) && fits(trailer.4, 4),
        logical_rowid.len() < 254,
        fits(error_num, 4) && fits(rowcount, 8),
        fits(extra.0, 4) && fits(extra.1, 4),
        error_num.1 != 0 ==> 0 < message.len() < 254 && valid_utf8(message),
    ensures
        ({
            let buf = enc_error_info(
                status,
                counters,
                cursor_id,
                error_pos,
                options,
                flags,
                rowid,
                trailer,
                logical_rowid,
                error_num,
                rowcount,
                if field_version_20_1 {
                    Some(extra)
                } else {
                    None
                },
                message,
                rest,
            );
            &&& !spec_has_batch_errors(buf, 0)
            &&& spec_read_error_info(buf, 0, field_version_20_1) == Ok::<
                ((nat, nat, u8, nat, nat, Option<Seq<char>>), int),
                Error,
            >(
                (
                    (
                        cursor_id.1,
                        error_pos.1,
                        flags,
                        error_num.1,
                        rowcount.1,
                        if error_num.1 == 0 {
                            None
                        } else {
                            Some(decode_utf8(message))
                        },
                    ),
                    buf.len() - rest.len(),
                ),
            )
        }),
{
    lemma_pow256_values();
    let ex = if field_version_20_1 {
        Some(extra)
    } else {
        None
    };
    let t_error = enc_tail(error_num, rowcount, ex, message, rest);
    let t_batch3 = seq![0u8] + t_error;
    let t_batch2 = seq![0u8] + t_batch3;
    let t_batch = seq![0u8] + t_batch2;
    let buf = enc_error_info(
        status,
        counters,
        cursor_id,
        error_pos,
        options,
        flags,
        rowid,
        trailer,
        logical_rowid,
        error_num,
        rowcount,
        ex,
        message,
        rest,
    );
    assert(buf.skip(0) =~= buf);
    law_header_of_encoding(
        buf,
        0,
        status,
        counters,
        cursor_id,
        error_pos,
        options,
        flags,
        rowid,
        trailer,
        logical_rowid,
        t_batch,
    );
    let p = buf.len() - t_batch.len();
    assert(seq![0u8] + t_batch2 =~= enc_uint((0, 0)) + t_batch2);
    assert(seq![0u8] + t_batch3 =~= enc_uint((0, 0)) + t_batch3);
    assert(seq![0u8] + t_error =~= enc_uint((0, 0)) + t_error);
    lemma_read_uint_prefix(buf, p, (0, 0), 2, t_batch2);
    lemma_read_uint_prefix(buf, p + 1, (0, 0), 4, t_batch3);
    lemma_read_uint_prefix(buf, p + 2, (0, 0), 2, t_error);
    assert(spec_read_batch_counts(buf, p) == Ok::<Option<int>, Error>(Some(p + 3)));
    law_tail_of_encoding(buf, p + 3, error_num, rowcount, field_version_20_1, extra, message, rest);
}

// ---------------------------------------------------------------------------
// The error information itself.
// ---------------------------------------------------------------------------

/// Error information that the server sends at the end of a call.
#[derive(Debug)]
pub struct ErrorInfo {
    db_error: Option<DbError>,
    cursor_id: u16,
    flags: u8,
    rowcount: u64,
}

/// Represents errors returned by the database.
#[derive(Clone, Debug, PartialEq)]
pub struct DbError {
    code: usize,
    offset: usize,
    message: String,
}

impl DbError {
    pub fn new(code: usize, offset: usize, message: String) -> (e: DbError)
        ensures
            e.code_spec() == code,
            e.offset_spec() == offset,
            e.message_spec() == message@,
    {
        DbError { code, offset, message }
    }

    pub closed spec fn code_spec(&self) -> usize {
        self.code
    }

    pub closed spec fn offset_spec(&self) -> usize {
        self.offset
    }

    pub closed spec fn message_spec(&self) -> Seq<char> {
        self.message@
    }

    /// Returns the error code associated with the database error.
    pub fn code(&self) -> (r: usize)
        ensures
            r == self.code_spec(),
    {
        self.code
    }

    /// Returns the error message associated with the database error.
    pub fn message(&self) -> (r: &str)
        ensures
            r@ == self.message_spec(),
    {
        self.message.as_str()
    }

    /// Returns the offset associated with the database error.
    pub fn offset(&self) -> (r: usize)
        ensures
            r == self.offset_spec(),
    {
        self.offset
    }
}

impl ErrorInfo {
    pub closed spec fn cursor_id_spec(&self) -> u16 {
        self.cursor_id
    }

    pub closed spec fn flags_spec(&self) -> u8 {
        self.flags
    }

    pub closed spec fn rowcount_spec(&self) -> u64 {
        self.rowcount
    }

    pub closed spec fn db_error_spec(&self) -> Option<DbError> {
        self.db_error
    }

    /// Whether the error information is what `spec` describes: a database
    /// error is present exactly when the error number is not zero, and then
    /// carries that number, the error position and the message without its
    /// trailing white space.
    pub open spec fn matches_spec(&self, spec: (nat, nat, u8, nat, nat, Option<Seq<char>>)) -> bool {
        let (cursor_id, error_pos, flags, error_num, rowcount, message) = spec;
        &&& self.cursor_id_spec() == cursor_id
        &&& self.flags_spec() == flags
        &&& self.rowcount_spec() == rowcount
        &&& match self.db_error_spec() {
            Some(e) => error_num != 0 && message is Some && e.code_spec() == error_num
                && e.offset_spec() == error_pos && e.message_spec() == trim_white_end(
                message->0,
            ),
            None => error_num == 0,
        }
    }

    /// Deserializes the error information from the database response.
    pub fn deserialize(resp: &mut Response, client: &Client) -> (r: Result<ErrorInfo, Error>)
        requires
            !spec_has_batch_errors(old(resp).bytes_spec(), old(resp).pos_spec()),
        ensures
            old(resp).same_content(final(resp)),
            match spec_read_error_info(
                old(resp).bytes_spec(),
                old(resp).pos_spec(),
                client.ttc_field_version_spec() >= TTC_FIELD_VERSION_20_1,
            ) {
                Ok((info, p)) => r matches Ok(x) && x.matches_spec(info) && final(resp).pos_spec()
                    == p,
                Err(e) => r == Err::<ErrorInfo, Error>(e),
            },
    {
        proof {
            reveal(spec_read_header);
            reveal(spec_read_tail);
        }
        resp.deserialize_status()?;
        let _current_row_num = resp.read_ub4()?;
        let _error_num_short = resp.read_ub2()?;
        let _array_elem_error_1 = resp.read_ub2()?;
        let _array_elem_error_2 = resp.read_ub2()?;
        let cursor_id = resp.read_ub2()?;
        let error_pos = resp.read_ub2()?;
        let _old_sql_type = resp.read_u8()?;
        let _fatal = resp.read_u8()?;
        let _flags_1 = resp.read_u8()?;
        let _user_cursor_options = resp.read_u8()?;
        let _upi_parameter = resp.read_u8()?;
        let flags = resp.read_u8()?;
        let _rowid = Rowid::deserialize(resp)?;
        let _os_error = resp.read_ub4()?;
        let _statement_num = resp.read_u8()?;
        let _call_num = resp.read_u8()?;
        let _padding = resp.read_ub2()?;
        let _success_iters = resp.read_ub4()?;
        if resp.read_ub4()? > 0 {
            let _logical_rowid = resp.read_bytes_with_length()?;
        }
        // Batch errors are not supported: the precondition leaves out replies that carry any.
        let batch_errors = resp.read_ub2()?;
        assert(batch_errors == 0);
        let batch_error_offsets = resp.read_ub4()?;
        assert(batch_error_offsets == 0);
        let batch_error_messages = resp.read_ub2()?;
        assert(batch_error_messages == 0);
        let error_num = resp.read_ub4()?;
        let rowcount = resp.read_ub8()?;
        if client.supports_ttc_field_version(TTC_FIELD_VERSION_20_1) {
            let _sql_type = resp.read_ub4()?;
            let _server_checksum = resp.read_ub4()?;
        }
        let db_error = if error_num == 0 {
            None
        } else {
            let message = resp.read_utf8_with_length()?;
            let trimmed = trim_end(message.as_str());
            proof {
                lemma_trim_white_end(message@, trimmed@.len() as int);
            }
            Some(DbError {
                code: error_num as usize,
                offset: error_pos as usize,
                message: trimmed.to_owned(),
            })
        };
        Ok(ErrorInfo { cursor_id, flags, rowcount, db_error })
    }

    /// Returns the cursor id.
    pub fn cursor_id(&self) -> (r: u16)
        ensures
            r == self.cursor_id_spec(),
    {
        self.cursor_id
    }

    /// Returns whether or not a compilation warning was returned.
    pub fn is_compilation_warning(&self) -> (r: bool)
        ensures
            r == (self.flags_spec() & 0x20 != 0),
    {
        self.flags & 0x20 != 0
    }

    /// Returns the row count.
    pub fn rowcount(&self) -> (r: u64)
        ensures
            r == self.rowcount_spec(),
    {
        self.rowcount
    }

    /// Takes the error message from the response and returns it.
    pub fn take_db_error(&mut self) -> (r: Option<DbError>)
        ensures
            r == old(self).db_error_spec(),
            final(self).db_error_spec() is None,
            final(self).cursor_id_spec() == old(self).cursor_id_spec(),
            final(self).flags_spec() == old(self).flags_spec(),
            final(self).rowcount_spec() == old(self).rowcount_spec(),
    {
        self.db_error.take()
    }

    /// Transfers information from another error info structure that was
    /// received earlier. This is intended for use when a batch of statements is
    /// being executed and a single response is being returned.
    pub fn transfer_into(&mut self, other_info: &mut ErrorInfo)
        requires
            old(self).rowcount_spec() + old(other_info).rowcount_spec() <= u64::MAX,
        ensures
            final(self).rowcount_spec() == old(self).rowcount_spec() + old(other_info).rowcount_spec(),
            final(self).db_error_spec() == old(self).db_error_spec(),
            final(self).cursor_id_spec() == old(self).cursor_id_spec(),
            final(self).flags_spec() == old(self).flags_spec(),
            *final(other_info) == *old(other_info),
    {
        self.rowcount += other_info.rowcount;
    }
}

} // verus!
