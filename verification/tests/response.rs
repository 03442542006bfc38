use lib::error::Error;
use lib::response::Response;
use lib::rowid::Rowid;

fn resp(bytes: Vec<u8>) -> Response {
    Response::new(bytes, None, 0)
}

#[test]
fn reads_unsigned_integers_big_endian() {
    let mut r = resp(vec![0, 1, 0x2a, 2, 0x01, 0x02, 4, 0xde, 0xad, 0xbe, 0xef, 8, 1, 2, 3, 4, 5, 6, 7, 8]);
    assert_eq!(r.read_ub2().unwrap(), 0);
    assert_eq!(r.read_ub2().unwrap(), 0x2a);
    assert_eq!(r.read_ub4().unwrap(), 0x0102);
    assert_eq!(r.read_ub4().unwrap(), 0xdeadbeef);
    assert_eq!(r.read_ub8().unwrap(), 0x0102030405060708);
    assert_eq!(r.position(), 20);
    assert_eq!(r.read_u8().unwrap_err(), Error::UnexpectedEndOfData);
}

#[test]
fn rejects_negative_and_oversized_integers() {
    let mut r = resp(vec![0x81, 5]);
    assert_eq!(r.read_ub4().unwrap_err(), Error::UnexpectedNegativeInteger);
    assert_eq!(r.position(), 0);
    let mut r = resp(vec![3, 1, 2, 3]);
    assert_eq!(r.read_ub2().unwrap_err(), Error::IntegerTooLarge { length: 3, max_length: 2 });
    assert_eq!(r.position(), 0);
    assert_eq!(r.read_ub4().unwrap(), 0x010203);
}

#[test]
fn truncated_integer_is_end_of_data() {
    let mut r = resp(vec![4, 1, 2]);
    assert_eq!(r.read_ub4().unwrap_err(), Error::UnexpectedEndOfData);
    assert_eq!(r.position(), 0);
}

#[test]
fn reads_byte_strings_plain_null_and_chunked() {
    let mut r = resp(vec![
        1, 3, 3, b'a', b'b', b'c', // plain
        0, // length zero: nothing more
        1, 1, 255, // null indicator
        1, 9, 254, 1, 2, b'x', b'y', 1, 1, b'z', 0, // chunked
    ]);
    assert_eq!(r.read_bytes_with_length().unwrap(), b"abc".to_vec());
    assert_eq!(r.read_bytes_with_length().unwrap(), Vec::<u8>::new());
    assert_eq!(r.read_bytes_with_length().unwrap(), Vec::<u8>::new());
    assert_eq!(r.read_bytes_with_length().unwrap(), b"xyz".to_vec());
    assert_eq!(r.position(), 21);
}

#[test]
fn chunk_running_past_the_end_is_end_of_data() {
    let mut r = resp(vec![1, 9, 254, 1, 5, b'x']);
    assert_eq!(r.read_bytes_with_length().unwrap_err(), Error::UnexpectedEndOfData);
    assert_eq!(r.position(), 0);
}

#[test]
fn reads_utf8_strings() {
    let mut r = resp(vec![1, 4, 4, 0xc3, 0xa9, b't', b'e']);
    assert_eq!(r.read_utf8_with_length().unwrap(), "éte");
    let mut bad = resp(vec![1, 2, 2, 0xc3, 0x28]);
    assert_eq!(bad.read_utf8_with_length().unwrap_err(), Error::InvalidUtf8);
    assert_eq!(bad.position(), 0);
}

#[test]
fn reads_status() {
    let mut r = resp(vec![1, 7, 2, 0, 9, 0xff]);
    r.deserialize_status().unwrap();
    assert_eq!(r.position(), 5);
}

#[test]
fn reads_rowid() {
    let mut r = resp(vec![2, 1, 0, 1, 3, 0xaa, 1, 9, 2, 0, 2]);
    let rowid = Rowid::deserialize(&mut r).unwrap();
    assert_eq!(rowid, Rowid { rba: 256, partition_id: 3, block_num: 9, slot_num: 2 });
    assert_eq!(r.position(), 11);
}

#[test]
fn take_rows_takes_them_once() {
    let mut r = Response::new(vec![], Some(vec![vec![None]]), 12);
    assert_eq!(r.get_rowcount(), 12);
    assert_eq!(r.take_rows().unwrap().len(), 1);
    assert!(r.take_rows().is_none());
}
