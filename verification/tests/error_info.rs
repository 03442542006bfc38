use lib::client::{Client, TTC_FIELD_VERSION_20_1};
use lib::error::Error;
use lib::response::error_info::ErrorInfo;
use lib::response::Response;

/// The error information of a reply, up to and including the batch counts.
fn head(cursor_id: u8, error_pos: u8, flags: u8) -> Vec<u8> {
    let mut b = vec![
        1, 0, 1, 5, // status: call status, sequence number
        0, // current row number
        0, 0, 0, // error number (short), array element errors
        1, cursor_id, // cursor id
        1, error_pos, // error position
        0, 0, 0, 0, 0, // sql type, fatal, flags, cursor options, UPI parameter
        flags,
        0, 0, 0, 0, 0, // rowid
        0, 0, 0, 0, 0, // os error, statement number, call number, padding, success iterations
        0, // logical rowid
    ];
    b.extend_from_slice(&[0, 0, 0]); // batch counts
    b
}

fn tail(error_num: &[u8], rowcount: &[u8], v20: bool, message: Option<&str>) -> Vec<u8> {
    let mut b = Vec::new();
    b.extend_from_slice(error_num);
    b.extend_from_slice(rowcount);
    if v20 {
        b.extend_from_slice(&[0, 0]);
    }
    if let Some(m) = message {
        let bytes = m.as_bytes();
        b.extend_from_slice(&[1, bytes.len() as u8, bytes.len() as u8]);
        b.extend_from_slice(bytes);
    }
    b
}

#[test]
fn deserializes_success_without_error() {
    let mut bytes = head(3, 0, 0);
    bytes.extend(tail(&[0], &[1, 42], false, None));
    let len = bytes.len();
    let mut resp = Response::new(bytes, None, 0);
    let mut info = ErrorInfo::deserialize(&mut resp, &Client::new(TTC_FIELD_VERSION_20_1 - 1)).unwrap();
    assert_eq!(info.cursor_id(), 3);
    assert_eq!(info.rowcount(), 42);
    assert!(!info.is_compilation_warning());
    assert!(info.take_db_error().is_none());
    assert_eq!(resp.position(), len);
}

#[test]
fn deserializes_database_error_with_trimmed_message() {
    let mut bytes = head(7, 12, 0x20);
    bytes.extend(tail(&[2, 0x03, 0xae], &[1, 3], true, Some("ORA-00942: table or view does not exist\n  ")));
    let len = bytes.len();
    let mut resp = Response::new(bytes, None, 0);
    let mut info = ErrorInfo::deserialize(&mut resp, &Client::new(TTC_FIELD_VERSION_20_1)).unwrap();
    assert_eq!(resp.position(), len);
    assert_eq!(info.cursor_id(), 7);
    assert_eq!(info.rowcount(), 3);
    assert!(info.is_compilation_warning());
    let err = info.take_db_error().unwrap();
    assert_eq!(err.code(), 942);
    assert_eq!(err.offset(), 12);
    assert_eq!(err.message(), "ORA-00942: table or view does not exist");
    assert!(info.take_db_error().is_none());
}

#[test]
fn field_version_decides_whether_two_more_fields_are_read() {
    let mut bytes = head(1, 0, 0);
    bytes.extend(tail(&[0], &[0], true, None));
    let len = bytes.len();
    let mut old = Response::new(bytes.clone(), None, 0);
    ErrorInfo::deserialize(&mut old, &Client::new(TTC_FIELD_VERSION_20_1 - 1)).unwrap();
    assert_eq!(old.position(), len - 2);
    let mut new = Response::new(bytes, None, 0);
    ErrorInfo::deserialize(&mut new, &Client::new(TTC_FIELD_VERSION_20_1)).unwrap();
    assert_eq!(new.position(), len);
}

#[test]
fn skips_logical_rowid() {
    let mut bytes = head(2, 0, 0);
    // replace the logical rowid length (last byte before the batch counts)
    let at = bytes.len() - 4;
    bytes.splice(at..at + 1, [1, 1, 1, 2, 2, 0xab, 0xcd]);
    bytes.extend(tail(&[0], &[1, 5], false, None));
    let mut resp = Response::new(bytes, None, 0);
    let info = ErrorInfo::deserialize(&mut resp, &Client::new(0)).unwrap();
    assert_eq!(info.cursor_id(), 2);
    assert_eq!(info.rowcount(), 5);
}

#[test]
fn truncated_error_information_is_end_of_data() {
    let bytes = head(2, 0, 0);
    let mut resp = Response::new(bytes, None, 0);
    assert_eq!(ErrorInfo::deserialize(&mut resp, &Client::new(0)).unwrap_err(), Error::UnexpectedEndOfData);
}

#[test]
fn invalid_message_is_reported() {
    let mut bytes = head(2, 0, 0);
    bytes.extend_from_slice(&[1, 1, 0]);
    bytes.extend_from_slice(&[1, 2, 2, 0xff, 0xfe]);
    let mut resp = Response::new(bytes, None, 0);
    assert_eq!(ErrorInfo::deserialize(&mut resp, &Client::new(0)).unwrap_err(), Error::InvalidUtf8);
}

#[test]
fn transfer_adds_row_counts() {
    let mut b1 = head(1, 0, 0);
    b1.extend(tail(&[0], &[1, 4], false, None));
    let mut b2 = head(1, 0, 0);
    b2.extend(tail(&[0], &[1, 6], false, None));
    let mut info = ErrorInfo::deserialize(&mut Response::new(b1, None, 0), &Client::new(0)).unwrap();
    let mut earlier = ErrorInfo::deserialize(&mut Response::new(b2, None, 0), &Client::new(0)).unwrap();
    info.transfer_into(&mut earlier);
    assert_eq!(info.rowcount(), 10);
    assert_eq!(earlier.rowcount(), 6);
}
