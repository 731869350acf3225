use reqwest::header::RANGE;
use reqwest_resume::range_header::{range_value, resume_headers, DASH};

#[test]
fn range_value_at_the_start() {
    assert_eq!(range_value(0), b"bytes=0-".to_vec());
}

#[test]
fn range_value_is_the_offset_in_decimal() {
    assert_eq!(range_value(7), b"bytes=7-".to_vec());
    assert_eq!(range_value(9), b"bytes=9-".to_vec());
    assert_eq!(range_value(10), b"bytes=10-".to_vec());
    assert_eq!(range_value(99), b"bytes=99-".to_vec());
    assert_eq!(range_value(100), b"bytes=100-".to_vec());
    assert_eq!(range_value(1234), b"bytes=1234-".to_vec());
    assert_eq!(range_value(1_000_000_007), b"bytes=1000000007-".to_vec());
}

#[test]
fn range_value_at_the_largest_offset() {
    assert_eq!(range_value(u64::MAX), b"bytes=18446744073709551615-".to_vec());
}

#[test]
fn range_value_agrees_with_the_standard_formatting() {
    let mut pos: u64 = 1;
    while pos < u64::MAX / 7 {
        assert_eq!(range_value(pos), format!("bytes={}-", pos).into_bytes());
        assert_eq!(range_value(pos - 1), format!("bytes={}-", pos - 1).into_bytes());
        pos = pos * 7 + 3;
    }
}

#[test]
fn range_value_is_an_open_range() {
    assert_eq!(DASH, b'-');
    assert_eq!(range_value(42).last(), Some(&b'-'));
}

#[test]
fn resume_headers_hold_the_range_header() {
    let headers = resume_headers(1234);
    assert_eq!(headers.get(RANGE).unwrap().as_bytes(), b"bytes=1234-");
    assert_eq!(headers.get("range").unwrap().to_str().unwrap(), "bytes=1234-");
}

#[test]
fn resume_headers_hold_nothing_else() {
    let headers = resume_headers(0);
    assert_eq!(headers.len(), 1);
    assert_eq!(headers.keys_len(), 1);
    assert_eq!(headers.get(RANGE).unwrap().as_bytes(), b"bytes=0-");
}

#[test]
fn resume_headers_at_the_largest_offset() {
    let headers = resume_headers(u64::MAX);
    assert_eq!(headers.get(RANGE).unwrap().as_bytes(), b"bytes=18446744073709551615-");
}
