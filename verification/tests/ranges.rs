use reqwest::header::{HeaderMap, HeaderValue, ACCEPT_RANGES, CONTENT_LENGTH, RANGE};
use reqwest_resume::ranges::{accepts_byte_ranges, lists_bytes};

fn headers_with_accept_ranges(value: &[u8]) -> HeaderMap {
    let mut headers = HeaderMap::new();
    headers.insert(CONTENT_LENGTH, HeaderValue::from_static("1000"));
    headers.insert(ACCEPT_RANGES, HeaderValue::from_bytes(value).unwrap());
    headers
}

#[test]
fn detector_accepts_the_value_bytes() {
    assert!(accepts_byte_ranges(&headers_with_accept_ranges(b"bytes")));
}

#[test]
fn detector_accepts_bytes_among_other_units() {
    assert!(accepts_byte_ranges(&headers_with_accept_ranges(b"bytes, identity")));
    assert!(accepts_byte_ranges(&headers_with_accept_ranges(b"identity,bytes")));
    assert!(accepts_byte_ranges(&headers_with_accept_ranges(b"a, b ,\tbytes\t, c")));
}

#[test]
fn detector_rejects_the_value_none() {
    assert!(!accepts_byte_ranges(&headers_with_accept_ranges(b"none")));
}

#[test]
fn detector_rejects_a_missing_header() {
    assert!(!accepts_byte_ranges(&HeaderMap::new()));
    let mut headers = HeaderMap::new();
    headers.insert(CONTENT_LENGTH, HeaderValue::from_static("1000"));
    headers.insert(RANGE, HeaderValue::from_static("bytes"));
    assert!(!accepts_byte_ranges(&headers));
}

#[test]
fn detector_rejects_a_value_that_is_not_text() {
    // Each of these lists the item `bytes`, but holds a byte outside ASCII.
    assert!(!accepts_byte_ranges(&headers_with_accept_ranges(b"bytes,\xff")));
    assert!(!accepts_byte_ranges(&headers_with_accept_ranges(b"\x80, bytes")));
    assert!(!accepts_byte_ranges(&headers_with_accept_ranges(b"bytes\xfa")));
}

#[test]
fn detector_reads_the_first_of_several_values() {
    let mut headers = HeaderMap::new();
    headers.append(ACCEPT_RANGES, HeaderValue::from_static("none"));
    headers.append(ACCEPT_RANGES, HeaderValue::from_static("bytes"));
    assert!(!accepts_byte_ranges(&headers));

    let mut headers = HeaderMap::new();
    headers.append(ACCEPT_RANGES, HeaderValue::from_static("bytes"));
    headers.append(ACCEPT_RANGES, HeaderValue::from_static("none"));
    assert!(accepts_byte_ranges(&headers));
}

#[test]
fn detector_is_exact_about_case() {
    assert!(!accepts_byte_ranges(&headers_with_accept_ranges(b"Bytes")));
    assert!(!accepts_byte_ranges(&headers_with_accept_ranges(b"BYTES")));
}

#[test]
fn detector_takes_an_empty_value_as_no_support() {
    assert!(!accepts_byte_ranges(&headers_with_accept_ranges(b"")));
}

#[test]
fn list_names_bytes_when_an_item_is_bytes() {
    assert!(lists_bytes(b"bytes"));
    assert!(lists_bytes(b"bytes,"));
    assert!(lists_bytes(b",bytes"));
    assert!(lists_bytes(b",bytes,"));
    assert!(lists_bytes(b"none,bytes"));
    assert!(lists_bytes(b"none, bytes, identity"));
    assert!(lists_bytes(b"bytes,bytes"));
}

#[test]
fn list_items_are_trimmed_of_spaces_and_tabs() {
    assert!(lists_bytes(b" bytes"));
    assert!(lists_bytes(b"bytes "));
    assert!(lists_bytes(b"  \t bytes \t  "));
    assert!(lists_bytes(b"none ,\tbytes\t, identity"));
}

#[test]
fn list_does_not_name_bytes_otherwise() {
    assert!(!lists_bytes(b""));
    assert!(!lists_bytes(b","));
    assert!(!lists_bytes(b" "));
    assert!(!lists_bytes(b"none"));
    assert!(!lists_bytes(b"byte"));
    assert!(!lists_bytes(b"bytess"));
    assert!(!lists_bytes(b"xbytes"));
    assert!(!lists_bytes(b"bytesbytes"));
    assert!(!lists_bytes(b"by tes"));
    assert!(!lists_bytes(b"by,tes"));
    assert!(!lists_bytes(b"Bytes"));
    assert!(!lists_bytes(b"bytes=0-"));
    assert!(!lists_bytes(b"bytes;q=1"));
    assert!(!lists_bytes(b"\"bytes\""));
}

#[test]
fn list_blanks_are_space_and_tab_only() {
    assert!(!lists_bytes(b"\nbytes"));
    assert!(!lists_bytes(b"bytes\r"));
    assert!(!lists_bytes(b"\x0bbytes"));
    assert!(!lists_bytes(b"\xa0bytes"));
}
