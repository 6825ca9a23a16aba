//! The request-parsing layer: boundary extraction, the form grammar, and
//! the decimal codec.

use otaflow::decimal::{decimal_digits, parse_usize};
use otaflow::multipart::{extract_boundary, parse_form};

fn form_body(boundary: &[u8], parts: &[(&[u8], &[u8])]) -> Vec<u8> {
    let mut b = Vec::new();
    for (name, data) in parts {
        b.extend_from_slice(b"--");
        b.extend_from_slice(boundary);
        b.extend_from_slice(b"\r\nContent-Disposition: form-data; name=\"");
        b.extend_from_slice(name);
        b.extend_from_slice(b"\"\r\n\r\n");
        b.extend_from_slice(data);
        b.extend_from_slice(b"\r\n");
    }
    b.extend_from_slice(b"--");
    b.extend_from_slice(boundary);
    b.extend_from_slice(b"--");
    b
}

#[test]
fn boundary_from_content_type() {
    let r = extract_boundary(Some(b"multipart/form-data; boundary=XYZ"));
    assert_eq!(r, Some(b"XYZ".to_vec()));
}

#[test]
fn boundary_needs_form_data_label() {
    assert_eq!(extract_boundary(Some(b"text/plain; boundary=XYZ")), None);
}

#[test]
fn boundary_needs_introducer() {
    assert_eq!(extract_boundary(Some(b"multipart/form-data")), None);
    assert_eq!(extract_boundary(None), None);
}

#[test]
fn boundary_takes_rest_of_value() {
    let r = extract_boundary(Some(b"multipart/form-data; boundary=a=b; x"));
    assert_eq!(r, Some(b"a=b; x".to_vec()));
}

#[test]
fn form_parses_named_parts() {
    let body = form_body(b"XYZ", &[(b"index", b"0"), (b"chunk", b"ABCD")]);
    let f = parse_form(&body, &b"XYZ".to_vec()).expect("well-formed body");
    assert_eq!(f.index_text, Some(b"0".to_vec()));
    assert_eq!(f.chunk_data, Some(b"ABCD".to_vec()));
}

#[test]
fn form_ignores_other_parts() {
    let body = form_body(b"B", &[(b"other", b"zzz"), (b"index", b"7")]);
    let f = parse_form(&body, &b"B".to_vec()).expect("well-formed body");
    assert_eq!(f.index_text, Some(b"7".to_vec()));
    assert_eq!(f.chunk_data, None);
}

#[test]
fn form_later_part_shadows_earlier() {
    let body = form_body(b"B", &[(b"index", b"1"), (b"index", b"2")]);
    let f = parse_form(&body, &b"B".to_vec()).expect("well-formed body");
    assert_eq!(f.index_text, Some(b"2".to_vec()));
}

#[test]
fn form_rejects_missing_opening_delimiter() {
    assert!(parse_form(b"not a form at all", &b"XYZ".to_vec()).is_none());
    assert!(parse_form(b"", &b"XYZ".to_vec()).is_none());
}

#[test]
fn form_rejects_unterminated_message() {
    // Opens like a part but the closing delimiter never comes.
    let body = b"--XYZ\r\nContent-Disposition: form-data; name=\"index\"\r\n\r\n0";
    assert!(parse_form(body, &b"XYZ".to_vec()).is_none());
}

#[test]
fn form_rejects_nameless_part() {
    let body = b"--XYZ\r\nContent-Disposition: form-data\r\n\r\n0\r\n--XYZ--";
    assert!(parse_form(body, &b"XYZ".to_vec()).is_none());
}

#[test]
fn form_accepts_empty_message() {
    let f = parse_form(b"--XYZ--", &b"XYZ".to_vec()).expect("empty form");
    assert_eq!(f.index_text, None);
    assert_eq!(f.chunk_data, None);
}

#[test]
fn index_parses_decimal() {
    assert_eq!(parse_usize(b"0"), Some(0));
    assert_eq!(parse_usize(b"4000"), Some(4000));
    assert_eq!(parse_usize(b"+17"), Some(17));
}

#[test]
fn index_rejects_junk() {
    assert_eq!(parse_usize(b""), None);
    assert_eq!(parse_usize(b"+"), None);
    assert_eq!(parse_usize(b"12a"), None);
    assert_eq!(parse_usize(b"-1"), None);
    assert_eq!(parse_usize(b" 4"), None);
}

#[test]
fn index_bounds_at_machine_word() {
    let max = format!("{}", usize::MAX);
    assert_eq!(parse_usize(max.as_bytes()), Some(usize::MAX));
    assert_eq!(parse_usize(b"99999999999999999999999999"), None);
}

#[test]
fn totals_render_in_decimal() {
    assert_eq!(decimal_digits(0), b"0".to_vec());
    assert_eq!(decimal_digits(9), b"9".to_vec());
    assert_eq!(decimal_digits(4000), b"4000".to_vec());
    assert_eq!(decimal_digits(9000), b"9000".to_vec());
}

#[test]
fn rendered_totals_read_back() {
    for n in [0usize, 1, 10, 409, 4096, 65535, usize::MAX] {
        let digits = decimal_digits(n);
        assert_eq!(parse_usize(&digits), Some(n));
    }
}
