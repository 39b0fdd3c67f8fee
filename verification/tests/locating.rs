use mailfilter::header::find_header;
use mailfilter::locate::{locate, locate_bytes};

#[test]
fn finds_header_inside_header_block() {
    let buffer = b"Received: x\r\nSubject: hi\r\n\r\nbody";
    assert_eq!(locate(buffer, "\nSubject:"), Some(21));
}

#[test]
fn matches_without_regard_to_case() {
    let buffer = b"Received: x\r\nSubject: hi\r\n\r\nbody";
    assert_eq!(locate(buffer, "\nsubject:"), Some(21));
    assert_eq!(locate(buffer, "\nSUBJECT:"), Some(21));
    let shouting = b"Received: x\r\nSUBJECT: hi\r\n\r\nbody";
    assert_eq!(locate(shouting, "\nsubject:"), Some(21));
}

#[test]
fn offset_is_just_behind_the_name() {
    let buffer = b"A: 1\nTo: you\n\n";
    let end = locate(buffer, "\nto:").unwrap();
    assert_eq!(end, 8);
    assert_eq!(&buffer[end..end + 4], b" you");
}

#[test]
fn header_behind_lf_blank_line_is_not_found() {
    let buffer = b"A: b\n\nSubject: hi\n";
    assert_eq!(locate(buffer, "\nsubject:"), None);
}

#[test]
fn header_behind_crlf_blank_line_is_not_found() {
    let buffer = b"A: b\r\n\r\nSubject: hi\r\n";
    assert_eq!(locate(buffer, "\nsubject:"), None);
}

#[test]
fn header_in_the_body_is_not_found_even_without_headers() {
    let buffer = b"\n\nSubject: hi\n";
    assert_eq!(locate(buffer, "\nsubject:"), None);
}

#[test]
fn missing_header_is_not_found() {
    assert_eq!(locate(b"A: b\nC: d\n\nbody", "\nsubject:"), None);
    assert_eq!(locate(b"A: b\nC: d\n", "\nsubject:"), None);
    assert_eq!(locate(b"", "\nsubject:"), None);
}

#[test]
fn header_on_the_first_line_is_not_found() {
    let buffer = b"Subject: hi\nTo: you\n\nbody";
    assert_eq!(locate(buffer, "\nsubject:"), None);
    assert_eq!(locate(buffer, "\nto:"), Some(15));
}

#[test]
fn first_of_two_occurrences_is_found() {
    let buffer = b"A: b\nX: 1\nX: 2\n\n";
    assert_eq!(locate(buffer, "\nx:"), Some(7));
}

#[test]
fn name_inside_a_value_is_not_a_header() {
    let buffer = b"A: subject: no\nSubject: yes\n\n";
    assert_eq!(locate(buffer, "\nsubject:"), Some(23));
}

#[test]
fn name_without_newline_matches_anywhere() {
    let buffer = b"A: subject: no\nSubject: yes\n\n";
    assert_eq!(locate(buffer, "subject:"), Some(11));
}

#[test]
fn header_that_ends_where_the_block_ends_is_found() {
    let buffer = b"A: b\nTo:\n\nbody";
    assert_eq!(locate(buffer, "\nto:"), Some(8));
}

#[test]
fn locate_bytes_and_text_agree() {
    let buffer = b"A: b\r\nCc: x@y.z\r\n\r\n";
    assert_eq!(locate_bytes(buffer, b"\ncc:"), locate(buffer, "\ncc:"));
    assert_eq!(locate_bytes(buffer, b"\ncc:"), Some(9));
}

#[test]
fn find_header_adds_the_newline() {
    let buffer = b"A: b\r\nCc: x@y.z\r\n\r\n";
    assert_eq!(find_header(buffer, b"cc:"), Some(9));
    assert_eq!(find_header(buffer, b"CC"), Some(8));
    assert_eq!(find_header(buffer, b"a:"), None);
    assert_eq!(find_header(buffer, b"bcc:"), None);
}
