use sftp_engine::text::{text_from_read, text_read_limit, DEFAULT_MAX_TEXT_BYTES};

#[test]
fn valid_utf8_read_is_returned_as_text() {
    let buffer = "hello, world".as_bytes().to_vec();
    let n = buffer.len();
    assert_eq!(text_from_read(buffer, n), Ok("hello, world".to_string()));
}

#[test]
fn read_is_truncated_to_bytes_read() {
    let buffer = "hello, world".as_bytes().to_vec();
    assert_eq!(text_from_read(buffer, 5), Ok("hello".to_string()));
}

#[test]
fn binary_content_is_rejected_not_lossily_decoded() {
    let buffer = vec![0x68, 0xff, 0xfe, 0x00];
    assert_eq!(
        text_from_read(buffer, 4),
        Err("File contains non-UTF8 content (binary file)".to_string())
    );
}

#[test]
fn split_multibyte_sequence_is_rejected() {
    // "é" is two bytes; cutting between them leaves invalid UTF-8
    let buffer = "é".as_bytes().to_vec();
    assert_eq!(
        text_from_read(buffer, 1),
        Err("File contains non-UTF8 content (binary file)".to_string())
    );
}

#[test]
fn text_read_limit_defaults_to_one_megabyte() {
    assert_eq!(text_read_limit(None), DEFAULT_MAX_TEXT_BYTES);
    assert_eq!(text_read_limit(None), 1024 * 1024);
    assert_eq!(text_read_limit(Some(4096)), 4096);
}
