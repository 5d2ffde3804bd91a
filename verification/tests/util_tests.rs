use boykisser::create_data_url;
use boykisser::get_char_count;
use boykisser::get_line_count;
use boykisser::mime_type_from_extension;
use boykisser::to_base64;

#[test]
fn test_base64_encoding() {
    let data = b"Hello, World!";
    let encoded = to_base64(data);
    assert!(!encoded.is_empty());
}

#[test]
fn test_base64_known_values() {
    assert_eq!(to_base64(&[]), "");
    assert_eq!(to_base64(&[77]), "TQ==");
    assert_eq!(to_base64(&[77, 97]), "TWE=");
    assert_eq!(to_base64(&[77, 97, 110]), "TWFu");
    assert_eq!(to_base64(&[72, 101, 108, 108, 111]), "SGVsbG8=");
    assert_eq!(to_base64(b"Hello, World!"), "SGVsbG8sIFdvcmxkIQ==");
}

#[test]
fn test_base64_alphabet_edges() {
    // 0x00,0x10,0x83 exercises sextets 0, 1, 2, 3; 0xff,0xff,0xff the end
    // of the alphabet.
    assert_eq!(to_base64(&[0x00, 0x10, 0x83]), "ABCD");
    assert_eq!(to_base64(&[0xff, 0xff, 0xff]), "////");
    assert_eq!(to_base64(&[0xfb, 0xef, 0xbe]), "++++");
}

#[test]
fn test_mime_type_detection() {
    assert_eq!(mime_type_from_extension("png"), "image/png");
    assert_eq!(mime_type_from_extension("txt"), "text/plain");
    assert_eq!(mime_type_from_extension("unknown"), "application/octet-stream");
}

#[test]
fn test_mime_type_is_case_insensitive() {
    assert_eq!(mime_type_from_extension("PNG"), "image/png");
    assert_eq!(mime_type_from_extension("png"), "image/png");
    assert_eq!(mime_type_from_extension("JpEg"), "image/jpeg");
}

#[test]
fn test_mime_type_unknown_extension() {
    assert_eq!(mime_type_from_extension("xyz"), "application/octet-stream");
}

#[test]
fn test_mime_type_full_table() {
    assert_eq!(mime_type_from_extension("jpg"), "image/jpeg");
    assert_eq!(mime_type_from_extension("jpeg"), "image/jpeg");
    assert_eq!(mime_type_from_extension("gif"), "image/gif");
    assert_eq!(mime_type_from_extension("svg"), "image/svg+xml");
    assert_eq!(mime_type_from_extension("ico"), "image/x-icon");
    assert_eq!(mime_type_from_extension("html"), "text/html");
    assert_eq!(mime_type_from_extension("css"), "text/css");
    assert_eq!(mime_type_from_extension("js"), "application/javascript");
    assert_eq!(mime_type_from_extension("json"), "application/json");
}

#[test]
fn test_data_url_creation() {
    let data = b"test";
    let url = create_data_url(data, "text/plain");
    assert!(url.starts_with("data:text/plain;base64,"));
}

#[test]
fn test_data_url_exact() {
    assert_eq!(
        create_data_url(&[116, 101, 115, 116], "text/plain"),
        "data:text/plain;base64,dGVzdA=="
    );
}

#[test]
fn test_char_count_counts_scalars_not_bytes() {
    // 'é' is two bytes in UTF-8 but one character.
    assert_eq!(get_char_count("héllo"), 5);
    // Each of these is three bytes in UTF-8.
    assert_eq!(get_char_count("日本語"), 3);
    assert_eq!(get_char_count(""), 0);
    assert_eq!(get_char_count("plain"), 5);
}

#[test]
fn test_line_count() {
    assert_eq!(get_line_count(""), 0);
    assert_eq!(get_line_count("one line"), 1);
    assert_eq!(get_line_count("a\nb\nc"), 3);
    // A trailing terminator does not add an empty segment.
    assert_eq!(get_line_count("a\nb\nc\n"), 3);
    assert_eq!(get_line_count("\n"), 1);
    assert_eq!(get_line_count("a\r\nb"), 2);
}
