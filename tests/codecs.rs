use ebook_library::{checksum, decode_text, encode_cover, cover_data_uri, DecodePolicy, LibraryError};

#[test]
fn checksum_is_crc32() {
    assert_eq!(checksum(b"123456789"), 0xCBF4_3926);
    assert_eq!(checksum(b""), 0);
}

#[test]
fn checksum_is_deterministic() {
    let a = vec![1u8, 2, 3, 250];
    let b = a.clone();
    assert_eq!(checksum(&a), checksum(&b));
    assert_ne!(checksum(&a), checksum(&[1u8, 2, 3, 251]));
}

#[test]
fn lossy_decoding_replaces_invalid_bytes() {
    assert_eq!(decode_text(&[0x61, 0xFF, 0x62], DecodePolicy::Lossy), Ok("a\u{FFFD}b".to_string()));
}

#[test]
fn strict_decoding_rejects_invalid_bytes() {
    assert_eq!(decode_text(&[0x61, 0xFF, 0x62], DecodePolicy::Strict), Err(LibraryError::ParseError));
}

#[test]
fn valid_text_decodes_the_same_under_both_policies() {
    let bytes = "plain text é".as_bytes();
    assert_eq!(decode_text(bytes, DecodePolicy::Strict), Ok("plain text é".to_string()));
    assert_eq!(decode_text(bytes, DecodePolicy::Lossy), Ok("plain text é".to_string()));
}

#[test]
fn cover_is_an_inline_jpeg_data_uri() {
    assert_eq!(encode_cover(b"abc"), Some("data:image/jpeg;base64,YWJj".to_string()));
    assert_eq!(encode_cover(b"ab"), Some("data:image/jpeg;base64,YWI=".to_string()));
    assert_eq!(cover_data_uri("QUJD"), "data:image/jpeg;base64,QUJD");
}
