use base64::Engine;
use quantis_qrng::api::encoding::{from_hex, to_base64, to_hex};

#[test]
fn hex_is_lowercase_without_separators() {
    assert_eq!(to_hex(&[0x00, 0x0f, 0xa5, 0xff]), "000fa5ff");
    assert_eq!(to_hex(&[1, 2, 3, 15, 16]), "0102030f10");
    assert_eq!(to_hex(&[]), "");
}

#[test]
fn base64_is_standard_with_padding() {
    assert_eq!(to_base64(b"Man"), Some("TWFu".to_string()));
    assert_eq!(to_base64(b"Ma"), Some("TWE=".to_string()));
    assert_eq!(to_base64(b"M"), Some("TQ==".to_string()));
    assert_eq!(to_base64(b"hello"), Some("aGVsbG8=".to_string()));
    assert_eq!(to_base64(&[0xfb, 0xff]), Some("+/8=".to_string()));
    assert_eq!(to_base64(&[]), Some(String::new()));
}

#[test]
fn base64_of_48_bytes_has_64_characters() {
    assert_eq!(to_base64(&[7u8; 48]).unwrap().len(), 64);
    assert_eq!(to_base64(&[7u8; 49]).unwrap().len(), 68);
}

#[test]
fn from_hex_reads_either_case() {
    assert_eq!(from_hex("000FA5ff"), Some(vec![0x00, 0x0f, 0xa5, 0xff]));
    assert_eq!(from_hex(""), Some(vec![]));
}

#[test]
fn from_hex_refuses_what_is_not_hex() {
    assert_eq!(from_hex("abc"), None);
    assert_eq!(from_hex("zz"), None);
    assert_eq!(from_hex("0g"), None);
    assert_eq!(from_hex("é"), None);
    assert_eq!(from_hex(" 0"), None);
}

#[test]
fn hex_round_trip() {
    let all: Vec<u8> = (0..=255).collect();
    assert_eq!(from_hex(&to_hex(&all)), Some(all.clone()));
    assert_eq!(to_hex(&from_hex(&to_hex(&all)).unwrap()), to_hex(&all));
    assert_eq!(hex::decode(to_hex(&all)), Ok(all));
}

#[test]
fn base64_round_trip() {
    let all: Vec<u8> = (0..=255).collect();
    let text = to_base64(&all).unwrap();
    assert_eq!(base64::engine::general_purpose::STANDARD.decode(text).unwrap(), all);
}
