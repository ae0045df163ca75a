use icon_extractor::base64::base64_len_ok;
use icon_extractor::data_url::{data_url_payload, decode_base64_payload, make_data_url, png_data_url_payload};

fn encoded(bytes: &[u8]) -> String {
    make_data_url("", bytes).strip_prefix("data:;base64,").unwrap().to_string()
}

#[test]
fn base64_known_vectors() {
    assert_eq!(encoded(b""), "");
    assert_eq!(encoded(b"M"), "TQ==");
    assert_eq!(encoded(b"Ma"), "TWE=");
    assert_eq!(encoded(b"Man"), "TWFu");
    assert_eq!(encoded(&[0xfb, 0xff]), "+/8=");
}

#[test]
fn base64_decode_rejects_non_canonical_text() {
    assert!(decode_base64_payload("TQ").is_err());
    assert!(decode_base64_payload("TR==").is_err());
    assert!(decode_base64_payload("T Q==").is_err());
    assert_eq!(decode_base64_payload("TWFu").unwrap(), b"Man".to_vec());
    assert_eq!(decode_base64_payload("").unwrap(), Vec::<u8>::new());
}

#[test]
fn base64_decode_inverts_encode() {
    for n in 0..40usize {
        let bytes: Vec<u8> = (0..n).map(|i| (i * 37 + 11) as u8).collect();
        assert_eq!(decode_base64_payload(&encoded(&bytes)).unwrap(), bytes);
    }
}

#[test]
fn base64_length_limit() {
    assert!(base64_len_ok(0));
    assert!(base64_len_ok(1 << 20));
    assert!(!base64_len_ok(usize::MAX));
}

#[test]
fn decode_failure_message() {
    let e = decode_base64_payload("@@@@").unwrap_err();
    assert!(e.starts_with("Base64 decode failed: "), "{}", e);
}

#[test]
fn make_data_url_shape() {
    assert_eq!(make_data_url("image/png", b"Man"), "data:image/png;base64,TWFu");
}

#[test]
fn saved_payload_reads_after_first_comma() {
    assert_eq!(data_url_payload("data:image/x-icon;base64,TWFu").unwrap(), b"Man".to_vec());
    assert_eq!(data_url_payload("data:,TWE=").unwrap(), b"Ma".to_vec());
}

#[test]
fn saved_payload_errors() {
    assert_eq!(data_url_payload("image/png;base64,TWFu").unwrap_err(), "Invalid data URL format");
    assert_eq!(data_url_payload("data:image/png;base64").unwrap_err(), "Invalid data URL: no comma found");
    assert!(data_url_payload("data:image/png;base64,T").unwrap_err().starts_with("Base64 decode failed: "));
}

#[test]
fn png_payload_requires_png_prefix() {
    assert_eq!(png_data_url_payload("data:image/png;base64,TWFu").unwrap(), b"Man".to_vec());
    assert_eq!(png_data_url_payload("data:image/jpeg;base64,TWFu").unwrap_err(), "Invalid data URL format");
}

#[test]
fn data_url_roundtrip_law() {
    let bytes: Vec<u8> = (0u8..=255).collect();
    for mime in ["image/png", "image/jpeg", "image/x-icon", ""] {
        let url = make_data_url(mime, &bytes);
        assert_eq!(data_url_payload(&url).unwrap(), bytes);
    }
    let url = make_data_url("image/png", &bytes);
    assert_eq!(png_data_url_payload(&url).unwrap(), bytes);
}
