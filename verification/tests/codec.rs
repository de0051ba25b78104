use cxkitty::crypto::aes_encrypt_b64;
use cxkitty::digest::{hex_lower, inf_enc_sign, md5_hex_of, video_enc};
use cxkitty::urlenc::{encode_value_cx, urlencoding_encode, urlencoding_form};

#[test]
fn form_encoding_keeps_unreserved_and_plus_for_space() {
    assert_eq!(urlencoding_form("aZ09-_.~"), "aZ09-_.~");
    assert_eq!(urlencoding_form("a b"), "a+b");
    assert_eq!(urlencoding_form("a&b=c"), "a%26b%3Dc");
    assert_eq!(urlencoding_form("中"), "%E4%B8%AD");
    assert_eq!(urlencoding_form(""), "");
}

#[test]
fn strict_encoding_escapes_space() {
    assert_eq!(urlencoding_encode("a b"), "a%20b");
    assert_eq!(urlencoding_encode("https://x.com/?a=1&b=2"), "https%3A%2F%2Fx.com%2F%3Fa%3D1%26b%3D2");
    assert_eq!(urlencoding_encode("~._-"), "~._-");
}

#[test]
fn cx_encoding_keeps_amp_and_eq() {
    assert_eq!(encode_value_cx("a=1&b=2 c"), "a=1&b=2+c");
    assert_eq!(encode_value_cx("/?"), "%2F%3F");
}

#[test]
fn md5_hex_matches_known_digests() {
    assert_eq!(md5_hex_of(""), "d41d8cd98f00b204e9800998ecf8427e");
    assert_eq!(md5_hex_of("abc"), "900150983cd24fb0d6963f7d28e17f72");
}

#[test]
fn hex_lower_of_bytes() {
    assert_eq!(hex_lower(&vec![0u8, 15, 16, 255]), "000f10ff");
    assert_eq!(hex_lower(&vec![]), "");
}

#[test]
fn inf_enc_sign_appends_signature() {
    let mut ps = vec![("id".to_string(), "1".to_string()), ("name".to_string(), "a b".to_string())];
    inf_enc_sign(&mut ps);
    assert_eq!(ps.len(), 3);
    assert_eq!(ps[0], ("id".to_string(), "1".to_string()));
    assert_eq!(ps[1], ("name".to_string(), "a b".to_string()));
    assert_eq!(ps[2].0, "inf_enc");
    assert_eq!(ps[2].1, "f245d3532c543f46c27b6a352f9b22fe");
}

#[test]
fn video_enc_matches_known_digest() {
    assert_eq!(video_enc(123, 456, "job1", "obj1", 30, 600), "19a3b13efe95e4f8c409c7ed5387e34b");
}

#[test]
fn aes_login_cipher_matches_known_vectors() {
    assert_eq!(aes_encrypt_b64("13800138000"), "yYcVatS+4J+JGnm88UM56A==");
    assert_eq!(aes_encrypt_b64(""), "LXYPGIOJyFUvuG1SPO0nVQ==");
}
