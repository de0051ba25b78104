//! Password-field encryption for the web login: AES-128-CBC with PKCS#7
//! padding, then standard Base64.
use vstd::prelude::*;
use vstd::string::StringSliceAdditionalSpecFns;

verus! {

/// The AES-128-CBC encryption with PKCS#7 padding of `plain` under `key`
/// and `iv`, as the `aes` and `cbc` crates compute it.
pub uninterp spec fn aes128_cbc_pkcs7(key: Seq<u8>, iv: Seq<u8>, plain: Seq<u8>) -> Seq<u8>;

/// `cbc::Encryptor::<Aes128>::new(key, iv).encrypt_padded_vec_mut::<Pkcs7>(plain)`.
/// PKCS#7 always appends 1 to 16 bytes, so the ciphertext is the next
/// multiple of 16 above the plaintext length.
#[verifier::external_body]
fn aes_cbc_encrypt(key: &[u8], iv: &[u8], plain: &[u8]) -> (r: Vec<u8>)
    requires
        key@.len() == 16,
        iv@.len() == 16,
    ensures
        r@ == aes128_cbc_pkcs7(key@, iv@, plain@),
        r@.len() == 16 * (plain@.len() / 16 + 1),
{
    let enc = <cbc::Encryptor<aes::Aes128> as cbc::cipher::KeyIvInit>::new(key.into(), iv.into());
    cbc::cipher::BlockEncryptMut::encrypt_padded_vec_mut::<cbc::cipher::block_padding::Pkcs7>(enc, plain)
}

/// The standard Base64 alphabet.
pub open spec fn b64_char(n: nat) -> char
    recommends
        n < 64,
{
    if n < 26 {
        (65 + n) as char
    } else if n < 52 {
        (71 + n) as char
    } else if n < 62 {
        (n - 4) as char
    } else if n == 62 {
        '+'
    } else {
        '/'
    }
}

/// Standard Base64 with `=` padding (RFC 4648, section 4).
pub open spec fn b64(bs: Seq<u8>) -> Seq<char>
    decreases bs.len(),
{
    if bs.len() == 0 {
        Seq::empty()
    } else if bs.len() == 1 {
        seq![b64_char((bs[0] / 4) as nat), b64_char(((bs[0] % 4) * 16) as nat), '=', '=']
    } else if bs.len() == 2 {
        seq![
            b64_char((bs[0] / 4) as nat),
            b64_char(((bs[0] % 4) * 16 + bs[1] / 16) as nat),
            b64_char(((bs[1] % 16) * 4) as nat),
            '=',
        ]
    } else {
        seq![
            b64_char((bs[0] / 4) as nat),
            b64_char(((bs[0] % 4) * 16 + bs[1] / 16) as nat),
            b64_char(((bs[1] % 16) * 4 + bs[2] / 64) as nat),
            b64_char((bs[2] % 64) as nat),
        ] + b64(bs.subrange(3, bs.len() as int))
    }
}

/// `base64::engine::general_purpose::STANDARD.encode(data)`.
#[verifier::external_body]
pub(crate) fn base64_encode(data: &[u8]) -> (r: String)
    ensures
        r@ == b64(data@),
{
    base64::Engine::encode(&base64::engine::general_purpose::STANDARD, data)
}

/// The key, also used as the IV, of the login field encryption.
pub open spec fn login_key() -> Seq<u8> {
    seq![117u8, 50, 111, 104, 54, 86, 117, 94, 72, 87, 101, 52, 95, 65, 69, 83]
}

fn login_key_bytes() -> (r: Vec<u8>)
    ensures
        r@ == login_key(),
{
    let r: Vec<u8> = vec![117u8, 50, 111, 104, 54, 86, 117, 94, 72, 87, 101, 52, 95, 65, 69, 83];
    assert(r@ == login_key());
    r
}

/// The encrypted form of a login field.
pub open spec fn login_cipher_text(plain: Seq<char>) -> Seq<char> {
    b64(aes128_cbc_pkcs7(login_key(), login_key(), vstd::utf8::encode_utf8(plain)))
}

/// `aes_encrypt_b64`: AES-128-CBC (key and IV `u2oh6Vu^HWe4_AES`, PKCS#7)
/// of the UTF-8 text, in Base64.
pub fn aes_encrypt_b64(plain: &str) -> (r: String)
    ensures
        r@ == login_cipher_text(plain@),
{
    let key = login_key_bytes();
    let ct = aes_cbc_encrypt(key.as_slice(), key.as_slice(), plain.as_bytes());
    base64_encode(ct.as_slice())
}

} // verus!
