//! MD5 signatures: the `inf_enc` request signature and the video progress
//! `enc` value.
use vstd::prelude::*;
use vstd::string::StringSliceAdditionalSpecFns;
use crate::text::{push_str, string_push, i64_to_string, int_dec};
use crate::urlenc::{url_encode, EncodeStyle, urlencoding_form};

verus! {

/// The MD5 digest of a byte string, as the `md-5` crate computes it.
pub uninterp spec fn md5_of(data: Seq<u8>) -> Seq<u8>;

/// `Md5::new()`, `update(data)`, `finalize()`: the 16-byte MD5 digest.
#[verifier::external_body]
fn md5_digest(data: &[u8]) -> (r: Vec<u8>)
    ensures
        r@ == md5_of(data@),
        r@.len() == 16,
{
    md5::Digest::finalize(<md5::Md5 as md5::Digest>::new_with_prefix(data)).to_vec()
}

/// Lower-case hexadecimal digit.
pub open spec fn hex_digit(d: nat) -> char
    recommends
        d < 16,
{
    if d < 10 {
        (48 + d) as char
    } else {
        (87 + d) as char
    }
}

/// `format!("{:x}", digest)`: two lower-case hex digits per byte.
pub open spec fn hex_lower_bytes(bs: Seq<u8>) -> Seq<char>
    decreases bs.len(),
{
    if bs.len() == 0 {
        Seq::empty()
    } else {
        hex_lower_bytes(bs.drop_last()) + seq![
            hex_digit((bs.last() / 16) as nat),
            hex_digit((bs.last() % 16) as nat),
        ]
    }
}

/// The lower-case hex MD5 of a text's UTF-8 bytes.
pub open spec fn md5_hex(s: Seq<char>) -> Seq<char> {
    hex_lower_bytes(md5_of(vstd::utf8::encode_utf8(s)))
}

fn hex_digit_exec(d: u8) -> (c: char)
    requires
        d < 16,
    ensures
        c == hex_digit(d as nat),
{
    if d < 10 {
        ((48 + d) as u8) as char
    } else {
        ((87 + d) as u8) as char
    }
}

/// Lower-case hex of a byte string.
pub fn hex_lower(bs: &Vec<u8>) -> (r: String)
    ensures
        r@ == hex_lower_bytes(bs@),
{
    let mut out = String::new();
    let mut i: usize = 0;
    while i < bs.len()
        invariant
            i <= bs.len(),
            out@ == hex_lower_bytes(bs@.subrange(0, i as int)),
        decreases bs.len() - i,
    {
        let b = bs[i];
        assert(bs@.subrange(0, i + 1).drop_last() == bs@.subrange(0, i as int));
        string_push(&mut out, hex_digit_exec(b / 16));
        string_push(&mut out, hex_digit_exec(b % 16));
        i = i + 1;
    }
    assert(bs@.subrange(0, bs.len() as int) == bs@);
    out
}

/// The lower-case hex MD5 of a text.
pub fn md5_hex_of(s: &str) -> (r: String)
    ensures
        r@ == md5_hex(s@),
{
    let d = md5_digest(s.as_bytes());
    hex_lower(&d)
}

/// The signed part of a parameter list: `k=v` pairs with form-encoded
/// values, joined by `&`, in list order.
pub open spec fn query_of(params: Seq<(String, String)>) -> Seq<char>
    decreases params.len(),
{
    if params.len() == 0 {
        Seq::empty()
    } else if params.len() == 1 {
        params[0].0@ + seq!['='] + url_encode(params[0].1@, EncodeStyle::Form)
    } else {
        query_of(params.drop_last()) + seq!['&'] + params.last().0@ + seq!['='] + url_encode(
            params.last().1@,
            EncodeStyle::Form,
        )
    }
}

/// The `inf_enc` signature of a parameter list.
pub open spec fn inf_enc_of(params: Seq<(String, String)>) -> Seq<char> {
    md5_hex(query_of(params) + "&DESKey=Z(AfY@XS"@)
}

/// `inf_enc_sign`: appends `("inf_enc", md5(query + "&DESKey=..."))` to the
/// parameters, leaving the existing ones as they are.
pub fn inf_enc_sign(params: &mut Vec<(String, String)>)
    ensures
        final(params)@.len() == old(params)@.len() + 1,
        final(params)@.subrange(0, old(params)@.len() as int) == old(params)@,
        final(params)@.last().0@ == "inf_enc"@,
        final(params)@.last().1@ == inf_enc_of(old(params)@),
{
    let mut q = String::new();
    let mut i: usize = 0;
    while i < params.len()
        invariant
            i <= params.len(),
            params@ == old(params)@,
            q@ == query_of(params@.subrange(0, i as int)),
        decreases params.len() - i,
    {
        let ghost pre = params@.subrange(0, i as int);
        let ghost next = params@.subrange(0, i + 1);
        assert(next.drop_last() == pre);
        if i > 0 {
            string_push(&mut q, '&');
        }
        push_str(&mut q, params[i].0.as_str());
        string_push(&mut q, '=');
        let v = urlencoding_form(params[i].1.as_str());
        push_str(&mut q, v.as_str());
        if i == 0 {
            assert(pre.len() == 0);
            assert(q@ == Seq::<char>::empty() + params@[0].0@ + seq!['='] + url_encode(
                params@[0].1@,
                EncodeStyle::Form,
            ));
        }
        i = i + 1;
    }
    assert(params@.subrange(0, params.len() as int) == params@);
    push_str(&mut q, "&DESKey=Z(AfY@XS");
    let sig = md5_hex_of(q.as_str());
    params.push((crate::text::string_of_str("inf_enc"), sig));
}

/// The text that the video `enc` hashes.
pub open spec fn video_enc_text(
    class_id: int,
    puid: int,
    job_id: Seq<char>,
    object_id: Seq<char>,
    playing_time: int,
    duration: int,
) -> Seq<char> {
    "["@ + int_dec(class_id) + "]["@ + int_dec(puid) + "]["@ + job_id + "]["@ + object_id
        + "]["@ + int_dec(playing_time * 1000) + "][d_yHJ!$pdA~5]["@ + int_dec(duration * 1000)
        + "][0_"@ + int_dec(duration) + "]"@
}

/// `video_enc`: the MD5 of
/// `[class][puid][job][object][playing*1000][salt][duration*1000][0_duration]`.
pub fn video_enc(
    class_id: i64,
    puid: i64,
    job_id: &str,
    object_id: &str,
    playing_time: i64,
    duration: i64,
) -> (r: String)
    requires
        i64::MIN <= playing_time * 1000 <= i64::MAX,
        i64::MIN <= duration * 1000 <= i64::MAX,
    ensures
        r@ == md5_hex(
            video_enc_text(
                class_id as int,
                puid as int,
                job_id@,
                object_id@,
                playing_time as int,
                duration as int,
            ),
        ),
{
    let mut raw = String::new();
    push_str(&mut raw, "[");
    assert(raw@ == "["@);
    push_str(&mut raw, i64_to_string(class_id).as_str());
    push_str(&mut raw, "][");
    push_str(&mut raw, i64_to_string(puid).as_str());
    push_str(&mut raw, "][");
    push_str(&mut raw, job_id);
    push_str(&mut raw, "][");
    push_str(&mut raw, object_id);
    push_str(&mut raw, "][");
    push_str(&mut raw, i64_to_string(playing_time * 1000).as_str());
    push_str(&mut raw, "][d_yHJ!$pdA~5][");
    push_str(&mut raw, i64_to_string(duration * 1000).as_str());
    push_str(&mut raw, "][0_");
    push_str(&mut raw, i64_to_string(duration).as_str());
    push_str(&mut raw, "]");
    md5_hex_of(raw.as_str())
}

} // verus!
