//! Percent-encoding of request values, byte by byte over their UTF-8 form.
use vstd::prelude::*;
use vstd::string::StringSliceAdditionalSpecFns;
use crate::text::string_push;

verus! {

/// How a percent-encoder treats the bytes that are not plain ASCII
/// alphanumerics or `-_.~`.
pub enum EncodeStyle {
    /// Space becomes `+`; every other byte `%XX` (form values).
    Form,
    /// Every other byte becomes `%XX`, space included.
    Strict,
    /// `&` and `=` stay as they are, space becomes `+`, every other byte
    /// `%XX` (the video report query).
    KeepAmpEq,
}

/// Upper-case hexadecimal digit.
pub open spec fn hex_upper(d: nat) -> char
    recommends
        d < 16,
{
    if d < 10 {
        (48 + d) as char
    } else {
        (55 + d) as char
    }
}

/// ASCII letters, digits and `-_.~`.
pub open spec fn is_unreserved(b: u8) -> bool {
    (65 <= b <= 90) || (97 <= b <= 122) || (48 <= b <= 57) || b == 45 || b == 95 || b == 46
        || b == 126
}

/// The encoding of one byte.
pub open spec fn encode_byte(b: u8, style: EncodeStyle) -> Seq<char> {
    if is_unreserved(b) {
        seq![b as char]
    } else if style is KeepAmpEq && (b == 38 || b == 61) {
        seq![b as char]
    } else if b == 32 && !(style is Strict) {
        seq!['+']
    } else {
        seq!['%', hex_upper((b / 16) as nat), hex_upper((b % 16) as nat)]
    }
}

/// The encoding of a byte string.
pub open spec fn encode_bytes(bs: Seq<u8>, style: EncodeStyle) -> Seq<char>
    decreases bs.len(),
{
    if bs.len() == 0 {
        Seq::empty()
    } else {
        encode_bytes(bs.drop_last(), style) + encode_byte(bs.last(), style)
    }
}

/// The encoding of a text, over its UTF-8 bytes.
pub open spec fn url_encode(s: Seq<char>, style: EncodeStyle) -> Seq<char> {
    encode_bytes(vstd::utf8::encode_utf8(s), style)
}

fn hex_upper_exec(d: u8) -> (c: char)
    requires
        d < 16,
    ensures
        c == hex_upper(d as nat),
{
    if d < 10 {
        ((48 + d) as u8) as char
    } else {
        ((55 + d) as u8) as char
    }
}

/// Percent-encodes `s` in the given style.
pub fn encode(s: &str, style: EncodeStyle) -> (r: String)
    ensures
        r@ == url_encode(s@, style),
{
    let bytes = s.as_bytes();
    let mut out = String::new();
    let mut i: usize = 0;
    while i < bytes.len()
        invariant
            i <= bytes@.len(),
            bytes@ == s.spec_bytes(),
            out@ == encode_bytes(bytes@.subrange(0, i as int), style),
        decreases bytes@.len() - i,
    {
        let b = bytes[i];
        let ghost pre = bytes@.subrange(0, i as int);
        assert(bytes@.subrange(0, i + 1).drop_last() == pre);
        assert(bytes@.subrange(0, i + 1).last() == b);
        let unres = (65 <= b && b <= 90) || (97 <= b && b <= 122) || (48 <= b && b <= 57) || b
            == 45 || b == 95 || b == 46 || b == 126;
        let keep = match style {
            EncodeStyle::KeepAmpEq => b == 38 || b == 61,
            _ => false,
        };
        let plus = match style {
            EncodeStyle::Strict => false,
            _ => b == 32,
        };
        if unres || keep {
            string_push(&mut out, b as char);
        } else if plus {
            string_push(&mut out, '+');
        } else {
            string_push(&mut out, '%');
            string_push(&mut out, hex_upper_exec(b / 16));
            string_push(&mut out, hex_upper_exec(b % 16));
        }
        assert(out@ == encode_bytes(pre, style) + encode_byte(b, style));
        i = i + 1;
    }
    assert(bytes@.subrange(0, bytes@.len() as int) == bytes@);
    out
}

/// `urlencoding_form`: the form encoding of a query value.
pub fn urlencoding_form(s: &str) -> (r: String)
    ensures
        r@ == url_encode(s@, EncodeStyle::Form),
{
    encode(s, EncodeStyle::Form)
}

/// `urlencoding_encode`: the strict encoding used for the `refer` value.
pub fn urlencoding_encode(s: &str) -> (r: String)
    ensures
        r@ == url_encode(s@, EncodeStyle::Strict),
{
    encode(s, EncodeStyle::Strict)
}

/// `encode_value_cx`: like the form encoding but keeping `&` and `=`.
pub fn encode_value_cx(s: &str) -> (r: String)
    ensures
        r@ == url_encode(s@, EncodeStyle::KeepAmpEq),
{
    encode(s, EncodeStyle::KeepAmpEq)
}


/// Whether a text holds neither `&` nor `=`.
pub open spec fn no_query_separator(s: Seq<char>) -> bool {
    forall|i: int| 0 <= i < s.len() ==> s[i] != '&' && s[i] != '='
}

proof fn lemma_byte_no_separator(b: u8, style: EncodeStyle)
    requires
        !(style is KeepAmpEq),
    ensures
        no_query_separator(encode_byte(b, style)),
{
    let e = encode_byte(b, style);
    if is_unreserved(b) {
        assert(e == seq![b as char]);
        assert(b != 38 && b != 61);
        assert((b as char) != '&' && (b as char) != '=');
    } else if b == 32 && !(style is Strict) {
    } else {
        let hi = (b / 16) as nat;
        let lo = (b % 16) as nat;
        assert(hi < 16 && lo < 16);
        assert(e[1] == hex_upper(hi) && e[2] == hex_upper(lo));
    }
}

/// An encoded form or strict value cannot end a query pair early: it holds
/// neither `&` nor `=`, whatever the text was.
pub proof fn lemma_encoded_value_keeps_pairs(s: Seq<char>, style: EncodeStyle)
    requires
        !(style is KeepAmpEq),
    ensures
        no_query_separator(url_encode(s, style)),
{
    lemma_bytes_no_separator(vstd::utf8::encode_utf8(s), style);
}

proof fn lemma_bytes_no_separator(bs: Seq<u8>, style: EncodeStyle)
    requires
        !(style is KeepAmpEq),
    ensures
        no_query_separator(encode_bytes(bs, style)),
    decreases bs.len(),
{
    if bs.len() > 0 {
        lemma_bytes_no_separator(bs.drop_last(), style);
        lemma_byte_no_separator(bs.last(), style);
        let a = encode_bytes(bs.drop_last(), style);
        let b = encode_byte(bs.last(), style);
        assert forall|i: int| 0 <= i < (a + b).len() implies (a + b)[i] != '&' && (a + b)[i] != '=' by {
            if i < a.len() {
                assert((a + b)[i] == a[i]);
            } else {
                assert((a + b)[i] == b[i - a.len()]);
            }
        }
    }
}
} // verus!
