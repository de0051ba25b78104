//! Client-wide items: the error type, the desktop user agent, and the
//! randomised mobile user agent that the HTTP session presents.
use vstd::prelude::*;
use crate::text::{push_str, string_push, u64_to_string, nat_dec};

verus! {

/// Desktop browser user agent used for the web endpoints.
pub const UA_WEB: &'static str = "Mozilla/5.0 (Windows NT 10.0; Win64; x64) AppleWebKit/537.36 (KHTML, like Gecko) Chrome/107.0.0.0 Safari/537.36 Edg/107.0.1418.35";

/// What can go wrong when talking to the platform. `Http` carries the text of
/// the transport error.
#[derive(Debug)]
pub enum ClientError {
    Http(String),
    Api(String),
    Parse(String),
}

/// The text that the error displays.
pub open spec fn error_text(e: ClientError) -> Seq<char> {
    match e {
        ClientError::Http(s) => "HTTP error: "@ + s@,
        ClientError::Api(s) => "API error: "@ + s@,
        ClientError::Parse(s) => "parse error: "@ + s@,
    }
}

impl ClientError {
    /// The error's display text, `e.to_string()`.
    pub fn message(&self) -> (r: String)
        ensures
            r@ == error_text(*self),
    {
        let mut out = String::new();
        match self {
            ClientError::Http(s) => {
                push_str(&mut out, "HTTP error: ");
                push_str(&mut out, s.as_str());
            },
            ClientError::Api(s) => {
                push_str(&mut out, "API error: ");
                push_str(&mut out, s.as_str());
            },
            ClientError::Parse(s) => {
                push_str(&mut out, "parse error: ");
                push_str(&mut out, s.as_str());
            },
        }
        out
    }

    /// A copy of the error.
    pub fn copy(&self) -> (r: ClientError)
        ensures
            r == *self,
    {
        match self {
            ClientError::Http(s) => ClientError::Http(s.clone()),
            ClientError::Api(s) => ClientError::Api(s.clone()),
            ClientError::Parse(s) => ClientError::Parse(s.clone()),
        }
    }
}

/// `ChaoxingClient::web_ua`.
pub fn web_ua() -> (r: &'static str)
    ensures
        r@ == UA_WEB@,
{
    UA_WEB
}

/// Whether `c` is a lower-case hexadecimal digit.
pub open spec fn is_hex_lower(c: char) -> bool {
    ('0' <= c <= '9') || ('a' <= c <= 'f')
}

/// The mobile user agent for the given Android version, device number and
/// 32-character device id.
pub open spec fn mobile_ua_text(android: nat, mi: nat, imei: Seq<char>) -> Seq<char> {
    "Dalvik/2.1.0 (Linux; U; Android "@ + nat_dec(android) + "; MI"@ + nat_dec(mi)
        + " Build/SKQ1.210216.001) (device:MI"@ + nat_dec(mi)
        + ") Language/zh_CN com.chaoxing.mobile/ChaoXingStudy_3_5.1.4_android_phone_614_74 (@Kalimdor)_"@
        + imei
}

/// Whether `s` is one of the user agents that `random_mobile_ua` can produce.
pub open spec fn is_mobile_ua(s: Seq<char>) -> bool {
    exists|android: nat, mi: nat, imei: Seq<char>|
        #![trigger mobile_ua_text(android, mi, imei)]
        9 <= android <= 12 && 10 <= mi <= 12 && imei.len() == 32 && (forall|i: int|
            0 <= i < 32 ==> is_hex_lower(#[trigger] imei[i]))
            && s == mobile_ua_text(android, mi, imei)
}

/// `rng.gen_range(lo..=hi)` on the thread-local generator.
#[verifier::external_body]
fn random_in(lo: u32, hi: u32) -> (r: u32)
    requires
        lo <= hi,
    ensures
        lo <= r <= hi,
{
    rand::Rng::gen_range(&mut rand::thread_rng(), lo..=hi)
}

/// Builds the mobile user agent from its parts.
pub fn mobile_ua(android: u32, mi: u32, imei: &str) -> (r: String)
    ensures
        r@ == mobile_ua_text(android as nat, mi as nat, imei@),
{
    let mut s = String::new();
    push_str(&mut s, "Dalvik/2.1.0 (Linux; U; Android ");
    let a = u64_to_string(android as u64);
    push_str(&mut s, a.as_str());
    push_str(&mut s, "; MI");
    let m = u64_to_string(mi as u64);
    push_str(&mut s, m.as_str());
    push_str(&mut s, " Build/SKQ1.210216.001) (device:MI");
    push_str(&mut s, m.as_str());
    push_str(
        &mut s,
        ") Language/zh_CN com.chaoxing.mobile/ChaoXingStudy_3_5.1.4_android_phone_614_74 (@Kalimdor)_",
    );
    push_str(&mut s, imei);
    s
}

/// A freshly randomised mobile user agent: Android 9 to 12, device MI10 to
/// MI12, and a 32-digit hexadecimal device id.
pub fn random_mobile_ua() -> (r: String)
    ensures
        is_mobile_ua(r@),
{
    let android = random_in(9, 12);
    let mi = random_in(10, 12);
    let mut imei = String::new();
    let mut i: usize = 0;
    while i < 32
        invariant
            i <= 32,
            imei@.len() == i,
            forall|j: int| 0 <= j < i ==> is_hex_lower(#[trigger] imei@[j]),
        decreases 32 - i,
    {
        let d = random_in(0, 15);
        let c = if d < 10 {
            ((48 + d) as u8) as char
        } else {
            ((87 + d) as u8) as char
        };
        assert(is_hex_lower(c));
        string_push(&mut imei, c);
        i = i + 1;
    }
    let r = mobile_ua(android, mi, imei.as_str());
    assert(is_mobile_ua(r@)) by {
        assert(9 <= android as nat <= 12 && 10 <= mi as nat <= 12 && imei@.len() == 32);
        assert(r@ == mobile_ua_text(android as nat, mi as nat, imei@));
    }
    r
}

} // verus!
