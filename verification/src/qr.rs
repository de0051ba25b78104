//! QR-code login: the login page's hidden fields, the QR image and the URL
//! it encodes, the status poll, and reading a field back out of that URL.
use vstd::prelude::*;
use crate::client::ClientError;
use crate::crypto::{b64, base64_encode};
use crate::html::{html_select, attr_lookup, element_attr, select, element_model};
use crate::json::{JsonValue, json_get, json_bool, opt_str};
use crate::login::AccountInfo;
use crate::text::{
    concat, push_str, string_of_str, str_chars, split_on, split_chars, starts_with,
    starts_with_chars,
};

verus! {

/// The state of a QR login (`uuid` and `enc` of the login page).
pub struct QrSession {
    pub uuid: String,
    pub enc: String,
}

/// The QR image, as a data URL, and the login URL it encodes.
pub struct QrStartResult {
    pub qr_image: String,
    pub qr_url: String,
}

/// One poll of a QR login: `pending` until confirmed, then `success` with
/// the account.
pub struct QrPollResult {
    pub state: String,
    pub detail: Option<String>,
    pub account: Option<AccountInfo>,
}

/// The `value` of the first `input#<id>` of the page.
pub open spec fn hidden_input(html: Seq<char>, id: Seq<char>) -> Option<Seq<char>> {
    match html_select(html, "input#"@ + id) {
        Some(es) => if es.len() > 0 {
            attr_lookup(es[0].attrs, "value"@)
        } else {
            None
        },
        None => None,
    }
}

/// `extract_hidden_input(html, id)`.
pub fn extract_hidden_input(html: &str, id: &str) -> (r: Option<String>)
    ensures
        match r {
            Some(v) => hidden_input(html@, id@) == Some(v@),
            None => hidden_input(html@, id@) is None,
        },
{
    let sel = concat("input#", id);
    match select(html, sel.as_str()) {
        Some(es) => if es.len() > 0 {
            proof {
                assert(crate::html::elements_model(es@)[0] == element_model(es@[0]));
            }
            element_attr(&es[0], "value")
        } else {
            None
        },
        None => None,
    }
}

/// What the login page yields: its `uuid` and `enc`, or which is missing.
pub open spec fn qr_page_outcome(html: Seq<char>, r: Result<QrSession, ClientError>) -> bool {
    match hidden_input(html, "uuid"@) {
        None => r matches Err(ClientError::Parse(m)) && m@ == "登录页缺少 uuid"@,
        Some(uuid) => match hidden_input(html, "enc"@) {
            None => r matches Err(ClientError::Parse(m)) && m@ == "登录页缺少 enc"@,
            Some(enc) => r matches Ok(s) && s.uuid@ == uuid && s.enc@ == enc,
        },
    }
}

/// `qr_get` after fetching the login page.
pub fn qr_session_from_page(html: &str) -> (r: Result<QrSession, ClientError>)
    ensures
        qr_page_outcome(html@, r),
{
    let uuid = match extract_hidden_input(html, "uuid") {
        Some(u) => u,
        None => return Err(ClientError::Parse(string_of_str("登录页缺少 uuid"))),
    };
    let enc = match extract_hidden_input(html, "enc") {
        Some(e) => e,
        None => return Err(ClientError::Parse(string_of_str("登录页缺少 enc"))),
    };
    Ok(QrSession { uuid, enc })
}

/// The login URL that the QR code encodes.
pub open spec fn qr_url_text(uuid: Seq<char>, enc: Seq<char>) -> Seq<char> {
    "https://passport2.chaoxing.com/toauthlogin?uuid="@ + uuid + "&enc="@ + enc
        + "&xxtrefer=&clientid=&mobiletip="@
}

/// The login URL for a session.
pub fn qr_url(session: &QrSession) -> (r: String)
    ensures
        r@ == qr_url_text(session.uuid@, session.enc@),
{
    let mut u = string_of_str("https://passport2.chaoxing.com/toauthlogin?uuid=");
    push_str(&mut u, session.uuid.as_str());
    push_str(&mut u, "&enc=");
    push_str(&mut u, session.enc.as_str());
    push_str(&mut u, "&xxtrefer=&clientid=&mobiletip=");
    u
}

/// What the QR image reply yields: an error for an empty image, otherwise
/// the image as a `data:` URL (type `image/png` when the reply names none)
/// and the login URL.
pub open spec fn qr_start_outcome(
    session: QrSession,
    content_type: Option<Seq<char>>,
    image: Seq<u8>,
    r: Result<QrStartResult, ClientError>,
) -> bool {
    if image.len() == 0 {
        r matches Err(ClientError::Api(m)) && m@ == "二维码图片为空"@
    } else {
        r matches Ok(res) && res.qr_url@ == qr_url_text(session.uuid@, session.enc@) && res.qr_image@
            == "data:"@ + (match content_type {
            Some(t) => t,
            None => "image/png"@,
        }) + ";base64,"@ + b64(image)
    }
}

/// `qr_get` after fetching the QR image.
pub fn qr_start_result(session: &QrSession, content_type: &Option<String>, image: &[u8]) -> (r: Result<
    QrStartResult,
    ClientError,
>)
    ensures
        qr_start_outcome(
            *session,
            match *content_type {
                Some(t) => Some(t@),
                None => None,
            },
            image@,
            r,
        ),
{
    if image.len() == 0 {
        return Err(ClientError::Api(string_of_str("二维码图片为空")));
    }
    let mut img = string_of_str("data:");
    match content_type {
        Some(t) => push_str(&mut img, t.as_str()),
        None => push_str(&mut img, "image/png"),
    }
    push_str(&mut img, ";base64,");
    push_str(&mut img, base64_encode(image).as_str());
    Ok(QrStartResult { qr_image: img, qr_url: qr_url(session) })
}

/// What a status poll reply says: confirmed when `status` is `true`, and
/// the `mes` text if any.
pub open spec fn qr_status_of(body: JsonValue) -> (bool, Option<Seq<char>>) {
    (
        match json_get(body, "status"@) {
            Some(v) => match json_bool(v) {
                Some(b) => b,
                None => false,
            },
            None => false,
        },
        opt_str(json_get(body, "mes"@)),
    )
}

/// `login_qr` after the poll request.
pub fn qr_status(body: &JsonValue) -> (r: (bool, Option<String>))
    ensures
        r.0 == qr_status_of(*body).0,
        match r.1 {
            Some(d) => qr_status_of(*body).1 == Some(d@),
            None => qr_status_of(*body).1 is None,
        },
{
    let ok = match body.get("status") {
        Some(v) => match v.as_bool() {
            Some(b) => b,
            None => false,
        },
        None => false,
    };
    let detail = match body.get("mes") {
        Some(v) => match v.as_str() {
            Some(s) => Some(s.clone()),
            None => None,
        },
        None => None,
    };
    (ok, detail)
}

/// The poll result while the phone has not confirmed.
pub fn qr_pending(detail: Option<String>) -> (r: QrPollResult)
    ensures
        r.state@ == "pending"@,
        r.detail == detail,
        r.account is None,
{
    QrPollResult { state: string_of_str("pending"), detail, account: None }
}

/// The poll result once confirmed.
pub fn qr_success(detail: Option<String>, account: AccountInfo) -> (r: QrPollResult)
    ensures
        r.state@ == "success"@,
        r.detail == detail,
        r.account == Some(account),
{
    QrPollResult { state: string_of_str("success"), detail, account: Some(account) }
}

/// The first piece that starts with `pre`, without that prefix.
pub open spec fn first_with_prefix(pieces: Seq<Seq<char>>, pre: Seq<char>) -> Option<Seq<char>>
    decreases pieces.len(),
{
    if pieces.len() == 0 {
        None
    } else if starts_with(pieces[0], pre) {
        Some(pieces[0].subrange(pre.len() as int, pieces[0].len() as int))
    } else {
        first_with_prefix(pieces.drop_first(), pre)
    }
}

/// `extract_qr_field(url, key)`: among the pieces of the URL between `?`
/// and `&`, the first that starts with `key=`, without it; empty if none.
pub open spec fn qr_field(url: Seq<char>, key: Seq<char>) -> Seq<char> {
    match first_with_prefix(split_on(url, seq!['?', '&']), key + seq!['=']) {
        Some(v) => v,
        None => Seq::empty(),
    }
}

/// `extract_qr_field`: pulls `uuid` or `enc` back out of a login URL.
pub fn extract_qr_field(url: &str, key: &str) -> (r: String)
    ensures
        r@ == qr_field(url@, key@),
{
    let v = str_chars(url);
    let seps: Vec<char> = vec!['?', '&'];
    assert(seps@ == seq!['?', '&']);
    let pieces = split_chars(&v, &seps);
    let mut pre = str_chars(key);
    pre.push('=');
    assert(pre@ == key@ + seq!['=']);
    let ghost all = split_on(url@, seq!['?', '&']);
    let mut i: usize = 0;
    assert(all.subrange(0, all.len() as int) == all);
    while i < pieces.len()
        invariant
            i <= pieces.len(),
            pieces@.len() == all.len(),
            all == split_on(url@, seq!['?', '&']),
            forall|j: int| 0 <= j < pieces@.len() ==> #[trigger] pieces@[j]@ == all[j],
            pre@ == key@ + seq!['='],
            first_with_prefix(all, pre@) == first_with_prefix(all.subrange(i as int, all.len() as int), pre@),
        decreases pieces.len() - i,
    {
        let ghost rest = all.subrange(i as int, all.len() as int);
        assert(rest.drop_first() == all.subrange(i + 1, all.len() as int));
        assert(rest[0] == pieces@[i as int]@);
        if starts_with_chars(&pieces[i], &pre) {
            let p = &pieces[i];
            let mut out = String::new();
            let mut k = pre.len();
            while k < p.len()
                invariant
                    pre.len() <= k <= p.len(),
                    out@ == p@.subrange(pre@.len() as int, k as int),
                decreases p.len() - k,
            {
                crate::text::string_push(&mut out, p[k]);
                k = k + 1;
                assert(p@.subrange(pre@.len() as int, k as int) == p@.subrange(pre@.len() as int, k - 1).push(p@[k - 1]));
            }
            return out;
        }
        i = i + 1;
    }
    String::new()
}


/// A text without `?` or `&`, which the login URL keeps as one piece.
pub open spec fn url_plain(s: Seq<char>) -> bool {
    forall|i: int| 0 <= i < s.len() ==> s[i] != '?' && s[i] != '&'
}

proof fn lemma_url_split_plain(s: Seq<char>)
    requires
        url_plain(s),
    ensures
        split_on(s, seq!['?', '&']) == seq![s],
    decreases s.len(),
{
    let seps = seq!['?', '&'];
    if s.len() > 0 {
        let d = s.drop_last();
        assert(url_plain(d)) by {
            assert forall|i: int| 0 <= i < d.len() implies d[i] != '?' && d[i] != '&' by {
                assert(d[i] == s[i]);
            }
        }
        lemma_url_split_plain(d);
        assert(s.last() == s[s.len() - 1]);
        assert(!seps.contains(s.last())) by {
            if seps.contains(s.last()) {
                let j = choose|j: int| 0 <= j < seps.len() && seps[j] == s.last();
                assert(j == 0 || j == 1);
            }
        }
        assert(d.push(s.last()) == s);
        assert(seq![d].update(0, d.push(s.last())) =~= seq![s]);
    } else {
        assert(s == Seq::<char>::empty());
    }
}

proof fn lemma_url_split_append(a: Seq<char>, c: char, b: Seq<char>)
    requires
        c == '?' || c == '&',
        url_plain(b),
    ensures
        split_on(a + seq![c] + b, seq!['?', '&']) == split_on(a, seq!['?', '&']).push(b),
    decreases b.len(),
{
    let seps = seq!['?', '&'];
    let s = a + seq![c] + b;
    assert(seps.contains(c)) by {
        if c == '?' {
            assert(seps[0] == c);
        } else {
            assert(seps[1] == c);
        }
    }
    if b.len() == 0 {
        assert(s == a + seq![c]);
        assert(s.drop_last() == a);
        assert(b == Seq::<char>::empty());
    } else {
        let b1 = b.drop_last();
        assert(url_plain(b1)) by {
            assert forall|i: int| 0 <= i < b1.len() implies b1[i] != '?' && b1[i] != '&' by {
                assert(b1[i] == b[i]);
            }
        }
        lemma_url_split_append(a, c, b1);
        assert(s.drop_last() == a + seq![c] + b1);
        assert(s.last() == b.last());
        assert(b.last() == b[b.len() - 1]);
        assert(!seps.contains(s.last())) by {
            if seps.contains(s.last()) {
                let j = choose|j: int| 0 <= j < seps.len() && seps[j] == s.last();
                assert(j == 0 || j == 1);
            }
        }
        let p = split_on(a, seps).push(b1);
        assert(p.last() == b1);
        assert(b1.push(b.last()) == b);
        assert(p.update(p.len() - 1, p.last().push(s.last())) =~= split_on(a, seps).push(b));
    }
}

/// Reading the login URL back gives the session it was made from: for a
/// `uuid` and an `enc` without `?` or `&`, `extract_qr_field` on the URL
/// of `qr_url` finds them again, and any other key without `=` that is not
/// one of the URL's own field names finds the empty text.
pub proof fn lemma_qr_url_fields(uuid: Seq<char>, enc: Seq<char>)
    requires
        url_plain(uuid),
        url_plain(enc),
    ensures
        qr_field(qr_url_text(uuid, enc), "uuid"@) == uuid,
        qr_field(qr_url_text(uuid, enc), "enc"@) == enc,
        forall|key: Seq<char>|
            !key.contains('=') && key != "uuid"@ && key != "enc"@ && key != "xxtrefer"@
                && key != "clientid"@ && key != "mobiletip"@ ==> #[trigger] qr_field(
                qr_url_text(uuid, enc),
                key,
            ) == Seq::<char>::empty(),
{
    reveal_strlit("https://passport2.chaoxing.com/toauthlogin?uuid=");
    reveal_strlit("&enc=");
    reveal_strlit("&xxtrefer=&clientid=&mobiletip=");
    reveal_strlit("uuid");
    reveal_strlit("enc");
    let l1 = "https://passport2.chaoxing.com/toauthlogin?uuid="@;
    let l2 = "&enc="@;
    let l3 = "&xxtrefer=&clientid=&mobiletip="@;
    assert(l1.len() == 48 && l2.len() == 5 && l3.len() == 31);
    let a0 = l1.subrange(0, 42);
    let a1 = l1.subrange(43, 48) + uuid;
    let a2 = l2.subrange(1, 5) + enc;
    let a3 = l3.subrange(1, 10);
    let a4 = l3.subrange(11, 20);
    let a5 = l3.subrange(21, 31);
    let url = qr_url_text(uuid, enc);
    assert(l1[42] == '?' && l2[0] == '&' && l3[0] == '&' && l3[10] == '&' && l3[20] == '&');
    assert(l1 =~= a0 + seq!['?'] + l1.subrange(43, 48));
    assert(l2 =~= seq!['&'] + l2.subrange(1, 5));
    assert(l3 =~= seq!['&'] + a3 + seq!['&'] + a4 + seq!['&'] + a5);
    let s1 = a0 + seq!['?'] + a1;
    let s2 = s1 + seq!['&'] + a2;
    let s3 = s2 + seq!['&'] + a3;
    let s4 = s3 + seq!['&'] + a4;
    let s5 = s4 + seq!['&'] + a5;
    assert(url =~= s5);
    assert(url_plain(a0));
    assert(url_plain(a1)) by {
        assert forall|i: int| 0 <= i < a1.len() implies a1[i] != '?' && a1[i] != '&' by {
            if i >= 5 {
                assert(a1[i] == uuid[i - 5]);
            }
        }
    }
    assert(url_plain(a2)) by {
        assert forall|i: int| 0 <= i < a2.len() implies a2[i] != '?' && a2[i] != '&' by {
            if i >= 4 {
                assert(a2[i] == enc[i - 4]);
            }
        }
    }
    assert(url_plain(a3));
    assert(url_plain(a4));
    assert(url_plain(a5));
    lemma_url_split_plain(a0);
    lemma_url_split_append(a0, '?', a1);
    lemma_url_split_append(s1, '&', a2);
    lemma_url_split_append(s2, '&', a3);
    lemma_url_split_append(s3, '&', a4);
    lemma_url_split_append(s4, '&', a5);
    let pieces = seq![a0, a1, a2, a3, a4, a5];
    assert(split_on(url, seq!['?', '&']) =~= pieces);
    let pu = "uuid"@ + seq!['='];
    let pe = "enc"@ + seq!['='];
    assert(!starts_with(a0, pu)) by {
        assert(a0[0] == 'h' && pu[0] == 'u');
        if starts_with(a0, pu) {
            assert(a0.subrange(0, pu.len() as int)[0] == a0[0]);
        }
    }
    assert(starts_with(a1, pu)) by {
        assert(a1.subrange(0, 5) =~= pu);
    }
    assert(pieces.drop_first() =~= seq![a1, a2, a3, a4, a5]);
    assert(a1.subrange(5, a1.len() as int) =~= uuid);
    assert(first_with_prefix(seq![a1, a2, a3, a4, a5], pu) == Some(uuid));
    assert(!starts_with(a0, pe)) by {
        assert(a0[0] == 'h' && pe[0] == 'e');
        if starts_with(a0, pe) {
            assert(a0.subrange(0, pe.len() as int)[0] == a0[0]);
        }
    }
    assert(!starts_with(a1, pe)) by {
        assert(a1[0] == 'u' && pe[0] == 'e');
        if starts_with(a1, pe) {
            assert(a1.subrange(0, pe.len() as int)[0] == a1[0]);
        }
    }
    assert(starts_with(a2, pe)) by {
        assert(a2.subrange(0, 4) =~= pe);
    }
    assert(seq![a1, a2, a3, a4, a5].drop_first() =~= seq![a2, a3, a4, a5]);
    assert(a2.subrange(4, a2.len() as int) =~= enc);
    assert(first_with_prefix(seq![a2, a3, a4, a5], pe) == Some(enc));
    assert(first_with_prefix(seq![a1, a2, a3, a4, a5], pe) == Some(enc));
    assert(first_with_prefix(pieces, pe) == Some(enc));
    reveal_strlit("xxtrefer");
    reveal_strlit("clientid");
    reveal_strlit("mobiletip");
    assert(a1 =~= "uuid"@ + seq!['='] + uuid);
    assert(a2 =~= "enc"@ + seq!['='] + enc);
    assert(a3 =~= "xxtrefer"@ + seq!['='] + Seq::<char>::empty());
    assert(a4 =~= "clientid"@ + seq!['='] + Seq::<char>::empty());
    assert(a5 =~= "mobiletip"@ + seq!['='] + Seq::<char>::empty());
    assert(!a0.contains('=')) by {
        assert forall|i: int| 0 <= i < a0.len() implies a0[i] != '=' by {
            assert(a0[i] == l1[i]);
        }
    }
    assert forall|key: Seq<char>|
        !key.contains('=') && key != "uuid"@ && key != "enc"@ && key != "xxtrefer"@
            && key != "clientid"@ && key != "mobiletip"@ implies #[trigger] qr_field(
            url,
            key,
        ) == Seq::<char>::empty() by {
        let pk = key + seq!['='];
        lemma_plain_piece(a0, key);
        if starts_with(a1, pk) {
            lemma_named_piece("uuid"@, uuid, key);
        }
        if starts_with(a2, pk) {
            lemma_named_piece("enc"@, enc, key);
        }
        if starts_with(a3, pk) {
            lemma_named_piece("xxtrefer"@, Seq::<char>::empty(), key);
        }
        if starts_with(a4, pk) {
            lemma_named_piece("clientid"@, Seq::<char>::empty(), key);
        }
        if starts_with(a5, pk) {
            lemma_named_piece("mobiletip"@, Seq::<char>::empty(), key);
        }
        assert forall|j: int| 0 <= j < pieces.len() implies !starts_with(#[trigger] pieces[j], pk) by {
            if j == 0 {
            } else if j == 1 {
            } else if j == 2 {
            } else if j == 3 {
            } else if j == 4 {
            } else {
            }
        }
        lemma_no_prefix(pieces, pk);
    }
}

/// When no piece starts with `pre`, no field is found.
proof fn lemma_no_prefix(pieces: Seq<Seq<char>>, pre: Seq<char>)
    requires
        forall|j: int| 0 <= j < pieces.len() ==> !starts_with(#[trigger] pieces[j], pre),
    ensures
        first_with_prefix(pieces, pre) is None,
    decreases pieces.len(),
{
    if pieces.len() > 0 {
        let rest = pieces.drop_first();
        assert forall|j: int| 0 <= j < rest.len() implies !starts_with(#[trigger] rest[j], pre) by {
            assert(rest[j] == pieces[j + 1]);
        }
        lemma_no_prefix(rest, pre);
    }
}

/// A piece `name=rest`, with no `=` in `name`, starts with `key=` (no `=`
/// in `key`) only when `key` is `name`.
proof fn lemma_named_piece(name: Seq<char>, rest: Seq<char>, key: Seq<char>)
    requires
        !name.contains('='),
        !key.contains('='),
        starts_with(name + seq!['='] + rest, key + seq!['=']),
    ensures
        key == name,
{
    let p = name + seq!['='] + rest;
    let pk = key + seq!['='];
    let n = key.len() as int;
    let m = name.len() as int;
    assert(p.subrange(0, n + 1) == pk);
    assert(p[n] == '=') by {
        assert(p.subrange(0, n + 1)[n] == p[n]);
    }
    if n < m {
        assert(p[n] == name[n]);
        assert(name.contains(name[n]));
    } else if n > m {
        assert(p[m] == '=');
        assert(p.subrange(0, n + 1)[m] == p[m]);
        assert(pk[m] == key[m]);
        assert(key.contains(key[m]));
    } else {
        assert forall|i: int| 0 <= i < n implies key[i] == name[i] by {
            assert(p.subrange(0, n + 1)[i] == p[i]);
            assert(pk[i] == key[i]);
            assert(p[i] == name[i]);
        }
        assert(key =~= name);
    }
}

/// A piece with no `=` never starts with `key=`.
proof fn lemma_plain_piece(p: Seq<char>, key: Seq<char>)
    requires
        !p.contains('='),
    ensures
        !starts_with(p, key + seq!['=']),
{
    if starts_with(p, key + seq!['=']) {
        let n = key.len() as int;
        assert(p.subrange(0, n + 1)[n] == p[n]);
        assert((key + seq!['='])[n] == '=');
        assert(p.contains(p[n]));
    }
}
} // verus!
