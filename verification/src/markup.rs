//! Scanning of the card descriptions for embedded `<iframe>` task points:
//! attribute extraction and entity unescaping.
use vstd::prelude::*;
use crate::text::{find, find_from, replace_all, replace_all_chars, str_chars, string_of_chars};

verus! {

/// A task-point `<iframe>`: its `module` attribute and its unescaped `data`.
pub struct IframeCap {
    pub module: String,
    pub data: String,
}

/// The text content of a capture list.
pub open spec fn caps_view(v: Seq<IframeCap>) -> Seq<(Seq<char>, Seq<char>)> {
    v.map_values(|c: IframeCap| (c.module@, c.data@))
}

/// The value of `name="..."` (or, failing that, `name='...'`) in a tag: the
/// first occurrence of the opening pattern, up to the next matching quote.
pub open spec fn attr_with(tag: Seq<char>, pat: Seq<char>, quote: char) -> Option<Seq<char>> {
    match find(tag, pat) {
        Some(pos) => {
            let rest = tag.subrange(pos + pat.len(), tag.len() as int);
            match find(rest, seq![quote]) {
                Some(e) => Some(rest.subrange(0, e)),
                None => None,
            }
        },
        None => None,
    }
}

/// The value of attribute `name` in a tag: `name="..."`, else `name='...'`.
pub open spec fn tag_attr(tag: Seq<char>, name: Seq<char>) -> Option<Seq<char>> {
    match attr_with(tag, name + seq!['=', '"'], '"') {
        Some(v) => Some(v),
        None => attr_with(tag, name + seq!['=', '\''], '\''),
    }
}

/// The entity unescaping applied to `data` attributes.
pub open spec fn unescaped(s: Seq<char>) -> Seq<char> {
    replace_all(
        replace_all(
            replace_all(
                replace_all(replace_all(s, "&quot;"@, seq!['"']), "&#34;"@, seq!['"']),
                "&amp;"@,
                seq!['&'],
            ),
            "&lt;"@,
            seq!['<'],
        ),
        "&gt;"@,
        seq!['>'],
    )
}

/// `v.unwrap_or_default()` for optional text.
pub open spec fn or_empty(v: Option<Seq<char>>) -> Seq<char> {
    match v {
        Some(s) => s,
        None => Seq::empty(),
    }
}

/// The capture of one tag: present when both `module` and `data` are
/// non-empty.
pub open spec fn tag_cap(tag: Seq<char>) -> Option<(Seq<char>, Seq<char>)> {
    let module = or_empty(tag_attr(tag, "module"@));
    let data = or_empty(tag_attr(tag, "data"@));
    if module.len() > 0 && data.len() > 0 {
        Some((module, unescaped(data)))
    } else {
        None
    }
}

pub proof fn lemma_find_bounds(s: Seq<char>, pat: Seq<char>)
    ensures
        find(s, pat) matches Some(k) ==> 0 <= k && k + pat.len() <= s.len(),
    decreases s.len(),
{
    if s.len() > 0 {
        lemma_find_bounds(s.drop_first(), pat);
    }
}

/// Every `<iframe` tag of the text, in order: the tag runs to the next `>`
/// (or the end of the text), and scanning resumes after that `>`.
pub open spec fn iframes(s: Seq<char>) -> Seq<(Seq<char>, Seq<char>)>
    decreases s.len(),
{
    match find(s, "<iframe"@) {
        None => Seq::empty(),
        Some(st) => {
            proof {
                lemma_find_bounds(s, "<iframe"@);
            }
            let after = s.subrange(st, s.len() as int);
            let end = match find(after, seq!['>']) {
                Some(e) => e,
                None => after.len() as int,
            };
            proof {
                lemma_find_bounds(after, seq!['>']);
            }
            let head = match tag_cap(after.subrange(0, end)) {
                Some(c) => seq![c],
                None => Seq::empty(),
            };
            if end >= after.len() {
                head
            } else {
                head + iframes(after.subrange(end + 1, after.len() as int))
            }
        },
    }
}

/// The value of the attribute opened by `pat` and closed by `quote`.
fn attr_with_exec(tag: &Vec<char>, pat: &Vec<char>, quote: char) -> (r: Option<Vec<char>>)
    ensures
        match r {
            Some(v) => attr_with(tag@, pat@, quote) == Some(v@),
            None => attr_with(tag@, pat@, quote) is None,
        },
{
    assert(tag@.subrange(0, tag@.len() as int) == tag@);
    match find_from(tag, pat, 0) {
        Some(pos) => {
            proof {
                lemma_find_bounds(tag@, pat@);
            }
            let start = pos + pat.len();
            let q = vec![quote];
            assert(q@ == seq![quote]);
            match find_from(tag, &q, start) {
                Some(e) => {
                    proof {
                        lemma_find_bounds(tag@.subrange(start as int, tag@.len() as int), q@);
                    }
                    let mut out: Vec<char> = Vec::new();
                    let mut i = start;
                    while i < e
                        invariant
                            start <= i <= e,
                            e <= tag.len(),
                            out@ == tag@.subrange(start as int, i as int),
                        decreases e - i,
                    {
                        out.push(tag[i]);
                        i = i + 1;
                        assert(tag@.subrange(start as int, i as int) == tag@.subrange(
                            start as int,
                            i - 1,
                        ).push(tag@[i - 1]));
                    }
                    assert(tag@.subrange(start as int, tag@.len() as int).subrange(
                        0,
                        e - start,
                    ) == tag@.subrange(start as int, e as int));
                    Some(out)
                },
                None => None,
            }
        },
        None => None,
    }
}

/// `tag_attr(tag, name)`: the value of `name="..."`, else of `name='...'`.
pub fn attr_of_exec(tag: &Vec<char>, name: &str) -> (r: Option<Vec<char>>)
    ensures
        match r {
            Some(v) => tag_attr(tag@, name@) == Some(v@),
            None => tag_attr(tag@, name@) is None,
        },
{
    let n = str_chars(name);
    let mut p1 = n.clone();
    p1.push('=');
    p1.push('"');
    assert(p1@ == name@ + seq!['=', '"']);
    match attr_with_exec(tag, &p1, '"') {
        Some(v) => Some(v),
        None => {
            let mut p2 = n.clone();
            p2.push('=');
            p2.push('\'');
            assert(p2@ == name@ + seq!['=', '\'']);
            attr_with_exec(tag, &p2, '\'')
        },
    }
}

/// `&quot;`, `&#34;`, `&amp;`, `&lt;` and `&gt;` replaced in that order,
/// on characters.
pub fn unescape_attr_exec(s: &Vec<char>) -> (r: Vec<char>)
    ensures
        r@ == unescaped(s@),
{
    let quot = str_chars("&quot;");
    let num = str_chars("&#34;");
    let amp = str_chars("&amp;");
    let lt = str_chars("&lt;");
    let gt = str_chars("&gt;");
    proof {
        reveal_strlit("&quot;");
        reveal_strlit("&#34;");
        reveal_strlit("&amp;");
        reveal_strlit("&lt;");
        reveal_strlit("&gt;");
    }
    let dq: Vec<char> = vec!['"'];
    let am: Vec<char> = vec!['&'];
    let lc: Vec<char> = vec!['<'];
    let gc: Vec<char> = vec!['>'];
    assert(dq@ == seq!['"'] && am@ == seq!['&'] && lc@ == seq!['<'] && gc@ == seq!['>']);
    let a = replace_all_chars(s, &quot, &dq);
    let b = replace_all_chars(&a, &num, &dq);
    let c = replace_all_chars(&b, &amp, &am);
    let d = replace_all_chars(&c, &lt, &lc);
    replace_all_chars(&d, &gt, &gc)
}

/// `attr_of(tag, name)`: the value of `name="..."`, else of `name='...'`.
pub fn attr_of(tag: &str, name: &str) -> (r: Option<String>)
    ensures
        match r {
            Some(v) => tag_attr(tag@, name@) == Some(v@),
            None => tag_attr(tag@, name@) is None,
        },
{
    let t = str_chars(tag);
    match attr_of_exec(&t, name) {
        Some(v) => Some(string_of_chars(&v)),
        None => None,
    }
}

/// `html_unescape_attr`: `&quot;`, `&#34;`, `&amp;`, `&lt;` and `&gt;`
/// replaced in that order.
pub fn html_unescape_attr(s: &str) -> (r: String)
    ensures
        r@ == unescaped(s@),
{
    let v = str_chars(s);
    let u = unescape_attr_exec(&v);
    string_of_chars(&u)
}

fn tag_cap_exec(tag: &Vec<char>) -> (r: Option<IframeCap>)
    ensures
        match r {
            Some(c) => tag_cap(tag@) == Some((c.module@, c.data@)),
            None => tag_cap(tag@) is None,
        },
{
    let module = match attr_of_exec(tag, "module") {
        Some(m) => m,
        None => Vec::new(),
    };
    let data = match attr_of_exec(tag, "data") {
        Some(d) => d,
        None => Vec::new(),
    };
    if module.len() > 0 && data.len() > 0 {
        let un = unescape_attr_exec(&data);
        Some(IframeCap { module: string_of_chars(&module), data: string_of_chars(&un) })
    } else {
        None
    }
}

/// `iframe_iter(html)`: the task-point captures of a card description.
pub fn iframe_iter(html: &str) -> (r: Vec<IframeCap>)
    ensures
        caps_view(r@) == iframes(html@),
{
    let s = str_chars(html);
    let pat = str_chars("<iframe");
    let gt: Vec<char> = vec!['>'];
    assert(gt@ == seq!['>']);
    let mut out: Vec<IframeCap> = Vec::new();
    let mut p: usize = 0;
    assert(s@.subrange(0, s@.len() as int) == s@);
    loop
        invariant
            p <= s.len(),
            s@ == html@,
            pat@ == "<iframe"@,
            gt@ == seq!['>'],
            iframes(s@) == caps_view(out@) + iframes(s@.subrange(p as int, s.len() as int)),
        decreases s.len() - p,
    {
        let ghost rest = s@.subrange(p as int, s.len() as int);
        match find_from(&s, &pat, p) {
            None => {
                assert(iframes(rest) == Seq::<(Seq<char>, Seq<char>)>::empty());
                assert(caps_view(out@) + Seq::<(Seq<char>, Seq<char>)>::empty() == caps_view(
                    out@,
                ));
                return out;
            },
            Some(st) => {
                proof {
                    lemma_find_bounds(rest, pat@);
                }
                let ghost after = rest.subrange(st - p, rest.len() as int);
                assert(after == s@.subrange(st as int, s.len() as int));
                let end = match find_from(&s, &gt, st) {
                    Some(e) => e,
                    None => s.len(),
                };
                proof {
                    lemma_find_bounds(after, gt@);
                }
                let tag = {
                    let mut t: Vec<char> = Vec::new();
                    let mut i = st;
                    while i < end
                        invariant
                            st <= i <= end,
                            end <= s.len(),
                            t@ == s@.subrange(st as int, i as int),
                        decreases end - i,
                    {
                        t.push(s[i]);
                        i = i + 1;
                        assert(s@.subrange(st as int, i as int) == s@.subrange(st as int, i - 1).push(
                            s@[i - 1],
                        ));
                    }
                    t
                };
                assert(after.subrange(0, end - st) == tag@);
                let ghost head = match tag_cap(tag@) {
                    Some(c) => seq![c],
                    None => Seq::<(Seq<char>, Seq<char>)>::empty(),
                };
                let ghost prev = caps_view(out@);
                match tag_cap_exec(&tag) {
                    Some(c) => {
                        out.push(c);
                        assert(caps_view(out@) == prev + head);
                    },
                    None => {
                        assert(caps_view(out@) == prev + head);
                    },
                }
                if end >= s.len() {
                    assert(iframes(rest) == head);
                    return out;
                }
                assert(after.subrange(end - st + 1, after.len() as int) == s@.subrange(
                    end + 1,
                    s.len() as int,
                ));
                assert(iframes(rest) == head + iframes(s@.subrange(end + 1, s.len() as int)));
                assert(prev + (head + iframes(s@.subrange(end + 1, s.len() as int))) == (prev
                    + head) + iframes(s@.subrange(end + 1, s.len() as int)));
                p = end + 1;
            },
        }
    }
}

} // verus!
