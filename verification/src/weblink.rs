//! URL query decoding, done by the `url` crate.
use vstd::prelude::*;

verus! {

/// The decoded query pairs of `url` (`Url::parse(url)` then
/// `query_pairs()`), in order; `None` when it is not an absolute URL.
pub uninterp spec fn url_query(url: Seq<char>) -> Option<Seq<(Seq<char>, Seq<char>)>>;

/// The texts of an optional pair list.
pub open spec fn pairs_model(r: Option<Vec<(String, String)>>) -> Option<Seq<(Seq<char>, Seq<char>)>> {
    match r {
        Some(v) => Some(v@.map_values(|p: (String, String)| (p.0@, p.1@))),
        None => None,
    }
}

/// `Url::parse(url)` and `query_pairs()`, the pairs owned.
#[verifier::external_body]
pub(crate) fn url_query_pairs(url: &str) -> (r: Option<Vec<(String, String)>>)
    ensures
        pairs_model(r) == url_query(url@),
{
    let u = url::Url::parse(url).ok()?;
    Some(u.query_pairs().map(|(k, v)| (k.into_owned(), v.into_owned())).collect())
}

/// The query of a link as the client reads it: the link itself as an
/// absolute URL, else relative to `https://mooc1.chaoxing.com`.
pub open spec fn link_query(link: Seq<char>) -> Option<Seq<(Seq<char>, Seq<char>)>> {
    match url_query(link) {
        Some(q) => Some(q),
        None => url_query("https://mooc1.chaoxing.com"@ + link),
    }
}

/// `Url::parse(link).or_else(|_| Url::parse("https://mooc1.chaoxing.com" + link))`,
/// reduced to its query pairs.
pub fn link_query_pairs(link: &str) -> (r: Option<Vec<(String, String)>>)
    ensures
        pairs_model(r) == link_query(link@),
{
    match url_query_pairs(link) {
        Some(q) => Some(q),
        None => {
            let abs = crate::text::concat("https://mooc1.chaoxing.com", link);
            url_query_pairs(abs.as_str())
        },
    }
}

/// The value of the last pair named `key`.
pub open spec fn last_value(pairs: Seq<(Seq<char>, Seq<char>)>, key: Seq<char>) -> Option<Seq<char>>
    decreases pairs.len(),
{
    if pairs.len() == 0 {
        None
    } else if pairs.last().0 == key {
        Some(pairs.last().1)
    } else {
        last_value(pairs.drop_last(), key)
    }
}

/// The value of the last pair named `key`.
pub fn last_value_of(pairs: &Vec<(String, String)>, key: &str) -> (r: Option<String>)
    ensures
        match r {
            Some(v) => last_value(pairs@.map_values(|p: (String, String)| (p.0@, p.1@)), key@) == Some(v@),
            None => last_value(pairs@.map_values(|p: (String, String)| (p.0@, p.1@)), key@) is None,
        },
{
    let ghost m = pairs@.map_values(|p: (String, String)| (p.0@, p.1@));
    let mut found: Option<String> = None;
    let mut i: usize = 0;
    assert(m.subrange(0, 0) == Seq::<(Seq<char>, Seq<char>)>::empty());
    while i < pairs.len()
        invariant
            i <= pairs.len(),
            m == pairs@.map_values(|p: (String, String)| (p.0@, p.1@)),
            match found {
                Some(v) => last_value(m.subrange(0, i as int), key@) == Some(v@),
                None => last_value(m.subrange(0, i as int), key@) is None,
            },
        decreases pairs.len() - i,
    {
        let ghost next = m.subrange(0, i + 1);
        assert(next.drop_last() == m.subrange(0, i as int));
        assert(next.last() == (pairs@[i as int].0@, pairs@[i as int].1@));
        if crate::text::str_eq(pairs[i].0.as_str(), key) {
            found = Some(pairs[i].1.clone());
        }
        i = i + 1;
    }
    assert(m.subrange(0, m.len() as int) == m);
    found
}

} // verus!
