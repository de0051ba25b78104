//! HTML selection, done by the `scraper` crate, with the selected elements
//! handed over as plain values.
use vstd::prelude::*;
use scraper::{Html, Selector};

verus! {

/// A selected element: its text (all descendant text, in order), its
/// attributes as ((namespace, local name), value) in no particular order,
/// each qualified name once, and its class names (sorted, each once).
pub struct HtmlElement {
    pub text: String,
    pub attrs: Vec<((String, String), String)>,
    pub classes: Vec<String>,
}

/// The content of a selected element; the attributes as a map from
/// (namespace, local name) to value.
pub struct ElementModel {
    pub text: Seq<char>,
    pub attrs: Map<(Seq<char>, Seq<char>), Seq<char>>,
    pub classes: Seq<Seq<char>>,
}

/// The attribute map of a list of attributes (a later one of the same
/// qualified name wins; the element's own list has each name once).
pub open spec fn attrs_map(ps: Seq<((String, String), String)>) -> Map<(Seq<char>, Seq<char>), Seq<char>>
    decreases ps.len(),
{
    if ps.len() == 0 {
        Map::empty()
    } else {
        attrs_map(ps.drop_last()).insert((ps.last().0.0@, ps.last().0.1@), ps.last().1@)
    }
}

/// The content of an element.
pub open spec fn element_model(e: HtmlElement) -> ElementModel {
    ElementModel {
        text: e.text@,
        attrs: attrs_map(e.attrs@),
        classes: e.classes@.map_values(|c: String| c@),
    }
}

/// The content of a list of elements.
pub open spec fn elements_model(v: Seq<HtmlElement>) -> Seq<ElementModel> {
    v.map_values(|e: HtmlElement| element_model(e))
}

/// The content of a list of lists of elements.
pub open spec fn groups_model(v: Seq<Vec<HtmlElement>>) -> Seq<Seq<ElementModel>> {
    v.map_values(|g: Vec<HtmlElement>| elements_model(g@))
}

/// The content of a list of lists of lists of elements.
pub open spec fn groups2_model(v: Seq<Vec<Vec<HtmlElement>>>) -> Seq<Seq<Seq<ElementModel>>> {
    v.map_values(|g: Vec<Vec<HtmlElement>>| groups_model(g@))
}

/// The elements of the document `doc` that match the CSS selector `sel`,
/// in document order (each with its attribute map); `None` when the
/// selector does not parse.
pub uninterp spec fn html_select(doc: Seq<char>, sel: Seq<char>) -> Option<Seq<ElementModel>>;

/// For each element of `doc` matching `outer`, the elements below it that
/// match `inner`; `None` when a selector does not parse.
pub uninterp spec fn html_select_in(doc: Seq<char>, outer: Seq<char>, inner: Seq<char>) -> Option<
    Seq<Seq<ElementModel>>,
>;

/// For each element of `doc` matching `a`, for each element below it
/// matching `b`, the elements below that match `c`; `None` when a selector
/// does not parse.
pub uninterp spec fn html_select_in2(
    doc: Seq<char>,
    a: Seq<char>,
    b: Seq<char>,
    c: Seq<char>,
) -> Option<Seq<Seq<Seq<ElementModel>>>>;

/// `Html::parse_document(doc).select(&Selector::parse(sel)?)`.
#[verifier::external_body]
pub(crate) fn select(doc: &str, sel: &str) -> (r: Option<Vec<HtmlElement>>)
    ensures
        match r {
            Some(v) => html_select(doc@, sel@) == Some(elements_model(v@)),
            None => html_select(doc@, sel@) is None,
        },
{
    let s = Selector::parse(sel).ok()?;
    Some(Html::parse_document(doc).select(&s).map(|e| HtmlElement {
        text: e.text().collect(),
        attrs: e.value().attrs.iter().map(|(k, v)| ((k.ns.to_string(), k.local.to_string()), v.to_string())).collect(),
        classes: e.value().classes().map(String::from).collect(),
    }).collect())
}

/// `select(outer)`, then `select(inner)` on each match.
#[verifier::external_body]
pub(crate) fn select_in(doc: &str, outer: &str, inner: &str) -> (r: Option<Vec<Vec<HtmlElement>>>)
    ensures
        match r {
            Some(v) => html_select_in(doc@, outer@, inner@) == Some(groups_model(v@)),
            None => html_select_in(doc@, outer@, inner@) is None,
        },
{
    let (a, b) = (Selector::parse(outer).ok()?, Selector::parse(inner).ok()?);
    Some(Html::parse_document(doc).select(&a).map(|x| x.select(&b).map(|e| HtmlElement {
        text: e.text().collect(),
        attrs: e.value().attrs.iter().map(|(k, v)| ((k.ns.to_string(), k.local.to_string()), v.to_string())).collect(),
        classes: e.value().classes().map(String::from).collect(),
    }).collect()).collect())
}

/// `select(a)`, `select(b)` on each match, then `select(c)` on each of those.
#[verifier::external_body]
pub(crate) fn select_in2(doc: &str, a: &str, b: &str, c: &str) -> (r: Option<Vec<Vec<Vec<HtmlElement>>>>)
    ensures
        match r {
            Some(v) => html_select_in2(doc@, a@, b@, c@) == Some(groups2_model(v@)),
            None => html_select_in2(doc@, a@, b@, c@) is None,
        },
{
    let (q, r) = (Selector::parse(b).ok()?, Selector::parse(c).ok()?);
    Some(Html::parse_document(doc).select(&Selector::parse(a).ok()?).map(|x| x.select(&q).map(|y| y.select(&r).map(|e| HtmlElement {
        text: e.text().collect(),
        attrs: e.value().attrs.iter().map(|(k, v)| ((k.ns.to_string(), k.local.to_string()), v.to_string())).collect(),
        classes: e.value().classes().map(String::from).collect(),
    }).collect()).collect()).collect())
}

/// The value of the attribute `name` in no namespace, if the element has
/// it (`Element::attr`).
pub open spec fn attr_lookup(attrs: Map<(Seq<char>, Seq<char>), Seq<char>>, name: Seq<char>) -> Option<Seq<char>> {
    if attrs.dom().contains((Seq::empty(), name)) {
        Some(attrs[(Seq::empty(), name)])
    } else {
        None
    }
}

/// `element.value().attr(name)`.
pub fn element_attr(e: &HtmlElement, name: &str) -> (r: Option<String>)
    ensures
        match r {
            Some(v) => attr_lookup(element_model(*e).attrs, name@) == Some(v@),
            None => attr_lookup(element_model(*e).attrs, name@) is None,
        },
{
    let mut found: Option<String> = None;
    let mut i: usize = 0;
    assert(e.attrs@.subrange(0, 0) =~= Seq::<((String, String), String)>::empty());
    while i < e.attrs.len()
        invariant
            i <= e.attrs.len(),
            match found {
                Some(v) => attr_lookup(attrs_map(e.attrs@.subrange(0, i as int)), name@) == Some(v@),
                None => attr_lookup(attrs_map(e.attrs@.subrange(0, i as int)), name@) is None,
            },
        decreases e.attrs.len() - i,
    {
        let ghost next = e.attrs@.subrange(0, i + 1);
        let ghost prev = e.attrs@.subrange(0, i as int);
        let ghost key = (e.attrs@[i as int].0.0@, e.attrs@[i as int].0.1@);
        assert(next.drop_last() == prev);
        assert(next.last() == e.attrs@[i as int]);
        assert(attrs_map(next) == attrs_map(prev).insert(key, e.attrs@[i as int].1@));
        let unqualified = e.attrs[i].0.0.as_str().is_empty();
        let matches = unqualified && crate::text::str_eq(e.attrs[i].0.1.as_str(), name);
        if matches {
            assert(e.attrs@[i as int].0.0@ =~= Seq::<char>::empty());
            assert(key == (Seq::<char>::empty(), name@));
            found = Some(e.attrs[i].1.clone());
        } else {
            assert(key != (Seq::<char>::empty(), name@));
        }
        i = i + 1;
    }
    assert(e.attrs@.subrange(0, e.attrs.len() as int) == e.attrs@);
    found
}

/// Whether an element has the class `name`.
pub fn element_has_class(e: &HtmlElement, name: &str) -> (r: bool)
    ensures
        r == element_model(*e).classes.contains(name@),
{
    let ghost m = element_model(*e).classes;
    let mut i: usize = 0;
    while i < e.classes.len()
        invariant
            i <= e.classes.len(),
            m == element_model(*e).classes,
            m.len() == e.classes@.len(),
            forall|j: int| 0 <= j < i ==> m[j] != name@,
        decreases e.classes.len() - i,
    {
        assert(m[i as int] == e.classes@[i as int]@);
        if crate::text::str_eq(e.classes[i].as_str(), name) {
            return true;
        }
        i = i + 1;
    }
    false
}

} // verus!
