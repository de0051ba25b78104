//! The exam list of a course, read from the phone task-list page.
use vstd::prelude::*;
use crate::html::{
    ElementModel, HtmlElement, attr_lookup, element_attr, element_has_class, element_model,
    elements_model, groups_model, html_select_in, html_select_in2, select_in, select_in2,
};
use crate::text::{parse_i64, parse_i64_str, string_of_str, trim, trim_string};
use crate::weblink::{link_query, link_query_pairs, last_value, last_value_of};

verus! {

/// One exam of a course.
pub struct ExamItem {
    pub course_name: String,
    pub exam_id: i64,
    pub course_id: i64,
    pub class_id: i64,
    pub cpi: i64,
    pub enc_task: String,
    pub name: String,
    pub status: String,
    pub expire_time: Option<String>,
}

/// The `li` entries of the first `ul.nav`.
pub open spec fn exam_entries(html: Seq<char>) -> Seq<ElementModel> {
    match html_select_in(html, "ul.nav"@, "li"@) {
        Some(g) => if g.len() > 0 {
            g[0]
        } else {
            Seq::empty()
        },
        None => Seq::empty(),
    }
}

/// Per entry of the first `ul.nav`, the elements below it that match `sel`.
pub open spec fn exam_parts(html: Seq<char>, sel: Seq<char>) -> Seq<Seq<ElementModel>> {
    match html_select_in2(html, "ul.nav"@, "li"@, sel) {
        Some(g) => if g.len() > 0 {
            g[0]
        } else {
            Seq::empty()
        },
        None => Seq::empty(),
    }
}

/// Element `k` of a list of lists, empty when there is none.
pub open spec fn part(parts: Seq<Seq<ElementModel>>, k: int) -> Seq<ElementModel> {
    if 0 <= k < parts.len() {
        parts[k]
    } else {
        Seq::empty()
    }
}

/// The exam id of an entry's link: the last `taskrefId`, parsed.
pub open spec fn entry_exam_id(li: ElementModel) -> Option<i64> {
    match attr_lookup(li.attrs, "data"@) {
        Some(data) => match link_query(data) {
            Some(q) => match last_value(q, "taskrefId"@) {
                Some(v) => parse_i64(v),
                None => None,
            },
            None => None,
        },
        None => None,
    }
}

/// The first span without the class `fr`.
pub open spec fn first_plain_span(spans: Seq<ElementModel>) -> Option<ElementModel>
    decreases spans.len(),
{
    if spans.len() == 0 {
        None
    } else if !spans[0].classes.contains("fr"@) {
        Some(spans[0])
    } else {
        first_plain_span(spans.drop_first())
    }
}

/// The first span with the class `fr`.
pub open spec fn first_fr_span(spans: Seq<ElementModel>) -> Option<ElementModel>
    decreases spans.len(),
{
    if spans.len() == 0 {
        None
    } else if spans[0].classes.contains("fr"@) {
        Some(spans[0])
    } else {
        first_fr_span(spans.drop_first())
    }
}

/// The exam read from an entry with an exam id: the last `enc_task` (or
/// empty), the first `p` text trimmed (or "未命名考试"), the first plain
/// span trimmed (or empty), and the first `span.fr` trimmed when not empty.
pub open spec fn exam_of(
    e: ExamItem,
    li: ElementModel,
    ps: Seq<ElementModel>,
    spans: Seq<ElementModel>,
    course_id: i64,
    class_id: i64,
    cpi: i64,
    course_name: Seq<char>,
) -> bool {
    let q = link_query(attr_lookup(li.attrs, "data"@)->0)->0;
    &&& e.course_name@ == course_name
    &&& e.exam_id == entry_exam_id(li)->0
    &&& e.course_id == course_id
    &&& e.class_id == class_id
    &&& e.cpi == cpi
    &&& e.enc_task@ == (match last_value(q, "enc_task"@) {
        Some(v) => v,
        None => Seq::empty(),
    })
    &&& e.name@ == (if ps.len() > 0 {
        trim(ps[0].text)
    } else {
        "未命名考试"@
    })
    &&& e.status@ == (match first_plain_span(spans) {
        Some(s) => trim(s.text),
        None => Seq::empty(),
    })
    &&& (match e.expire_time {
        Some(t) => first_fr_span(spans) matches Some(s) && trim(s.text).len() > 0 && t@ == trim(s.text),
        None => !(first_fr_span(spans) matches Some(s) && trim(s.text).len() > 0),
    })
}

/// The entries (by position) that yield exams, in order.
pub open spec fn exam_positions(entries: Seq<ElementModel>) -> Seq<int> {
    Seq::new(entries.len(), |k: int| k).filter(|k: int| entry_exam_id(entries[k]) is Some)
}

/// Whether `es` are the exams of the page.
pub open spec fn exams_of_page(
    es: Seq<ExamItem>,
    html: Seq<char>,
    course_id: i64,
    class_id: i64,
    cpi: i64,
    course_name: Seq<char>,
) -> bool {
    let entries = exam_entries(html);
    let pos = exam_positions(entries);
    &&& es.len() == pos.len()
    &&& forall|i: int|
        0 <= i < pos.len() ==> exam_of(
            #[trigger] es[i],
            entries[pos[i]],
            part(exam_parts(html, "p"@), pos[i]),
            part(exam_parts(html, "span"@), pos[i]),
            course_id,
            class_id,
            cpi,
            course_name,
        )
}

fn first_group<T>(g: Option<Vec<Vec<T>>>) -> (r: Vec<T>)
    ensures
        r@ == (match g {
            Some(v) => if v@.len() > 0 { v@[0]@ } else { Seq::<T>::empty() },
            None => Seq::<T>::empty(),
        }),
{
    match g {
        Some(mut v) => if v.len() > 0 {
            v.swap_remove(0)
        } else {
            Vec::new()
        },
        None => Vec::new(),
    }
}

fn exam_from_entry(
    li: &HtmlElement,
    ps: &Vec<HtmlElement>,
    spans: &Vec<HtmlElement>,
    course_id: i64,
    class_id: i64,
    cpi: i64,
    course_name: &str,
) -> (r: Option<ExamItem>)
    ensures
        match r {
            Some(e) => entry_exam_id(element_model(*li)) is Some && exam_of(
                e,
                element_model(*li),
                elements_model(ps@),
                elements_model(spans@),
                course_id,
                class_id,
                cpi,
                course_name@,
            ),
            None => entry_exam_id(element_model(*li)) is None,
        },
{
    let data = match element_attr(li, "data") {
        Some(d) => d,
        None => return None,
    };
    let q = match link_query_pairs(data.as_str()) {
        Some(q) => q,
        None => return None,
    };
    let exam_id = match last_value_of(&q, "taskrefId") {
        Some(v) => match parse_i64_str(v.as_str()) {
            Some(n) => n,
            None => return None,
        },
        None => return None,
    };
    let enc_task = match last_value_of(&q, "enc_task") {
        Some(v) => v,
        None => String::new(),
    };
    let name = if ps.len() > 0 {
        assert(elements_model(ps@)[0] == element_model(ps@[0]));
        trim_string(ps[0].text.as_str())
    } else {
        string_of_str("未命名考试")
    };
    let ghost sm = elements_model(spans@);
    let mut status = String::new();
    let mut expire: Option<String> = None;
    let mut found_plain = false;
    let mut found_fr = false;
    let mut i: usize = 0;
    assert(sm.subrange(0, sm.len() as int) == sm);
    while i < spans.len()
        invariant
            i <= spans.len(),
            sm == elements_model(spans@),
            sm.len() == spans@.len(),
            found_plain ==> status@ == (match first_plain_span(sm) {
                Some(s) => trim(s.text),
                None => Seq::empty(),
            }),
            !found_plain ==> first_plain_span(sm) == first_plain_span(sm.subrange(i as int, sm.len() as int))
                && status@ == Seq::<char>::empty(),
            found_fr ==> (match expire {
                Some(t) => first_fr_span(sm) matches Some(s) && trim(s.text).len() > 0 && t@ == trim(s.text),
                None => !(first_fr_span(sm) matches Some(s) && trim(s.text).len() > 0),
            }),
            !found_fr ==> first_fr_span(sm) == first_fr_span(sm.subrange(i as int, sm.len() as int))
                && expire is None,
        decreases spans.len() - i,
    {
        let ghost rest = sm.subrange(i as int, sm.len() as int);
        assert(rest.drop_first() == sm.subrange(i + 1, sm.len() as int));
        assert(rest[0] == element_model(spans@[i as int]));
        let fr = element_has_class(&spans[i], "fr");
        if fr {
            if !found_fr {
                let t = trim_string(spans[i].text.as_str());
                if !t.as_str().is_empty() {
                    expire = Some(t);
                }
                found_fr = true;
            }
        } else {
            if !found_plain {
                status = trim_string(spans[i].text.as_str());
                found_plain = true;
            }
        }
        i = i + 1;
    }
    Some(
        ExamItem {
            course_name: string_of_str(course_name),
            exam_id,
            course_id,
            class_id,
            cpi,
            enc_task,
            name,
            status,
            expire_time: expire,
        },
    )
}

/// `list_exams` after the request: the exams of the first `ul.nav` list.
pub fn exams_from_html(html: &str, course_id: i64, class_id: i64, cpi: i64, course_name: &str) -> (r: Vec<ExamItem>)
    ensures
        exams_of_page(r@, html@, course_id, class_id, cpi, course_name@),
{
    let entries = first_group(select_in(html, "ul.nav", "li"));
    let ps = first_group(select_in2(html, "ul.nav", "li", "p"));
    let spans = first_group(select_in2(html, "ul.nav", "li", "span"));
    let ghost em = elements_model(entries@);
    assert(em == exam_entries(html@)) by {
        assert(em =~= exam_entries(html@));
    }
    let ghost pm = exam_parts(html@, "p"@);
    let ghost sm = exam_parts(html@, "span"@);
    assert(pm =~= groups_model(ps@));
    assert(sm =~= groups_model(spans@));
    let empty: Vec<HtmlElement> = Vec::new();
    let mut out: Vec<ExamItem> = Vec::new();
    let mut k: usize = 0;
    while k < entries.len()
        invariant
            k <= entries.len(),
            em == elements_model(entries@),
            em == exam_entries(html@),
            pm == groups_model(ps@),
            sm == groups_model(spans@),
            pm == exam_parts(html@, "p"@),
            sm == exam_parts(html@, "span"@),
            empty@.len() == 0,
            exams_of_page_prefix(out@, html@, course_id, class_id, cpi, course_name@, k as int),
        decreases entries.len() - k,
    {
        let p: &Vec<HtmlElement> = if k < ps.len() { &ps[k] } else { &empty };
        let s: &Vec<HtmlElement> = if k < spans.len() { &spans[k] } else { &empty };
        assert(elements_model(p@) == part(pm, k as int));
        assert(elements_model(s@) == part(sm, k as int));
        assert(element_model(entries@[k as int]) == em[k as int]);
        let ghost prev = out@;
        match exam_from_entry(&entries[k], p, s, course_id, class_id, cpi, course_name) {
            Some(e) => {
                out.push(e);
                proof { lemma_positions_step(em, k as int); }
            },
            None => {
                proof { lemma_positions_step(em, k as int); }
            },
        }
        k = k + 1;
    }
    proof { lemma_positions_full(em); }
    out
}

/// The first `n` entries' exams.
pub open spec fn exams_of_page_prefix(
    es: Seq<ExamItem>,
    html: Seq<char>,
    course_id: i64,
    class_id: i64,
    cpi: i64,
    course_name: Seq<char>,
    n: int,
) -> bool {
    let entries = exam_entries(html);
    let pos = positions_below(entries, n);
    &&& es.len() == pos.len()
    &&& forall|i: int|
        0 <= i < pos.len() ==> exam_of(
            #[trigger] es[i],
            entries[pos[i]],
            part(exam_parts(html, "p"@), pos[i]),
            part(exam_parts(html, "span"@), pos[i]),
            course_id,
            class_id,
            cpi,
            course_name,
        )
}

/// The positions below `n` whose entries yield exams.
pub open spec fn positions_below(entries: Seq<ElementModel>, n: int) -> Seq<int> {
    Seq::new(n as nat, |k: int| k).filter(|k: int| entry_exam_id(entries[k]) is Some)
}

proof fn lemma_positions_step(entries: Seq<ElementModel>, k: int)
    requires
        0 <= k,
    ensures
        positions_below(entries, k + 1) == if entry_exam_id(entries[k]) is Some {
            positions_below(entries, k).push(k)
        } else {
            positions_below(entries, k)
        },
{
    let a = Seq::new((k + 1) as nat, |j: int| j);
    let b = Seq::new(k as nat, |j: int| j);
    assert(a.drop_last() == b);
    reveal(Seq::filter);
}

proof fn lemma_positions_full(entries: Seq<ElementModel>)
    ensures
        positions_below(entries, entries.len() as int) == exam_positions(entries),
{
}

/// The query of the exam-list request.
pub open spec fn exam_list_query_of(course_id: i64, class_id: i64, cpi: i64) -> Seq<(Seq<char>, Seq<char>)> {
    seq![
        ("courseId"@, crate::text::int_dec(course_id as int)),
        ("classId"@, crate::text::int_dec(class_id as int)),
        ("cpi"@, crate::text::int_dec(cpi as int)),
    ]
}

/// `list_exams`' query.
pub fn exam_list_query(course_id: i64, class_id: i64, cpi: i64) -> (r: Vec<(String, String)>)
    ensures
        crate::attachment::params_view(r@) == exam_list_query_of(course_id, class_id, cpi),
{
    let mut ps: Vec<(String, String)> = Vec::new();
    ps.push((string_of_str("courseId"), crate::text::i64_to_string(course_id)));
    ps.push((string_of_str("classId"), crate::text::i64_to_string(class_id)));
    ps.push((string_of_str("cpi"), crate::text::i64_to_string(cpi)));
    assert(crate::attachment::params_view(ps@) =~= exam_list_query_of(course_id, class_id, cpi));
    ps
}

} // verus!
