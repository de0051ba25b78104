//! Homework: resolving the `enc`/`openc` parameters of a course from its
//! pages and redirects, and reading the homework list page.
use vstd::prelude::*;
use crate::attachment::params_view;
use crate::client::ClientError;
use crate::html::{
    ElementModel, HtmlElement, attr_lookup, element_attr, element_model, elements_model,
    groups_model, groups2_model, html_select, html_select_in, html_select_in2, select,
    select_in, select_in2,
};
use crate::pattern::{first_match, regex_first};
use crate::text::{
    collapse_ws, collapse_ws_str, concat, int_dec, i64_to_string, push_str, str_chars,
    string_of_str, trim, trim_string, starts_with, starts_with_chars, str_eq,
};
use crate::urlenc::{url_encode, EncodeStyle, urlencoding_encode};
use crate::weblink::{link_query, link_query_pairs};

verus! {

/// One homework assignment.
pub struct HomeworkItem {
    pub course_name: String,
    pub work_name: String,
    pub status: String,
    pub status_code: String,
    pub end_time: String,
    pub result_num: String,
    pub work_url: Option<String>,
}

/// The parameters of the homework list request.
pub struct WorkParams {
    pub course_id: String,
    pub clazzid: String,
    pub cpi: String,
    pub enc: String,
    pub openc: String,
}

/// `map_status`: the display text and code of a status label (trimmed).
pub open spec fn status_of(label: Seq<char>) -> (Seq<char>, Seq<char>) {
    let t = trim(label);
    if t == "待做"@ {
        ("待做"@, "UNDONE"@)
    } else if t == "已过期"@ {
        ("已过期"@, "EXPIRED"@)
    } else if t == "已完成"@ {
        ("已完成"@, "DONE"@)
    } else if t == "待批阅"@ {
        ("待批阅"@, "UNDONE_READ"@)
    } else {
        ("其他"@, "OTHER"@)
    }
}

/// `map_status`.
pub fn map_status(label: &str) -> (r: (String, String))
    ensures
        (r.0@, r.1@) == status_of(label@),
{
    let t = trim_string(label);
    let t = t.as_str();
    if str_eq(t, "待做") {
        (string_of_str("待做"), string_of_str("UNDONE"))
    } else if str_eq(t, "已过期") {
        (string_of_str("已过期"), string_of_str("EXPIRED"))
    } else if str_eq(t, "已完成") {
        (string_of_str("已完成"), string_of_str("DONE"))
    } else if str_eq(t, "待批阅") {
        (string_of_str("待批阅"), string_of_str("UNDONE_READ"))
    } else {
        (string_of_str("其他"), string_of_str("OTHER"))
    }
}

// ------------------------------------------------------- course page fields

/// `attr_value(html, id)`: the first `#<id>` element's `value`, else its
/// text with whitespace collapsed.
pub open spec fn page_value(html: Seq<char>, id: Seq<char>) -> Option<Seq<char>> {
    match html_select(html, "#"@ + id) {
        Some(es) => if es.len() > 0 {
            match attr_lookup(es[0].attrs, "value"@) {
                Some(v) => Some(v),
                None => Some(collapse_ws(es[0].text)),
            }
        } else {
            None
        },
        None => None,
    }
}

/// `attr_value`.
pub fn page_value_exec(html: &str, id: &str) -> (r: Option<String>)
    ensures
        match r {
            Some(v) => page_value(html@, id@) == Some(v@),
            None => page_value(html@, id@) is None,
        },
{
    let sel = concat("#", id);
    match select(html, sel.as_str()) {
        Some(es) => if es.len() > 0 {
            assert(elements_model(es@)[0] == element_model(es@[0]));
            match element_attr(&es[0], "value") {
                Some(v) => Some(v),
                None => Some(collapse_ws_str(es[0].text.as_str())),
            }
        } else {
            None
        },
        None => None,
    }
}

/// The hidden course fields of a course page.
pub struct HiddenParams {
    pub course_id: String,
    pub clazzid: String,
    pub cpi: String,
    pub enc: String,
    pub openc: String,
}

/// `v.unwrap_or_default()` for text.
pub open spec fn or_empty(v: Option<Seq<char>>) -> Seq<char> {
    match v {
        Some(s) => s,
        None => Seq::empty(),
    }
}

/// `parse_hidden_params`: course id, class id and cpi must be present and
/// the first two non-empty; `enc` is `oldenc`, else `enc`, else empty;
/// `openc` defaults to empty.
pub open spec fn hidden_params_outcome(html: Seq<char>, r: Option<HiddenParams>) -> bool {
    let course = page_value(html, "courseid"@);
    let clazz = page_value(html, "clazzid"@);
    let cpi = page_value(html, "cpi"@);
    if course is Some && clazz is Some && cpi is Some && course->0.len() > 0 && clazz->0.len() > 0 {
        r matches Some(p) && p.course_id@ == course->0 && p.clazzid@ == clazz->0 && p.cpi@ == cpi->0
            && p.enc@ == (match page_value(html, "oldenc"@) {
            Some(e) => e,
            None => or_empty(page_value(html, "enc"@)),
        }) && p.openc@ == or_empty(page_value(html, "openc"@))
    } else {
        r is None
    }
}

/// The hidden fields of the course page itself, or else of the page its
/// redirect leads to (`fallback`, read only when the first has none);
/// without either, the parse error of `get_work_params`.
pub fn hidden_params_found(first: Option<HiddenParams>, fallback: Option<HiddenParams>) -> (r: Result<
    HiddenParams,
    ClientError,
>)
    ensures
        first is Some ==> r == Ok::<HiddenParams, ClientError>(first->0),
        first is None && fallback is Some ==> r == Ok::<HiddenParams, ClientError>(fallback->0),
        first is None && fallback is None ==> (r matches Err(ClientError::Parse(m)) && m@
            == "无法从课程页解析 work 参数（courseid/clazzid）"@),
{
    match first {
        Some(h) => Ok(h),
        None => match fallback {
            Some(h) => Ok(h),
            None => Err(ClientError::Parse(string_of_str("无法从课程页解析 work 参数（courseid/clazzid）"))),
        },
    }
}

/// `parse_hidden_params`.
pub fn parse_hidden_params(html: &str) -> (r: Option<HiddenParams>)
    ensures
        hidden_params_outcome(html@, r),
{
    let course_id = match page_value_exec(html, "courseid") {
        Some(v) => v,
        None => return None,
    };
    let clazzid = match page_value_exec(html, "clazzid") {
        Some(v) => v,
        None => return None,
    };
    let cpi = match page_value_exec(html, "cpi") {
        Some(v) => v,
        None => return None,
    };
    let enc = match page_value_exec(html, "oldenc") {
        Some(v) => v,
        None => match page_value_exec(html, "enc") {
            Some(v) => v,
            None => String::new(),
        },
    };
    let openc = match page_value_exec(html, "openc") {
        Some(v) => v,
        None => String::new(),
    };
    if course_id.as_str().is_empty() || clazzid.as_str().is_empty() {
        return None;
    }
    Some(HiddenParams { course_id, clazzid, cpi, enc, openc })
}

/// The course-middle page of a course.
pub open spec fn middle_url_text(course_id: i64, class_id: i64, cpi: i64) -> Seq<char> {
    "https://mooc1.chaoxing.com/visit/stucoursemiddle?courseid="@ + int_dec(course_id as int)
        + "&clazzid="@ + int_dec(class_id as int) + "&cpi="@ + int_dec(cpi as int) + "&ismooc2=1"@
}

/// `get_work_params`' first URL.
pub fn middle_url(course_id: i64, class_id: i64, cpi: i64) -> (r: String)
    ensures
        r@ == middle_url_text(course_id, class_id, cpi),
{
    let mut u = string_of_str("https://mooc1.chaoxing.com/visit/stucoursemiddle?courseid=");
    push_str(&mut u, i64_to_string(course_id).as_str());
    push_str(&mut u, "&clazzid=");
    push_str(&mut u, i64_to_string(class_id).as_str());
    push_str(&mut u, "&cpi=");
    push_str(&mut u, i64_to_string(cpi).as_str());
    push_str(&mut u, "&ismooc2=1");
    u
}

/// A redirect target made absolute: kept when it starts with `http`,
/// otherwise taken relative to `https://mooc1.chaoxing.com`.
pub open spec fn absolute_location_text(loc: Seq<char>) -> Seq<char> {
    if starts_with(loc, "http"@) {
        loc
    } else {
        "https://mooc1.chaoxing.com"@ + loc
    }
}

/// The absolute form of a `Location` header.
pub fn absolute_location(loc: &str) -> (r: String)
    ensures
        r@ == absolute_location_text(loc@),
{
    let v = str_chars(loc);
    let h = str_chars("http");
    if starts_with_chars(&v, &h) {
        string_of_str(loc)
    } else {
        concat("https://mooc1.chaoxing.com", loc)
    }
}

/// The student course page that the transfer request refers to.
pub open spec fn homepage_text(p: HiddenParams) -> Seq<char> {
    "https://mooc1.chaoxing.com/mycourse/studentcourse?courseId="@ + p.course_id@ + "&clazzid="@
        + p.clazzid@ + "&cpi="@ + p.cpi@ + "&openc="@ + p.openc@ + "&enc="@ + p.enc@
}

/// The transfer URL that refreshes `enc`.
pub open spec fn transfer_url_text(p: HiddenParams) -> Seq<char> {
    "https://mooc1.chaoxing.com/mycourse/transfer?moocId="@ + p.course_id@ + "&ut=s&clazzid="@
        + p.clazzid@ + "&refer="@ + url_encode(homepage_text(p), EncodeStyle::Strict)
}

/// `get_work_params`' transfer URL.
pub fn transfer_url(p: &HiddenParams) -> (r: String)
    ensures
        r@ == transfer_url_text(*p),
{
    let mut home = string_of_str("https://mooc1.chaoxing.com/mycourse/studentcourse?courseId=");
    push_str(&mut home, p.course_id.as_str());
    push_str(&mut home, "&clazzid=");
    push_str(&mut home, p.clazzid.as_str());
    push_str(&mut home, "&cpi=");
    push_str(&mut home, p.cpi.as_str());
    push_str(&mut home, "&openc=");
    push_str(&mut home, p.openc.as_str());
    push_str(&mut home, "&enc=");
    push_str(&mut home, p.enc.as_str());
    let mut u = string_of_str("https://mooc1.chaoxing.com/mycourse/transfer?moocId=");
    push_str(&mut u, p.course_id.as_str());
    push_str(&mut u, "&ut=s&clazzid=");
    push_str(&mut u, p.clazzid.as_str());
    push_str(&mut u, "&refer=");
    push_str(&mut u, urlencoding_encode(home.as_str()).as_str());
    u
}

/// The field a transfer-redirect query pair overrides: 0 course id
/// (`courseId`/`courseid`), 1 class id (`clazzid`/`classId`), 2 cpi, 3
/// `enc`, 4 `openc`, 5 none.
pub open spec fn override_slot(key: Seq<char>) -> int {
    if key == "courseId"@ || key == "courseid"@ {
        0
    } else if key == "clazzid"@ || key == "classId"@ {
        1
    } else if key == "cpi"@ {
        2
    } else if key == "enc"@ {
        3
    } else if key == "openc"@ {
        4
    } else {
        5
    }
}

/// The text of the last pair that overrides `slot`, else `default`.
pub open spec fn last_for_slot(
    pairs: Seq<(Seq<char>, Seq<char>)>,
    slot: int,
    default: Seq<char>,
) -> Seq<char>
    decreases pairs.len(),
{
    if pairs.len() == 0 {
        default
    } else if override_slot(pairs.last().0) == slot {
        pairs.last().1
    } else {
        last_for_slot(pairs.drop_last(), slot, default)
    }
}

/// The work parameters after the transfer redirect: the page fields, each
/// replaced by the last matching pair of the `Location` query when there
/// is one that parses.
pub open spec fn work_params_outcome(p: HiddenParams, location: Option<Seq<char>>, r: WorkParams) -> bool {
    let pairs = match location {
        Some(loc) => match link_query(loc) {
            Some(q) => q,
            None => Seq::empty(),
        },
        None => Seq::empty(),
    };
    &&& r.course_id@ == last_for_slot(pairs, 0, p.course_id@)
    &&& r.clazzid@ == last_for_slot(pairs, 1, p.clazzid@)
    &&& r.cpi@ == last_for_slot(pairs, 2, p.cpi@)
    &&& r.enc@ == last_for_slot(pairs, 3, p.enc@)
    &&& r.openc@ == last_for_slot(pairs, 4, p.openc@)
}

fn slot_of(key: &str) -> (r: u8)
    ensures
        r as int == override_slot(key@),
{
    if str_eq(key, "courseId") || str_eq(key, "courseid") {
        0
    } else if str_eq(key, "clazzid") || str_eq(key, "classId") {
        1
    } else if str_eq(key, "cpi") {
        2
    } else if str_eq(key, "enc") {
        3
    } else if str_eq(key, "openc") {
        4
    } else {
        5
    }
}

/// `get_work_params` after the transfer request: `location` is its
/// `Location` header, if any.
pub fn work_params_from(p: HiddenParams, location: &Option<String>) -> (r: WorkParams)
    ensures
        work_params_outcome(
            p,
            match *location {
                Some(l) => Some(l@),
                None => None,
            },
            r,
        ),
{
    let ghost p0 = p;
    let pairs: Vec<(String, String)> = match location {
        Some(loc) => match link_query_pairs(loc.as_str()) {
            Some(q) => q,
            None => Vec::new(),
        },
        None => Vec::new(),
    };
    let ghost m = pairs@.map_values(|q: (String, String)| (q.0@, q.1@));
    assert(m =~= (match *location {
        Some(l) => match link_query(l@) {
            Some(q) => q,
            None => Seq::empty(),
        },
        None => Seq::empty(),
    }));
    let HiddenParams { course_id, clazzid, cpi, enc, openc } = p;
    let mut w = WorkParams { course_id, clazzid, cpi, enc, openc };
    let mut i: usize = 0;
    assert(m.subrange(0, 0) == Seq::<(Seq<char>, Seq<char>)>::empty());
    while i < pairs.len()
        invariant
            i <= pairs.len(),
            m == pairs@.map_values(|q: (String, String)| (q.0@, q.1@)),
            w.course_id@ == last_for_slot(m.subrange(0, i as int), 0, p0.course_id@),
            w.clazzid@ == last_for_slot(m.subrange(0, i as int), 1, p0.clazzid@),
            w.cpi@ == last_for_slot(m.subrange(0, i as int), 2, p0.cpi@),
            w.enc@ == last_for_slot(m.subrange(0, i as int), 3, p0.enc@),
            w.openc@ == last_for_slot(m.subrange(0, i as int), 4, p0.openc@),
        decreases pairs.len() - i,
    {
        let ghost next = m.subrange(0, i + 1);
        assert(next.drop_last() == m.subrange(0, i as int));
        assert(next.last() == (pairs@[i as int].0@, pairs@[i as int].1@));
        let slot = slot_of(pairs[i].0.as_str());
        let v = pairs[i].1.clone();
        if slot == 0 {
            w.course_id = v;
        } else if slot == 1 {
            w.clazzid = v;
        } else if slot == 2 {
            w.cpi = v;
        } else if slot == 3 {
            w.enc = v;
        } else if slot == 4 {
            w.openc = v;
        }
        i = i + 1;
    }
    assert(m.subrange(0, m.len() as int) == m);
    w
}

/// The query of the homework list request.
pub open spec fn work_list_query_of(p: WorkParams) -> Seq<(Seq<char>, Seq<char>)> {
    seq![
        ("classId"@, p.clazzid@),
        ("courseId"@, p.course_id@),
        ("isdisplaytable"@, "2"@),
        ("mooc"@, "1"@),
        ("ut"@, "s"@),
        ("enc"@, p.enc@),
        ("cpi"@, p.cpi@),
        ("openc"@, p.openc@),
    ]
}

/// `list_homework`'s query.
pub fn work_list_query(p: &WorkParams) -> (r: Vec<(String, String)>)
    ensures
        params_view(r@) == work_list_query_of(*p),
{
    let mut ps: Vec<(String, String)> = Vec::new();
    ps.push((string_of_str("classId"), p.clazzid.clone()));
    ps.push((string_of_str("courseId"), p.course_id.clone()));
    ps.push((string_of_str("isdisplaytable"), string_of_str("2")));
    ps.push((string_of_str("mooc"), string_of_str("1")));
    ps.push((string_of_str("ut"), string_of_str("s")));
    ps.push((string_of_str("enc"), p.enc.clone()));
    ps.push((string_of_str("cpi"), p.cpi.clone()));
    ps.push((string_of_str("openc"), p.openc.clone()));
    assert(params_view(ps@) =~= work_list_query_of(*p));
    ps
}


// ------------------------------------------------------------ the work list

/// The pattern of a date inside the deadline text.
pub const END_DATE_PATTERN: &'static str = "\\d{4}[-/]\\d{1,2}[-/]\\d{1,2}";

/// Per `.ulDiv li` entry, the elements below it that match `sel`.
pub open spec fn work_parts(html: Seq<char>, sel: Seq<char>) -> Seq<Seq<ElementModel>> {
    match html_select_in(html, ".ulDiv li"@, sel) {
        Some(g) => g,
        None => Seq::empty(),
    }
}

/// Per `.ulDiv li` entry, per `span.pt5` below it, its `strong` elements.
pub open spec fn work_strongs(html: Seq<char>) -> Seq<Seq<Seq<ElementModel>>> {
    match html_select_in2(html, ".ulDiv li"@, "span.pt5"@, "strong"@) {
        Some(g) => g,
        None => Seq::empty(),
    }
}

/// Entry `k` of a list of lists, empty when there is none.
pub open spec fn entry_part<T>(parts: Seq<Seq<T>>, k: int) -> Seq<T> {
    if 0 <= k < parts.len() {
        parts[k]
    } else {
        Seq::empty()
    }
}

/// The text of an optional string.
pub open spec fn opt_seq(o: Option<String>) -> Option<Seq<char>> {
    match o {
        Some(s) => Some(s@),
        None => None,
    }
}

/// The name of a work: its link's `title` trimmed when not empty, else
/// the link's text with whitespace collapsed.
pub open spec fn work_name_of(a: ElementModel) -> Seq<char> {
    match attr_lookup(a.attrs, "title"@) {
        Some(t) => if trim(t).len() > 0 {
            trim(t)
        } else {
            collapse_ws(a.text)
        },
        None => collapse_ws(a.text),
    }
}

/// The raw status: the first `strong` of the last `span.pt5`, whitespace
/// collapsed, or empty.
pub open spec fn status_raw_of(strongs: Seq<Seq<ElementModel>>) -> Seq<char> {
    if strongs.len() > 0 && strongs.last().len() > 0 {
        collapse_ws(strongs.last()[0].text)
    } else {
        Seq::empty()
    }
}

/// The deadline: the second `span.pt5`'s text (whitespace collapsed), cut
/// to the date it holds when it holds one; "无限制" when that text is
/// missing or empty.
pub open spec fn end_time_of(spans: Seq<ElementModel>) -> Seq<char> {
    if spans.len() >= 2 && collapse_ws(spans[1].text).len() > 0 {
        let t = collapse_ws(spans[1].text);
        match regex_first(END_DATE_PATTERN@, t) {
            Some(m) => m,
            None => t,
        }
    } else {
        "无限制"@
    }
}

/// The score: the first `.titOper span.fl` text (whitespace collapsed)
/// when not empty, else "暂无成绩".
pub open spec fn result_of(results: Seq<ElementModel>) -> Seq<char> {
    if results.len() > 0 && collapse_ws(results[0].text).len() > 0 {
        collapse_ws(results[0].text)
    } else {
        "暂无成绩"@
    }
}

/// Whether `it` is the work read from an entry whose first link is `links[0]`.
pub open spec fn work_item_of(
    it: HomeworkItem,
    links: Seq<ElementModel>,
    spans: Seq<ElementModel>,
    strongs: Seq<Seq<ElementModel>>,
    results: Seq<ElementModel>,
    course_name: Seq<char>,
) -> bool {
    let st = status_of(status_raw_of(strongs));
    &&& links.len() > 0
    &&& it.course_name@ == course_name
    &&& it.work_name@ == work_name_of(links[0])
    &&& opt_seq(it.work_url) == attr_lookup(links[0].attrs, "href"@)
    &&& it.status@ == st.0
    &&& it.status_code@ == st.1
    &&& it.end_time@ == end_time_of(spans)
    &&& it.result_num@ == result_of(results)
}

/// The entries below `n` that have a `.titTxt a` link.
pub open spec fn work_positions_below(links: Seq<Seq<ElementModel>>, n: int) -> Seq<int> {
    Seq::new(n as nat, |k: int| k).filter(|k: int| links[k].len() > 0)
}

/// Whether `items` are the works of the first `n` entries of the page.
pub open spec fn work_list_prefix(items: Seq<HomeworkItem>, html: Seq<char>, course_name: Seq<char>, n: int) -> bool {
    let links = work_parts(html, ".titTxt a"@);
    let pos = work_positions_below(links, n);
    &&& items.len() == pos.len()
    &&& forall|i: int|
        0 <= i < pos.len() ==> work_item_of(
            #[trigger] items[i],
            links[pos[i]],
            entry_part(work_parts(html, "span.pt5"@), pos[i]),
            entry_part(work_strongs(html), pos[i]),
            entry_part(work_parts(html, ".titOper span.fl"@), pos[i]),
            course_name,
        )
}

/// Whether `items` are the works of the homework list page, in page order:
/// one per `.ulDiv li` entry that has a `.titTxt a` link.
pub open spec fn work_list_of(items: Seq<HomeworkItem>, html: Seq<char>, course_name: Seq<char>) -> bool {
    work_list_prefix(items, html, course_name, work_parts(html, ".titTxt a"@).len() as int)
}

proof fn lemma_work_positions_step(links: Seq<Seq<ElementModel>>, k: int)
    requires
        0 <= k,
    ensures
        work_positions_below(links, k + 1) == if links[k].len() > 0 {
            work_positions_below(links, k).push(k)
        } else {
            work_positions_below(links, k)
        },
{
    let a = Seq::new((k + 1) as nat, |j: int| j);
    let b = Seq::new(k as nat, |j: int| j);
    assert(a.drop_last() == b);
    reveal(Seq::filter);
}

fn work_item_from(
    links: &Vec<HtmlElement>,
    spans: &Vec<HtmlElement>,
    strongs: &Vec<Vec<HtmlElement>>,
    results: &Vec<HtmlElement>,
    course_name: &str,
) -> (r: Option<HomeworkItem>)
    ensures
        match r {
            Some(it) => work_item_of(
                it,
                elements_model(links@),
                elements_model(spans@),
                groups_model(strongs@),
                elements_model(results@),
                course_name@,
            ),
            None => links@.len() == 0,
        },
{
    if links.len() == 0 {
        return None;
    }
    let a = &links[0];
    assert(elements_model(links@)[0] == element_model(*a));
    let work_name = match element_attr(a, "title") {
        Some(t) => {
            let tt = trim_string(t.as_str());
            if tt.as_str().is_empty() {
                collapse_ws_str(a.text.as_str())
            } else {
                tt
            }
        },
        None => collapse_ws_str(a.text.as_str()),
    };
    let work_url = element_attr(a, "href");
    let status_raw = if strongs.len() > 0 && strongs[strongs.len() - 1].len() > 0 {
        let last = &strongs[strongs.len() - 1];
        assert(groups_model(strongs@).last() == elements_model(last@));
        assert(elements_model(last@)[0] == element_model(last@[0]));
        collapse_ws_str(last[0].text.as_str())
    } else {
        String::new()
    };
    let (status, status_code) = map_status(status_raw.as_str());
    let end_time = if spans.len() >= 2 {
        assert(elements_model(spans@)[1] == element_model(spans@[1]));
        let t = collapse_ws_str(spans[1].text.as_str());
        if t.as_str().is_empty() {
            string_of_str("无限制")
        } else {
            match first_match(END_DATE_PATTERN, t.as_str()) {
                Some(m) => m,
                None => t,
            }
        }
    } else {
        string_of_str("无限制")
    };
    let result_num = if results.len() > 0 {
        assert(elements_model(results@)[0] == element_model(results@[0]));
        let t = collapse_ws_str(results[0].text.as_str());
        if t.as_str().is_empty() {
            string_of_str("暂无成绩")
        } else {
            t
        }
    } else {
        string_of_str("暂无成绩")
    };
    Some(
        HomeworkItem {
            course_name: string_of_str(course_name),
            work_name,
            status,
            status_code,
            end_time,
            result_num,
            work_url,
        },
    )
}

fn groups_or_empty<T>(g: Option<Vec<Vec<T>>>) -> (r: Vec<Vec<T>>)
    ensures
        r@ == (match g {
            Some(v) => v@,
            None => Seq::<Vec<T>>::empty(),
        }),
{
    match g {
        Some(v) => v,
        None => Vec::new(),
    }
}

/// `parse_work_list`: the works of the homework list page.
pub fn parse_work_list(html: &str, course_name: &str) -> (r: Vec<HomeworkItem>)
    ensures
        work_list_of(r@, html@, course_name@),
{
    let links = groups_or_empty(select_in(html, ".ulDiv li", ".titTxt a"));
    let spans = groups_or_empty(select_in(html, ".ulDiv li", "span.pt5"));
    let results = groups_or_empty(select_in(html, ".ulDiv li", ".titOper span.fl"));
    let strongs = groups_or_empty(select_in2(html, ".ulDiv li", "span.pt5", "strong"));
    let ghost lm = work_parts(html@, ".titTxt a"@);
    let ghost sm = work_parts(html@, "span.pt5"@);
    let ghost rm = work_parts(html@, ".titOper span.fl"@);
    let ghost gm = work_strongs(html@);
    assert(lm =~= groups_model(links@));
    assert(sm =~= groups_model(spans@));
    assert(rm =~= groups_model(results@));
    assert(gm =~= groups2_model(strongs@));
    let no_elements: Vec<HtmlElement> = Vec::new();
    let no_groups: Vec<Vec<HtmlElement>> = Vec::new();
    let mut out: Vec<HomeworkItem> = Vec::new();
    let mut k: usize = 0;
    while k < links.len()
        invariant
            k <= links.len(),
            lm == groups_model(links@),
            sm == groups_model(spans@),
            rm == groups_model(results@),
            gm == groups2_model(strongs@),
            lm == work_parts(html@, ".titTxt a"@),
            sm == work_parts(html@, "span.pt5"@),
            rm == work_parts(html@, ".titOper span.fl"@),
            gm == work_strongs(html@),
            no_elements@.len() == 0,
            no_groups@.len() == 0,
            work_list_prefix(out@, html@, course_name@, k as int),
        decreases links.len() - k,
    {
        let s: &Vec<HtmlElement> = if k < spans.len() { &spans[k] } else { &no_elements };
        let r: &Vec<HtmlElement> = if k < results.len() { &results[k] } else { &no_elements };
        let g: &Vec<Vec<HtmlElement>> = if k < strongs.len() { &strongs[k] } else { &no_groups };
        assert(elements_model(s@) == entry_part(sm, k as int));
        assert(elements_model(r@) == entry_part(rm, k as int));
        assert(groups_model(g@) == entry_part(gm, k as int));
        assert(elements_model(links@[k as int]@) == lm[k as int]);
        match work_item_from(&links[k], s, g, r, course_name) {
            Some(it) => {
                out.push(it);
                proof { lemma_work_positions_step(lm, k as int); }
            },
            None => {
                proof { lemma_work_positions_step(lm, k as int); }
            },
        }
        k = k + 1;
    }
    out
}

} // verus!
