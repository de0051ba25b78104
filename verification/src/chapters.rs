//! Chapters of a course and their task points: reading the chapter tree,
//! ordering it by label, merging the per-chapter job counts, and extracting
//! the task points embedded in the chapter cards.
use vstd::prelude::*;
use crate::client::ClientError;
use crate::json::{
    JsonValue, json_get, opt_get, opt_at, opt_str, json_str, json_to_i64, json_to_i32,
    field_i32_or_zero,
};
use crate::json::{parsed_or_null, parse_json_or_null, json_i64, deref_opt};
use crate::markup::{IframeCap, iframes, caps_view, iframe_iter};
use crate::digest::{inf_enc_sign, inf_enc_of};
use crate::text::{
    str_eq, trim, str_chars, string_of_chars, string_of_str, parse_i32, parse_i32_chars,
    trim_chars, int_dec, i64_to_string, push_str, string_push,
};

verus! {

/// A chapter node of a course.
pub struct ChapterInfo {
    pub chapter_id: i64,
    pub name: String,
    pub label: String,
    pub layer: i32,
    pub jobs: i32,
    pub point_total: i32,
    pub point_finished: i32,
}

/// A task point found in a chapter card.
pub struct TaskPointInfo {
    /// `video`, `document`, `work`, or the card module name as it stands.
    pub kind: String,
    pub title: String,
    pub chapter_id: i64,
    pub chapter_label: String,
    pub object_id: Option<String>,
    pub work_id: Option<String>,
    pub job_id: Option<String>,
    pub card_index: i32,
}

/// A copy of an optional string.
pub fn copy_opt_string(o: &Option<String>) -> (r: Option<String>)
    ensures
        r == *o,
{
    match o {
        Some(s) => Some(s.clone()),
        None => None,
    }
}

impl ChapterInfo {
    /// A copy of the chapter.
    pub fn copy(&self) -> (r: ChapterInfo)
        ensures
            r == *self,
    {
        ChapterInfo {
            chapter_id: self.chapter_id,
            name: self.name.clone(),
            label: self.label.clone(),
            layer: self.layer,
            jobs: self.jobs,
            point_total: self.point_total,
            point_finished: self.point_finished,
        }
    }
}

impl TaskPointInfo {
    /// A copy of the task point.
    pub fn copy(&self) -> (r: TaskPointInfo)
        ensures
            r == *self,
    {
        TaskPointInfo {
            kind: self.kind.clone(),
            title: self.title.clone(),
            chapter_id: self.chapter_id,
            chapter_label: self.chapter_label.clone(),
            object_id: copy_opt_string(&self.object_id),
            work_id: copy_opt_string(&self.work_id),
            job_id: copy_opt_string(&self.job_id),
            card_index: self.card_index,
        }
    }
}

// ---------------------------------------------------------------- chapter list

/// Text of an optional string field, empty when absent or not a string.
pub open spec fn str_field_or_empty(v: JsonValue, key: Seq<char>) -> Seq<char> {
    match json_get(v, key) {
        Some(x) => match json_str(x) {
            Some(s) => s,
            None => Seq::empty(),
        },
        None => Seq::empty(),
    }
}

/// A knowledge node yields a chapter when it has an integer `id` and both
/// `layer` and `jobcount` fields.
pub open spec fn yields_chapter(cha: JsonValue) -> bool {
    &&& json_get(cha, "id"@) matches Some(id) && json_to_i64(id) is Some
    &&& json_get(cha, "layer"@) is Some
    &&& json_get(cha, "jobcount"@) is Some
}

/// The chapter read from a qualifying knowledge node; job counts start at 0.
pub open spec fn chapter_of(c: ChapterInfo, cha: JsonValue) -> bool {
    &&& c.chapter_id == json_to_i64(json_get(cha, "id"@)->0)->0
    &&& c.name@ == trim(str_field_or_empty(cha, "name"@))
    &&& c.label@ == str_field_or_empty(cha, "label"@)
    &&& c.layer == (match json_to_i32(json_get(cha, "layer"@)->0) {
        Some(n) => n,
        None => 0,
    })
    &&& c.jobs == (match json_to_i32(json_get(cha, "jobcount"@)->0) {
        Some(n) => n,
        None => 0,
    })
    &&& c.point_total == 0
    &&& c.point_finished == 0
}

fn str_field_or_empty_exec(v: &JsonValue, key: &str) -> (r: Vec<char>)
    ensures
        r@ == str_field_or_empty(*v, key@),
{
    match v.get(key) {
        Some(x) => match x.as_str() {
            Some(s) => str_chars(s.as_str()),
            None => Vec::new(),
        },
        None => Vec::new(),
    }
}

/// One knowledge node as a chapter, if it yields one.
pub fn chapter_from_json(cha: &JsonValue) -> (r: Option<ChapterInfo>)
    ensures
        match r {
            Some(c) => yields_chapter(*cha) && chapter_of(c, *cha),
            None => !yields_chapter(*cha),
        },
{
    let id = match cha.get("id") {
        Some(v) => match v.to_i64() {
            Some(n) => n,
            None => return None,
        },
        None => return None,
    };
    let name = trim_chars(&str_field_or_empty_exec(cha, "name"));
    let label = str_field_or_empty_exec(cha, "label");
    let layer = match cha.get("layer") {
        Some(v) => match v.to_i32() {
            Some(n) => n,
            None => 0,
        },
        None => return None,
    };
    let jobs = match cha.get("jobcount") {
        Some(v) => match v.to_i32() {
            Some(n) => n,
            None => 0,
        },
        None => return None,
    };
    Some(
        ChapterInfo {
            chapter_id: id,
            name: string_of_chars(&name),
            label: string_of_chars(&label),
            layer,
            jobs,
            point_total: 0,
            point_finished: 0,
        },
    )
}

/// The nodes among `nodes` that yield chapters, in order.
pub open spec fn chapter_nodes_of(nodes: Seq<JsonValue>) -> Seq<JsonValue> {
    nodes.filter(|n: JsonValue| yields_chapter(n))
}

/// Whether `cs` are the chapters that `nodes` yield, in order.
pub open spec fn chapters_of_nodes(cs: Seq<ChapterInfo>, nodes: Seq<JsonValue>) -> bool {
    let kept = chapter_nodes_of(nodes);
    &&& cs.len() == kept.len()
    &&& forall|i: int| 0 <= i < kept.len() ==> chapter_of(#[trigger] cs[i], kept[i])
}

/// The chapters of a list of knowledge nodes, in node order.
pub fn chapters_from_nodes(nodes: &Vec<JsonValue>) -> (r: Vec<ChapterInfo>)
    ensures
        chapters_of_nodes(r@, nodes@),
{
    let mut out: Vec<ChapterInfo> = Vec::new();
    let mut i: usize = 0;
    while i < nodes.len()
        invariant
            i <= nodes.len(),
            chapters_of_nodes(out@, nodes@.subrange(0, i as int)),
        decreases nodes.len() - i,
    {
        let ghost pre = nodes@.subrange(0, i as int);
        let ghost next = nodes@.subrange(0, i + 1);
        assert(next.drop_last() == pre);
        reveal(Seq::filter);
        match chapter_from_json(&nodes[i]) {
            Some(c) => {
                out.push(c);
                assert(chapter_nodes_of(next) == chapter_nodes_of(pre).push(nodes@[i as int]));
            },
            None => {
                assert(chapter_nodes_of(next) == chapter_nodes_of(pre));
            },
        }
        i = i + 1;
    }
    assert(nodes@.subrange(0, nodes.len() as int) == nodes@);
    out
}

// ------------------------------------------------------------- label ordering

/// `label.split('.')`: the pieces between dots, empty ones included.
pub open spec fn split_dot(s: Seq<char>) -> Seq<Seq<char>>
    decreases s.len(),
{
    if s.len() == 0 {
        seq![Seq::empty()]
    } else {
        let p = split_dot(s.drop_last());
        if s.last() == '.' {
            p.push(Seq::empty())
        } else {
            p.update(p.len() - 1, p.last().push(s.last()))
        }
    }
}

/// The pieces that parse as `i32`, parsed, in order.
pub open spec fn parsed_pieces(ps: Seq<Seq<char>>) -> Seq<i32>
    decreases ps.len(),
{
    if ps.len() == 0 {
        Seq::empty()
    } else {
        let p = parsed_pieces(ps.drop_last());
        match parse_i32(ps.last()) {
            Some(v) => p.push(v),
            None => p,
        }
    }
}

/// The sort key of a chapter label: `label.split('.')` parsed as numbers,
/// unparsable pieces dropped.
pub open spec fn label_key(label: Seq<char>) -> Seq<i32> {
    parsed_pieces(split_dot(label))
}

pub proof fn lemma_split_nonempty(s: Seq<char>)
    ensures
        split_dot(s).len() >= 1,
    decreases s.len(),
{
    if s.len() > 0 {
        lemma_split_nonempty(s.drop_last());
    }
}

/// The sort key of a label.
pub fn label_key_exec(label: &str) -> (r: Vec<i32>)
    ensures
        r@ == label_key(label@),
{
    let s = str_chars(label);
    let mut key: Vec<i32> = Vec::new();
    let mut cur: Vec<char> = Vec::new();
    let mut i: usize = 0;
    assert(s@.subrange(0, 0) == Seq::<char>::empty());
    while i < s.len()
        invariant
            i <= s.len(),
            split_dot(s@.subrange(0, i as int)).len() >= 1,
            key@ == parsed_pieces(split_dot(s@.subrange(0, i as int)).drop_last()),
            cur@ == split_dot(s@.subrange(0, i as int)).last(),
        decreases s.len() - i,
    {
        let ghost pre = s@.subrange(0, i as int);
        let ghost next = s@.subrange(0, i + 1);
        assert(next.drop_last() == pre);
        assert(next.last() == s@[i as int]);
        let ghost p = split_dot(pre);
        if s[i] == '.' {
            match parse_i32_chars(&cur) {
                Some(v) => key.push(v),
                None => {},
            }
            assert(split_dot(next) == p.push(Seq::empty()));
            assert(split_dot(next).drop_last() == p);
            assert(p.drop_last() == split_dot(pre).drop_last());
            cur = Vec::new();
        } else {
            cur.push(s[i]);
            assert(split_dot(next) == p.update(p.len() - 1, p.last().push(s@[i as int])));
            assert(split_dot(next).drop_last() == p.drop_last());
        }
        i = i + 1;
    }
    assert(s@.subrange(0, s.len() as int) == s@);
    let ghost whole = split_dot(s@);
    assert(whole.drop_last().push(whole.last()) == whole);
    match parse_i32_chars(&cur) {
        Some(v) => key.push(v),
        None => {},
    }
    key
}

/// `Vec<i32>` ordering: lexicographic, a proper prefix first.
pub open spec fn key_lt(a: Seq<i32>, b: Seq<i32>) -> bool
    decreases a.len(),
{
    if b.len() == 0 {
        false
    } else if a.len() == 0 {
        true
    } else if a[0] < b[0] {
        true
    } else if a[0] > b[0] {
        false
    } else {
        key_lt(a.drop_first(), b.drop_first())
    }
}

/// Whether `a < b` as `Vec<i32>` compares.
pub fn key_lt_exec(a: &Vec<i32>, b: &Vec<i32>) -> (r: bool)
    ensures
        r == key_lt(a@, b@),
{
    let mut i: usize = 0;
    assert(a@.subrange(0, a.len() as int) == a@);
    assert(b@.subrange(0, b.len() as int) == b@);
    while i < a.len() && i < b.len()
        invariant
            i <= a.len(),
            i <= b.len(),
            key_lt(a@, b@) == key_lt(
                a@.subrange(i as int, a.len() as int),
                b@.subrange(i as int, b.len() as int),
            ),
        decreases a.len() - i,
    {
        let ghost x = a@.subrange(i as int, a.len() as int);
        let ghost y = b@.subrange(i as int, b.len() as int);
        assert(x[0] == a@[i as int] && y[0] == b@[i as int]);
        if a[i] < b[i] {
            return true;
        }
        if a[i] > b[i] {
            return false;
        }
        assert(x.drop_first() == a@.subrange(i + 1, a.len() as int));
        assert(y.drop_first() == b@.subrange(i + 1, b.len() as int));
        i = i + 1;
    }
    let ghost x = a@.subrange(i as int, a.len() as int);
    let ghost y = b@.subrange(i as int, b.len() as int);
    i == a.len() && i < b.len()
}

/// The sort key of a chapter.
pub open spec fn chapter_key(c: ChapterInfo) -> Seq<i32> {
    label_key(c.label@)
}

/// Inserts `x` into a sorted list after every element whose key is not
/// greater than its own.
pub open spec fn insert_sorted(s: Seq<ChapterInfo>, x: ChapterInfo) -> Seq<ChapterInfo>
    decreases s.len(),
{
    if s.len() == 0 {
        seq![x]
    } else if key_lt(chapter_key(x), chapter_key(s.last())) {
        insert_sorted(s.drop_last(), x).push(s.last())
    } else {
        s.push(x)
    }
}

/// A stable sort of the chapters by label key (`sort_by` with `Vec<i32>`
/// comparison), written as an insertion sort.
pub open spec fn sort_by_label(s: Seq<ChapterInfo>) -> Seq<ChapterInfo>
    decreases s.len(),
{
    if s.len() == 0 {
        Seq::empty()
    } else {
        insert_sorted(sort_by_label(s.drop_last()), s.last())
    }
}

proof fn lemma_insert_at(s: Seq<ChapterInfo>, x: ChapterInfo, j: int)
    requires
        0 <= j <= s.len(),
        forall|t: int| j <= t < s.len() ==> key_lt(chapter_key(x), #[trigger] chapter_key(s[t])),
        j == 0 || !key_lt(chapter_key(x), chapter_key(s[j - 1])),
    ensures
        insert_sorted(s, x) == s.subrange(0, j).push(x) + s.subrange(j, s.len() as int),
    decreases s.len(),
{
    if s.len() == j {
        if s.len() == 0 {
            assert(s.subrange(0, 0).push(x) + s.subrange(0, 0) == seq![x]);
        } else {
            assert(s.subrange(0, j) == s);
            assert(s.subrange(j, s.len() as int) == Seq::<ChapterInfo>::empty());
        }
    } else {
        assert(key_lt(chapter_key(x), chapter_key(s[s.len() - 1])));
        let d = s.drop_last();
        assert forall|t: int| j <= t < d.len() implies key_lt(
            chapter_key(x),
            #[trigger] chapter_key(d[t]),
        ) by {
            assert(d[t] == s[t]);
        }
        if j > 0 {
            assert(d[j - 1] == s[j - 1]);
        }
        lemma_insert_at(d, x, j);
        assert(d.subrange(0, j) == s.subrange(0, j));
        assert(d.subrange(j, d.len() as int).push(s.last()) == s.subrange(j, s.len() as int));
        assert((s.subrange(0, j).push(x) + d.subrange(j, d.len() as int)).push(s.last()) == s.subrange(
            0,
            j,
        ).push(x) + s.subrange(j, s.len() as int));
    }
}

/// Sorts chapters by label key, keeping the order of equal keys.
pub fn sort_chapters(v: &Vec<ChapterInfo>) -> (r: Vec<ChapterInfo>)
    ensures
        r@ == sort_by_label(v@),
{
    let mut res: Vec<ChapterInfo> = Vec::new();
    let mut keys: Vec<Vec<i32>> = Vec::new();
    let mut i: usize = 0;
    while i < v.len()
        invariant
            i <= v.len(),
            res@ == sort_by_label(v@.subrange(0, i as int)),
            keys@.len() == res@.len(),
            forall|t: int| 0 <= t < keys@.len() ==> #[trigger] keys@[t]@ == chapter_key(res@[t]),
        decreases v.len() - i,
    {
        let x = v[i].copy();
        let kx = label_key_exec(x.label.as_str());
        let mut j = res.len();
        while j > 0 && key_lt_exec(&kx, &keys[j - 1])
            invariant
                j <= res@.len(),
                keys@.len() == res@.len(),
                kx@ == chapter_key(x),
                forall|t: int| 0 <= t < keys@.len() ==> #[trigger] keys@[t]@ == chapter_key(res@[t]),
                forall|t: int| j <= t < res@.len() ==> key_lt(kx@, #[trigger] chapter_key(res@[t])),
            decreases j,
        {
            assert(keys@[j - 1]@ == chapter_key(res@[j - 1]));
            j = j - 1;
        }
        proof {
            if j > 0 {
                assert(keys@[j - 1]@ == chapter_key(res@[j - 1]));
            }
            lemma_insert_at(res@, x, j as int);
            let next = v@.subrange(0, i + 1);
            assert(next.drop_last() == v@.subrange(0, i as int));
            assert(next.last() == x);
        }
        let ghost old_res = res@;
        let ghost old_keys = keys@;
        res.insert(j, x);
        keys.insert(j, kx);
        assert(res@ == old_res.subrange(0, j as int).push(x) + old_res.subrange(
            j as int,
            old_res.len() as int,
        ));
        assert forall|t: int| 0 <= t < keys@.len() implies #[trigger] keys@[t]@ == chapter_key(
            res@[t],
        ) by {
            if t < j {
                assert(keys@[t] == old_keys[t] && res@[t] == old_res[t]);
            } else if t > j {
                assert(keys@[t] == old_keys[t - 1] && res@[t] == old_res[t - 1]);
            }
        }
        i = i + 1;
    }
    assert(v@.subrange(0, v.len() as int) == v@);
    res
}

/// The knowledge nodes of a chapter-list reply:
/// `data[0].course.data[0].knowledge.data`.
pub open spec fn knowledge_of(first: JsonValue) -> Option<JsonValue> {
    opt_get(opt_get(opt_at(opt_get(json_get(first, "course"@), "data"@), 0), "knowledge"@), "data"@)
}

/// `list_chapters` after the first request: the chapter list of the reply,
/// ordered by label, with job counts still at 0.
pub fn chapters_from_list(body: &JsonValue) -> (r: Result<Vec<ChapterInfo>, ClientError>)
    ensures
        match r {
            Ok(cs) => json_get(*body, "data"@) matches Some(JsonValue::Array(data)) && data@.len()
                > 0 && match knowledge_of(data@[0]) {
                Some(JsonValue::Array(nodes)) => exists|raw: Seq<ChapterInfo>|
                    chapters_of_nodes(raw, nodes@) && cs@ == #[trigger] sort_by_label(raw),
                _ => cs@.len() == 0,
            },
            Err(e) => e is Api && (match json_get(*body, "data"@) {
                Some(JsonValue::Array(data)) => data@.len() == 0 && e->Api_0@ == "章节列表拉取失败"@,
                _ => e->Api_0@ == "章节列表为空"@,
            }),
        },
{
    let data = match body.get("data") {
        Some(d) => match d.as_array() {
            Some(a) => a,
            None => return Err(ClientError::Api(string_of_str("章节列表为空"))),
        },
        None => return Err(ClientError::Api(string_of_str("章节列表为空"))),
    };
    if data.len() == 0 {
        return Err(ClientError::Api(string_of_str("章节列表拉取失败")));
    }
    let first = &data[0];
    let knowledge = match first.get("course") {
        Some(c) => match c.get("data") {
            Some(d) => match d.at(0) {
                Some(e) => match e.get("knowledge") {
                    Some(k) => k.get("data"),
                    None => None,
                },
                None => None,
            },
            None => None,
        },
        None => None,
    };
    assert(deref_knowledge(knowledge) == knowledge_of(data@[0]));
    match knowledge {
        Some(k) => match k.as_array() {
            Some(nodes) => {
                let raw = chapters_from_nodes(nodes);
                let sorted = sort_chapters(&raw);
                assert(chapters_of_nodes(raw@, nodes@) && sorted@ == sort_by_label(raw@));
                Ok(sorted)
            },
            None => Ok(Vec::new()),
        },
        None => Ok(Vec::new()),
    }
}

/// An optional borrowed value as an owned one.
pub open spec fn deref_knowledge(o: Option<&JsonValue>) -> Option<JsonValue> {
    match o {
        Some(x) => Some(*x),
        None => None,
    }
}

// ------------------------------------------------------------ job counts

/// The chapter with the job counts of its entry in the status map: the
/// total is `totalcount`, or `unfinishcount` when the total is 0 and some
/// are unfinished; the finished count is `finishcount`. A chapter without an
/// entry keeps its counts.
pub open spec fn with_status(c: ChapterInfo, map: JsonValue) -> ChapterInfo {
    match json_get(map, int_dec(c.chapter_id as int)) {
        Some(pd) => {
            let unfinished = field_i32_or_zero(pd, "unfinishcount"@);
            let total = field_i32_or_zero(pd, "totalcount"@);
            let finished = field_i32_or_zero(pd, "finishcount"@);
            ChapterInfo {
                point_total: if unfinished != 0 && total == 0 {
                    unfinished
                } else {
                    total
                },
                point_finished: finished,
                ..c
            }
        },
        None => c,
    }
}

/// The fields requested with the chapter list.
pub const CHAPTER_FIELDS: &'static str = "id,bbsid,classscore,isstart,allowdownload,chatid,name,state,isfiled,visiblescore,begindate,coursesetting.fields(id,courseid,hiddencoursecover,coursefacecheck),course.fields(id,name,infocontent,objectid,app,bulletformat,mappingcourseid,imageurl,teacherfactor,jobcount,knowledge.fields(id,name,indexOrder,parentnodeid,status,layer,label,jobcount,begintime,endtime,attachment.fields(id,type,objectid,extension).type(video)))";

/// The query of the chapter-list request.
pub open spec fn chapter_list_query_of(class_key: i64, cpi: i64) -> Seq<(Seq<char>, Seq<char>)> {
    seq![
        ("id"@, int_dec(class_key as int)),
        ("personid"@, int_dec(cpi as int)),
        ("fields"@, CHAPTER_FIELDS@),
        ("view"@, "json"@),
    ]
}

/// `list_chapters`' first query.
pub fn chapter_list_query(class_key: i64, cpi: i64) -> (r: Vec<(String, String)>)
    ensures
        crate::attachment::params_view(r@) == chapter_list_query_of(class_key, cpi),
{
    let mut ps: Vec<(String, String)> = Vec::new();
    ps.push((string_of_str("id"), i64_to_string(class_key)));
    ps.push((string_of_str("personid"), i64_to_string(cpi)));
    ps.push((string_of_str("fields"), string_of_str(CHAPTER_FIELDS)));
    ps.push((string_of_str("view"), string_of_str("json")));
    assert(crate::attachment::params_view(ps@) =~= chapter_list_query_of(class_key, cpi));
    ps
}

/// The form of the job-status request.
pub open spec fn point_status_form_of(
    cs: Seq<ChapterInfo>,
    class_id: i64,
    time_ms: Seq<char>,
    puid: i64,
    cpi: i64,
    course_id: i64,
) -> Seq<(Seq<char>, Seq<char>)> {
    seq![
        ("view"@, "json"@),
        ("nodes"@, join_ids(cs)),
        ("clazzid"@, int_dec(class_id as int)),
        ("time"@, time_ms),
        ("userid"@, int_dec(puid as int)),
        ("cpi"@, int_dec(cpi as int)),
        ("courseid"@, int_dec(course_id as int)),
    ]
}

/// `list_chapters`' job-status form; `time_ms` is the current time in
/// milliseconds.
pub fn point_status_form(
    cs: &Vec<ChapterInfo>,
    class_id: i64,
    time_ms: &str,
    puid: i64,
    cpi: i64,
    course_id: i64,
) -> (r: Vec<(String, String)>)
    ensures
        crate::attachment::params_view(r@) == point_status_form_of(cs@, class_id, time_ms@, puid, cpi, course_id),
{
    let mut ps: Vec<(String, String)> = Vec::new();
    ps.push((string_of_str("view"), string_of_str("json")));
    ps.push((string_of_str("nodes"), chapter_nodes(cs)));
    ps.push((string_of_str("clazzid"), i64_to_string(class_id)));
    ps.push((string_of_str("time"), string_of_str(time_ms)));
    ps.push((string_of_str("userid"), i64_to_string(puid)));
    ps.push((string_of_str("cpi"), i64_to_string(cpi)));
    ps.push((string_of_str("courseid"), i64_to_string(course_id)));
    assert(crate::attachment::params_view(ps@) =~= point_status_form_of(cs@, class_id, time_ms@, puid, cpi, course_id));
    ps
}

/// The answer to the job-status request, taken into the chapters: merged
/// when the request succeeded (`success`, a 2xx status) and its body read
/// as JSON (`body`); otherwise the chapters stay as they are.
pub fn apply_status_reply(chapters: &mut Vec<ChapterInfo>, success: bool, body: Option<JsonValue>)
    ensures
        final(chapters)@.len() == old(chapters)@.len(),
        forall|i: int|
            0 <= i < old(chapters)@.len() ==> #[trigger] final(chapters)@[i] == (if success
                && body is Some {
                with_status(old(chapters)@[i], body->0)
            } else {
                old(chapters)@[i]
            }),
{
    if success {
        if let Some(map) = body {
            apply_point_status(chapters, &map);
        }
    }
}

/// Merges the job-status map (`myjobsnodesmap`) into the chapters.
pub fn apply_point_status(chapters: &mut Vec<ChapterInfo>, map: &JsonValue)
    ensures
        final(chapters)@.len() == old(chapters)@.len(),
        forall|i: int|
            0 <= i < old(chapters)@.len() ==> #[trigger] final(chapters)@[i] == with_status(
                old(chapters)@[i],
                *map,
            ),
{
    let mut i: usize = 0;
    while i < chapters.len()
        invariant
            i <= chapters.len(),
            chapters@.len() == old(chapters)@.len(),
            forall|t: int| 0 <= t < i ==> #[trigger] chapters@[t] == with_status(old(chapters)@[t], *map),
            forall|t: int| i <= t < chapters@.len() ==> #[trigger] chapters@[t] == old(chapters)@[t],
        decreases chapters.len() - i,
    {
        let key = i64_to_string(chapters[i].chapter_id);
        match map.get(key.as_str()) {
            Some(pd) => {
                let unfinished = pd.field_i32_or_zero("unfinishcount");
                let total = pd.field_i32_or_zero("totalcount");
                let finished = pd.field_i32_or_zero("finishcount");
                let mut c = chapters[i].copy();
                c.point_total = if unfinished != 0 && total == 0 {
                    unfinished
                } else {
                    total
                };
                c.point_finished = finished;
                chapters.set(i, c);
            },
            None => {},
        }
        i = i + 1;
    }
}

/// Chapter ids joined by `,`.
pub open spec fn join_ids(cs: Seq<ChapterInfo>) -> Seq<char>
    decreases cs.len(),
{
    if cs.len() == 0 {
        Seq::empty()
    } else if cs.len() == 1 {
        int_dec(cs[0].chapter_id as int)
    } else {
        join_ids(cs.drop_last()) + seq![','] + int_dec(cs.last().chapter_id as int)
    }
}

/// The `nodes` value of the job-status request.
pub fn chapter_nodes(cs: &Vec<ChapterInfo>) -> (r: String)
    ensures
        r@ == join_ids(cs@),
{
    let mut out = String::new();
    let mut i: usize = 0;
    while i < cs.len()
        invariant
            i <= cs.len(),
            out@ == join_ids(cs@.subrange(0, i as int)),
        decreases cs.len() - i,
    {
        let ghost pre = cs@.subrange(0, i as int);
        assert(cs@.subrange(0, i + 1).drop_last() == pre);
        if i > 0 {
            string_push(&mut out, ',');
        }
        let id = i64_to_string(cs[i].chapter_id);
        push_str(&mut out, id.as_str());
        if i == 0 {
            assert(out@ == int_dec(cs@[0].chapter_id as int));
        }
        i = i + 1;
    }
    assert(cs@.subrange(0, cs.len() as int) == cs@);
    out
}

// ------------------------------------------------------------ task points

/// The task-point kind of a card module.
pub open spec fn kind_of_module(m: Seq<char>) -> Seq<char> {
    if m == "insertvideo"@ {
        "video"@
    } else if m == "insertdoc"@ {
        "document"@
    } else if m == "work"@ {
        "work"@
    } else {
        m
    }
}

/// The first of two optional values that is present.
pub open spec fn first_present(a: Option<JsonValue>, b: Option<JsonValue>) -> Option<JsonValue> {
    match a {
        Some(x) => Some(x),
        None => b,
    }
}

/// The text of an optional string.
pub open spec fn opt_text(o: Option<String>) -> Option<Seq<char>> {
    match o {
        Some(s) => Some(s@),
        None => None,
    }
}

/// The task point read from one capture of card `card_index`.
pub open spec fn point_of(
    p: TaskPointInfo,
    chapter: ChapterInfo,
    card_index: int,
    cap: (Seq<char>, Seq<char>),
) -> bool {
    let data = parsed_or_null(cap.1);
    let kind = kind_of_module(cap.0);
    &&& p.kind@ == kind
    &&& p.title@ == (match opt_str(
        first_present(first_present(json_get(data, "name"@), json_get(data, "filename"@)), json_get(data, "title"@)),
    ) {
        Some(t) => t,
        None => kind,
    })
    &&& p.chapter_id == chapter.chapter_id
    &&& p.chapter_label@ == chapter.label@
    &&& opt_text(p.object_id) == opt_str(json_get(data, "objectid"@))
    &&& opt_text(p.work_id) == (match json_get(data, "workid"@) {
        Some(w) => match json_str(w) {
            Some(t) => Some(t),
            None => match json_i64(w) {
                Some(n) => Some(int_dec(n as int)),
                None => None,
            },
        },
        None => None,
    })
    &&& opt_text(p.job_id) == opt_str(first_present(json_get(data, "_jobid"@), json_get(data, "jobid"@)))
    &&& p.card_index == card_index as i32
}

/// The captures of one card, each tagged with the card's index.
pub open spec fn card_caps(i: int, card: JsonValue) -> Seq<(int, (Seq<char>, Seq<char>))> {
    match json_get(card, "description"@) {
        Some(d) => match json_str(d) {
            Some(text) => iframes(text).map_values(|c: (Seq<char>, Seq<char>)| (i, c)),
            None => Seq::empty(),
        },
        None => Seq::empty(),
    }
}

/// The captures of all cards, in card order.
pub open spec fn all_caps(cards: Seq<JsonValue>) -> Seq<(int, (Seq<char>, Seq<char>))>
    decreases cards.len(),
{
    if cards.len() == 0 {
        Seq::empty()
    } else {
        all_caps(cards.drop_last()) + card_caps(cards.len() - 1, cards.last())
    }
}

/// Whether `ps` are the task points of the captures.
pub open spec fn points_of_caps(
    ps: Seq<TaskPointInfo>,
    chapter: ChapterInfo,
    caps: Seq<(int, (Seq<char>, Seq<char>))>,
) -> bool {
    &&& ps.len() == caps.len()
    &&& forall|i: int| 0 <= i < caps.len() ==> point_of(#[trigger] ps[i], chapter, caps[i].0, caps[i].1)
}

/// The cards of a card reply, `data[0].card.data`, when it is an array.
pub open spec fn cards_of(body: JsonValue) -> Seq<JsonValue> {
    match opt_get(opt_get(opt_at(json_get(body, "data"@), 0), "card"@), "data"@) {
        Some(JsonValue::Array(a)) => a@,
        _ => Seq::empty(),
    }
}

fn str_of(v: Option<&JsonValue>) -> (r: Option<String>)
    ensures
        opt_text(r) == opt_str(deref_opt(v)),
{
    match v {
        Some(x) => match x.as_str() {
            Some(t) => Some(t.clone()),
            None => None,
        },
        None => None,
    }
}

/// The task point of one capture.
pub fn point_from_cap(chapter: &ChapterInfo, card_index: usize, cap: &IframeCap) -> (r: TaskPointInfo)
    ensures
        point_of(r, *chapter, card_index as int, (cap.module@, cap.data@)),
{
    let data = parse_json_or_null(cap.data.as_str());
    let m = cap.module.as_str();
    let kind = if str_eq(m, "insertvideo") {
        string_of_str("video")
    } else if str_eq(m, "insertdoc") {
        string_of_str("document")
    } else if str_eq(m, "work") {
        string_of_str("work")
    } else {
        cap.module.clone()
    };
    let t1 = match data.get("name") {
        Some(x) => Some(x),
        None => data.get("filename"),
    };
    let t2 = match t1 {
        Some(x) => Some(x),
        None => data.get("title"),
    };
    let title = match str_of(t2) {
        Some(t) => t,
        None => kind.clone(),
    };
    let object_id = str_of(data.get("objectid"));
    let work_id = match data.get("workid") {
        Some(w) => match w.as_str() {
            Some(t) => Some(t.clone()),
            None => match w {
                JsonValue::Number(t) => match crate::text::parse_i64_str(t.as_str()) {
                    Some(n) => Some(i64_to_string(n)),
                    None => None,
                },
                _ => None,
            },
        },
        None => None,
    };
    let j = match data.get("_jobid") {
        Some(x) => Some(x),
        None => data.get("jobid"),
    };
    let job_id = str_of(j);
    TaskPointInfo {
        kind,
        title,
        chapter_id: chapter.chapter_id,
        chapter_label: chapter.label.clone(),
        object_id,
        work_id,
        job_id,
        card_index: card_index as i32,
    }
}

/// `list_task_points` after the request: the task points of every card
/// description, card by card and capture by capture.
pub fn task_points_from_cards(body: &JsonValue, chapter: &ChapterInfo) -> (r: Vec<TaskPointInfo>)
    ensures
        points_of_caps(r@, *chapter, all_caps(cards_of(*body))),
{
    let empty: Vec<JsonValue> = Vec::new();
    let cards: &Vec<JsonValue> = match body.get("data") {
        Some(d) => match d.at(0) {
            Some(e) => match e.get("card") {
                Some(c) => match c.get("data") {
                    Some(x) => match x.as_array() {
                        Some(a) => a,
                        None => &empty,
                    },
                    None => &empty,
                },
                None => &empty,
            },
            None => &empty,
        },
        None => &empty,
    };
    assert(cards@ == cards_of(*body));
    let mut out: Vec<TaskPointInfo> = Vec::new();
    let mut i: usize = 0;
    while i < cards.len()
        invariant
            i <= cards.len(),
            points_of_caps(out@, *chapter, all_caps(cards@.subrange(0, i as int))),
        decreases cards.len() - i,
    {
        let ghost pre = cards@.subrange(0, i as int);
        let ghost next = cards@.subrange(0, i + 1);
        assert(next.drop_last() == pre);
        assert(next.last() == cards@[i as int]);
        let ghost cc = card_caps(i as int, cards@[i as int]);
        assert(all_caps(next) == all_caps(pre) + cc);
        let desc = match cards[i].get("description") {
            Some(d) => d.as_str(),
            None => None,
        };
        match desc {
            Some(text) => {
                let caps = iframe_iter(text.as_str());
                let ghost base = out@;
                let mut k: usize = 0;
                while k < caps.len()
                    invariant
                        k <= caps.len(),
                        caps_view(caps@) == iframes(text@),
                        cc == iframes(text@).map_values(|c: (Seq<char>, Seq<char>)| (i as int, c)),
                        out@.len() == base.len() + k,
                        points_of_caps(base, *chapter, all_caps(pre)),
                        out@.subrange(0, base.len() as int) == base,
                        forall|t: int|
                            0 <= t < k ==> point_of(
                                #[trigger] out@[base.len() + t],
                                *chapter,
                                cc[t].0,
                                cc[t].1,
                            ),
                    decreases caps.len() - k,
                {
                    assert(caps_view(caps@)[k as int] == (caps@[k as int].module@, caps@[k as int].data@));
                    let p = point_from_cap(chapter, i, &caps[k]);
                    out.push(p);
                    k = k + 1;
                }
                assert(out@.len() == all_caps(next).len());
                assert forall|t: int| 0 <= t < all_caps(next).len() implies point_of(
                    #[trigger] out@[t],
                    *chapter,
                    all_caps(next)[t].0,
                    all_caps(next)[t].1,
                ) by {
                    if t < base.len() {
                        assert(out@[t] == base[t]);
                        assert(all_caps(next)[t] == all_caps(pre)[t]);
                    } else {
                        let t2 = t - base.len();
                        assert(all_caps(next)[t] == cc[t2]);
                        assert(out@[base.len() + t2] == out@[t]);
                    }
                }
            },
            None => {
                assert(cc == Seq::<(int, (Seq<char>, Seq<char>))>::empty());
                assert(all_caps(next) == all_caps(pre));
            },
        }
        i = i + 1;
    }
    assert(cards@.subrange(0, cards.len() as int) == cards@);
    out
}

/// The `fields` parameter of the chapter-card request.
pub const CARD_FIELDS: &'static str = "id,parentnodeid,indexorder,label,layer,name,begintime,createtime,lastmodifytime,status,jobUnfinishedCount,clickcount,openlock,card.fields(id,knowledgeid,title,knowledgeTitile,description,cardorder).contentcard(all)";

/// The fixed token of the chapter-card request.
pub const CARD_TOKEN: &'static str = "4faa8662c59590c6f43ae9fe5b002b42";

/// The parameters of the chapter-card request before signing.
pub open spec fn card_params_ok(ps: Seq<(String, String)>, course_id: i64, chapter_id: i64, time_ms: Seq<char>) -> bool {
    &&& ps.len() == 6
    &&& ps[0].0@ == "id"@ && ps[0].1@ == int_dec(chapter_id as int)
    &&& ps[1].0@ == "courseid"@ && ps[1].1@ == int_dec(course_id as int)
    &&& ps[2].0@ == "fields"@ && ps[2].1@ == CARD_FIELDS@
    &&& ps[3].0@ == "view"@ && ps[3].1@ == "json"@
    &&& ps[4].0@ == "token"@ && ps[4].1@ == CARD_TOKEN@
    &&& ps[5].0@ == "_time"@ && ps[5].1@ == time_ms
}

/// The signed query of the chapter-card request (`list_task_points`): id,
/// course id, fields, view, token and time, then their `inf_enc`.
pub fn task_point_params(course_id: i64, chapter_id: i64, time_ms: &str) -> (r: Vec<(String, String)>)
    ensures
        r@.len() == 7,
        card_params_ok(r@.subrange(0, 6), course_id, chapter_id, time_ms@),
        r@[6].0@ == "inf_enc"@,
        r@[6].1@ == inf_enc_of(r@.subrange(0, 6)),
{
    let mut ps: Vec<(String, String)> = Vec::new();
    ps.push((string_of_str("id"), i64_to_string(chapter_id)));
    ps.push((string_of_str("courseid"), i64_to_string(course_id)));
    ps.push((string_of_str("fields"), string_of_str(CARD_FIELDS)));
    ps.push((string_of_str("view"), string_of_str("json")));
    ps.push((string_of_str("token"), string_of_str(CARD_TOKEN)));
    ps.push((string_of_str("_time"), string_of_str(time_ms)));
    let ghost before = ps@;
    inf_enc_sign(&mut ps);
    assert(ps@.subrange(0, 6) == before);
    ps
}

// ------------------------------------------------------ the ordering laws

proof fn lemma_key_lt_irreflexive(a: Seq<i32>)
    ensures
        !key_lt(a, a),
    decreases a.len(),
{
    if a.len() > 0 {
        lemma_key_lt_irreflexive(a.drop_first());
    }
}

proof fn lemma_key_lt_transitive(a: Seq<i32>, b: Seq<i32>, c: Seq<i32>)
    requires
        key_lt(a, b),
        key_lt(b, c),
    ensures
        key_lt(a, c),
    decreases a.len(),
{
    if a.len() > 0 && a[0] == b[0] && b[0] == c[0] {
        lemma_key_lt_transitive(a.drop_first(), b.drop_first(), c.drop_first());
    }
}

proof fn lemma_key_lt_total(a: Seq<i32>, b: Seq<i32>)
    requires
        a != b,
    ensures
        key_lt(a, b) || key_lt(b, a),
    decreases a.len(),
{
    if a.len() > 0 && b.len() > 0 && a[0] == b[0] {
        if a.drop_first() == b.drop_first() {
            assert(a =~= seq![a[0]] + a.drop_first());
            assert(b =~= seq![b[0]] + b.drop_first());
        }
        lemma_key_lt_total(a.drop_first(), b.drop_first());
    } else if a.len() == 0 && b.len() == 0 {
        assert(a =~= b);
    }
}

/// Not `b < a`, for the ordering by label key.
pub open spec fn label_le(a: ChapterInfo, b: ChapterInfo) -> bool {
    !key_lt(chapter_key(b), chapter_key(a))
}

/// Every entry's label key is not greater than any later entry's.
pub open spec fn sorted_by_label(s: Seq<ChapterInfo>) -> bool {
    forall|i: int, j: int| 0 <= i < j < s.len() ==> label_le(#[trigger] s[i], #[trigger] s[j])
}

proof fn lemma_label_le_transitive(a: ChapterInfo, b: ChapterInfo, c: ChapterInfo)
    requires
        label_le(a, b),
        label_le(b, c),
    ensures
        label_le(a, c),
{
    if key_lt(chapter_key(c), chapter_key(a)) {
        if chapter_key(a) == chapter_key(b) {
        } else {
            lemma_key_lt_total(chapter_key(a), chapter_key(b));
            lemma_key_lt_transitive(chapter_key(c), chapter_key(a), chapter_key(b));
        }
    }
}

proof fn lemma_insert_sorted_keeps(s: Seq<ChapterInfo>, x: ChapterInfo)
    ensures
        insert_sorted(s, x).to_multiset() =~= s.to_multiset().insert(x),
    decreases s.len(),
{
    broadcast use vstd::seq_lib::group_to_multiset_ensures;

    if s.len() == 0 {
        assert(seq![x] == Seq::<ChapterInfo>::empty().push(x));
    } else if key_lt(chapter_key(x), chapter_key(s.last())) {
        lemma_insert_sorted_keeps(s.drop_last(), x);
        assert(s.drop_last().push(s.last()) == s);
    }
}

proof fn lemma_insert_sorted_sorted(s: Seq<ChapterInfo>, x: ChapterInfo)
    requires
        sorted_by_label(s),
    ensures
        sorted_by_label(insert_sorted(s, x)),
    decreases s.len(),
{
    broadcast use vstd::seq_lib::group_to_multiset_ensures;

    let r = insert_sorted(s, x);
    if s.len() == 0 {
    } else if key_lt(chapter_key(x), chapter_key(s.last())) {
        let d = s.drop_last();
        let last = s.last();
        assert(sorted_by_label(d)) by {
            assert forall|i: int, j: int| 0 <= i < j < d.len() implies label_le(#[trigger] d[i], #[trigger] d[j]) by {
                assert(d[i] == s[i] && d[j] == s[j]);
            }
        }
        lemma_insert_sorted_sorted(d, x);
        lemma_insert_sorted_keeps(d, x);
        let q = insert_sorted(d, x);
        assert forall|i: int| 0 <= i < q.len() implies label_le(#[trigger] q[i], last) by {
            let e = q[i];
            assert(q.contains(e));
            assert(q.to_multiset().count(e) > 0);
            if e == x {
                lemma_key_lt_irreflexive(chapter_key(x));
                if key_lt(chapter_key(last), chapter_key(x)) {
                    lemma_key_lt_transitive(chapter_key(x), chapter_key(last), chapter_key(x));
                }
            } else {
                assert(d.to_multiset().count(e) > 0);
                assert(d.contains(e));
                let k = choose|k: int| 0 <= k < d.len() && d[k] == e;
                assert(s[k] == e && s[s.len() - 1] == last);
            }
        }
        assert forall|i: int, j: int| 0 <= i < j < r.len() implies label_le(#[trigger] r[i], #[trigger] r[j]) by {
            if j < q.len() {
                assert(r[i] == q[i] && r[j] == q[j]);
            } else {
                assert(r[i] == q[i] && r[j] == last);
            }
        }
    } else {
        let last = s.last();
        assert forall|i: int, j: int| 0 <= i < j < r.len() implies label_le(#[trigger] r[i], #[trigger] r[j]) by {
            if j < s.len() {
                assert(r[i] == s[i] && r[j] == s[j]);
            } else {
                assert(r[j] == x && r[i] == s[i]);
                if i < s.len() - 1 {
                    assert(label_le(s[i], s[s.len() - 1]));
                    lemma_label_le_transitive(s[i], last, x);
                }
            }
        }
    }
}

/// The chapter order: sorting by label key yields chapters in label-key
/// order and keeps every chapter, each as often as it came.
pub proof fn lemma_sort_by_label_orders(s: Seq<ChapterInfo>)
    ensures
        sorted_by_label(sort_by_label(s)),
        sort_by_label(s).to_multiset() =~= s.to_multiset(),
    decreases s.len(),
{
    broadcast use vstd::seq_lib::group_to_multiset_ensures;

    if s.len() > 0 {
        lemma_sort_by_label_orders(s.drop_last());
        lemma_insert_sorted_sorted(sort_by_label(s.drop_last()), s.last());
        lemma_insert_sorted_keeps(sort_by_label(s.drop_last()), s.last());
        assert(s.drop_last().push(s.last()) == s);
    }
}


/// `label.split('.')` glued back: the pieces joined with dots.
pub open spec fn join_dot(ps: Seq<Seq<char>>) -> Seq<char>
    decreases ps.len(),
{
    if ps.len() == 0 {
        Seq::empty()
    } else if ps.len() == 1 {
        ps[0]
    } else {
        join_dot(ps.drop_last()) + seq!['.'] + ps.last()
    }
}

/// Whether a piece of a label counts in its key: it reads as an `i32`.
pub open spec fn is_number_piece(p: Seq<char>) -> bool {
    parse_i32(p) is Some
}

/// The pieces of a label are what lies between its dots: none holds a
/// dot, and joined with dots they give the label back.
pub proof fn lemma_split_dot_pieces(s: Seq<char>)
    ensures
        join_dot(split_dot(s)) == s,
        forall|j: int| 0 <= j < split_dot(s).len() ==> !(#[trigger] split_dot(s)[j]).contains('.'),
    decreases s.len(),
{
    lemma_split_nonempty(s);
    if s.len() > 0 {
        let pre = s.drop_last();
        let p = split_dot(pre);
        lemma_split_dot_pieces(pre);
        lemma_split_nonempty(pre);
        if s.last() == '.' {
            let q = p.push(Seq::<char>::empty());
            assert(q.drop_last() == p);
            assert(join_dot(q) =~= join_dot(p) + seq!['.'] + Seq::<char>::empty());
            assert(s =~= pre + seq!['.']);
            assert forall|j: int| 0 <= j < q.len() implies !(#[trigger] q[j]).contains('.') by {
                if j < p.len() {
                    assert(q[j] == p[j]);
                }
            }
        } else {
            let last = p.last().push(s.last());
            let q = p.update(p.len() - 1, last);
            assert(q.drop_last() =~= p.drop_last());
            if p.len() == 1 {
                assert(join_dot(p) == p[0]);
                assert(join_dot(q) == q[0]);
                assert(s =~= pre.push(s.last()));
            } else {
                assert(join_dot(p) == join_dot(p.drop_last()) + seq!['.'] + p.last());
                assert(join_dot(q) == join_dot(q.drop_last()) + seq!['.'] + q.last());
                assert(s =~= pre.push(s.last()));
                assert(join_dot(q) =~= join_dot(p).push(s.last()));
            }
            assert forall|j: int| 0 <= j < q.len() implies !(#[trigger] q[j]).contains('.') by {
                if j < p.len() - 1 {
                    assert(q[j] == p[j]);
                } else {
                    assert(q[j] == last);
                    if last.contains('.') {
                        let k = choose|k: int| 0 <= k < last.len() && last[k] == '.';
                        if k < p.last().len() {
                            assert(last[k] == p.last()[k]);
                            assert(p[p.len() - 1].contains('.'));
                        }
                    }
                }
            }
        }
    }
}

/// The key keeps every piece that reads as an `i32`, read, in order, and
/// nothing else.
pub proof fn lemma_parsed_pieces_all_numbers(ps: Seq<Seq<char>>)
    ensures
        parsed_pieces(ps) == ps.filter(|p: Seq<char>| is_number_piece(p)).map_values(
            |p: Seq<char>| parse_i32(p)->0,
        ),
    decreases ps.len(),
{
    reveal(Seq::filter);
    if ps.len() > 0 {
        lemma_parsed_pieces_all_numbers(ps.drop_last());
        let f = |p: Seq<char>| is_number_piece(p);
        let g = |p: Seq<char>| parse_i32(p)->0;
        let sub = ps.drop_last().filter(f);
        if is_number_piece(ps.last()) {
            assert(ps.filter(f) == sub.push(ps.last()));
            assert(sub.push(ps.last()).map_values(g) =~= sub.map_values(g).push(g(ps.last())));
        } else {
            assert(ps.filter(f) == sub);
        }
    }
}

/// The sort key of a chapter label holds, in order, the value of every
/// piece between its dots that reads as an `i32`: as many entries as
/// such pieces, and no others.
pub proof fn lemma_label_key_pieces(label: Seq<char>)
    ensures
        label_key(label) == split_dot(label).filter(|p: Seq<char>| is_number_piece(p)).map_values(
            |p: Seq<char>| parse_i32(p)->0,
        ),
        label_key(label).len() == split_dot(label).filter(|p: Seq<char>| is_number_piece(p)).len(),
        join_dot(split_dot(label)) == label,
        forall|j: int| 0 <= j < split_dot(label).len() ==> !(#[trigger] split_dot(label)[j]).contains('.'),
{
    lemma_parsed_pieces_all_numbers(split_dot(label));
    lemma_split_dot_pieces(label);
}
} // verus!
