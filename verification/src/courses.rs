//! The course list (`mycourse/backclazzdata`): which channel entries become
//! courses, and with which identifiers and defaults.
use vstd::prelude::*;
use crate::client::ClientError;
use crate::json::{JsonValue, json_to_i64};

verus! {

/// One course the account is enrolled in.
pub struct CourseInfo {
    pub course_id: i64,
    pub class_id: i64,
    pub cpi: i64,
    pub key: i64,
    pub name: String,
    pub teacher_name: String,
    /// 0 = in progress, 1 = closed.
    pub state: i32,
}

impl CourseInfo {
    /// A copy of the course.
    pub fn copy(&self) -> (r: CourseInfo)
        ensures
            r == *self,
    {
        CourseInfo {
            course_id: self.course_id,
            class_id: self.class_id,
            cpi: self.cpi,
            key: self.key,
            name: self.name.clone(),
            teacher_name: self.teacher_name.clone(),
            state: self.state,
        }
    }
}

/// The reply of the course-list endpoint, as its fields are typed.
pub struct ClassListReply {
    pub result: Option<i32>,
    pub channel_list: Option<Vec<ChannelItem>>,
}

/// One entry of `channelList`.
pub struct ChannelItem {
    pub cpi: Option<JsonValue>,
    pub key: Option<JsonValue>,
    pub content: Option<ChannelContent>,
}

/// The `content` of a channel entry.
pub struct ChannelContent {
    pub id: Option<JsonValue>,
    pub state: Option<i32>,
    pub course: Option<CourseWrap>,
}

/// The `course` of a channel entry.
pub struct CourseWrap {
    pub data: Option<Vec<CourseData>>,
}

/// One element of `course.data`.
pub struct CourseData {
    pub id: Option<JsonValue>,
    pub name: Option<String>,
    pub teacherfactor: Option<String>,
}

/// Integer reading of an optional field.
pub open spec fn opt_i64(v: Option<JsonValue>) -> Option<i64> {
    match v {
        Some(x) => json_to_i64(x),
        None => None,
    }
}

/// The first course record of a channel entry, if it has one.
pub open spec fn first_course_data(item: ChannelItem) -> Option<CourseData> {
    match item.content {
        Some(content) => match content.course {
            Some(course) => match course.data {
                Some(d) => if d@.len() > 0 {
                    Some(d@[0])
                } else {
                    None
                },
                None => None,
            },
            None => None,
        },
        None => None,
    }
}

/// Whether a channel entry yields a course: it has content, a course with a
/// first record, and integer course id, class id and cpi.
pub open spec fn item_yields_course(item: ChannelItem) -> bool {
    &&& first_course_data(item) is Some
    &&& opt_i64(first_course_data(item)->0.id) is Some
    &&& opt_i64(item.content->0.id) is Some
    &&& opt_i64(item.cpi) is Some
}

/// The course that a qualifying channel entry yields.
pub open spec fn course_of_item(c: CourseInfo, item: ChannelItem) -> bool {
    let data = first_course_data(item)->0;
    let content = item.content->0;
    let class_id = opt_i64(content.id)->0;
    &&& c.course_id == opt_i64(data.id)->0
    &&& c.class_id == class_id
    &&& c.cpi == opt_i64(item.cpi)->0
    &&& c.key == (match opt_i64(item.key) {
        Some(k) => k,
        None => class_id,
    })
    &&& c.name@ == (match data.name {
        Some(n) => n@,
        None => "未命名课程"@,
    })
    &&& c.teacher_name@ == (match data.teacherfactor {
        Some(t) => t@,
        None => "未知"@,
    })
    &&& c.state == (match content.state {
        Some(s) => s,
        None => 0,
    })
}

/// The channel entries of a reply (none when the list is absent).
pub open spec fn reply_items(reply: ClassListReply) -> Seq<ChannelItem> {
    match reply.channel_list {
        Some(l) => l@,
        None => Seq::empty(),
    }
}

/// The entries among `items` that yield courses, in order.
pub open spec fn course_items(items: Seq<ChannelItem>) -> Seq<ChannelItem> {
    items.filter(|it: ChannelItem| item_yields_course(it))
}

/// Whether `courses` is what the entries yield, in order.
pub open spec fn courses_of_items(courses: Seq<CourseInfo>, items: Seq<ChannelItem>) -> bool {
    let kept = course_items(items);
    &&& courses.len() == kept.len()
    &&& forall|i: int| 0 <= i < kept.len() ==> course_of_item(#[trigger] courses[i], kept[i])
}

fn opt_json_i64(v: &Option<JsonValue>) -> (r: Option<i64>)
    ensures
        r == opt_i64(*v),
{
    match v {
        Some(x) => x.to_i64(),
        None => None,
    }
}

fn opt_string_or(v: &Option<String>, default: &str) -> (r: String)
    ensures
        r@ == (match *v {
            Some(s) => s@,
            None => default@,
        }),
{
    match v {
        Some(s) => s.clone(),
        None => crate::text::string_of_str(default),
    }
}

/// The course a channel entry yields, if it yields one.
pub fn course_from_item(item: &ChannelItem) -> (r: Option<CourseInfo>)
    ensures
        match r {
            Some(c) => item_yields_course(*item) && course_of_item(c, *item),
            None => !item_yields_course(*item),
        },
{
    let content = match &item.content {
        Some(c) => c,
        None => return None,
    };
    let course = match &content.course {
        Some(c) => c,
        None => return None,
    };
    let data = match &course.data {
        Some(d) => if d.len() > 0 {
            &d[0]
        } else {
            return None;
        },
        None => return None,
    };
    let course_id = match opt_json_i64(&data.id) {
        Some(v) => v,
        None => return None,
    };
    let class_id = match opt_json_i64(&content.id) {
        Some(v) => v,
        None => return None,
    };
    let cpi = match opt_json_i64(&item.cpi) {
        Some(v) => v,
        None => return None,
    };
    let key = match opt_json_i64(&item.key) {
        Some(k) => k,
        None => class_id,
    };
    let state = match content.state {
        Some(s) => s,
        None => 0,
    };
    Some(
        CourseInfo {
            course_id,
            class_id,
            cpi,
            key,
            name: opt_string_or(&data.name, "未命名课程"),
            teacher_name: opt_string_or(&data.teacherfactor, "未知"),
            state,
        },
    )
}

/// `list_courses` after the request: the session is rejected unless
/// `result == 1`; otherwise every qualifying channel entry becomes a course,
/// in order.
pub fn courses_from_reply(reply: &ClassListReply) -> (r: Result<Vec<CourseInfo>, ClientError>)
    ensures
        match r {
            Ok(cs) => reply.result == Some(1i32) && courses_of_items(cs@, reply_items(*reply)),
            Err(e) => reply.result != Some(1i32) && e is Api
                && e->Api_0@ == "课程列表拉取失败（会话可能已失效）"@,
        },
{
    if !matches!(reply.result, Some(1)) {
        return Err(ClientError::Api(crate::text::string_of_str("课程列表拉取失败（会话可能已失效）")));
    }
    let mut out: Vec<CourseInfo> = Vec::new();
    match &reply.channel_list {
        None => {
            assert(course_items(Seq::<ChannelItem>::empty()) =~= Seq::<ChannelItem>::empty());
        },
        Some(items) => {
            let mut i: usize = 0;
            while i < items.len()
                invariant
                    i <= items.len(),
                    courses_of_items(out@, items@.subrange(0, i as int)),
                decreases items.len() - i,
            {
                let ghost pre = items@.subrange(0, i as int);
                let ghost next = items@.subrange(0, i + 1);
                assert(next.drop_last() == pre);
                reveal(Seq::filter);
                match course_from_item(&items[i]) {
                    Some(c) => {
                        out.push(c);
                        assert(course_items(next) == course_items(pre).push(items@[i as int]));
                    },
                    None => {
                        assert(course_items(next) == course_items(pre));
                    },
                }
                i = i + 1;
            }
            assert(items@.subrange(0, items.len() as int) == items@);
        },
    }
    Ok(out)
}

/// A course carries what its channel entry says of it: the course id of
/// its first course record, the class id of the entry's content, the
/// entry's cpi and key (the class id when the key is absent), the record's
/// name and teacher when given ("未命名课程" and "未知" otherwise), and the
/// content's state (0 when absent).
pub proof fn lemma_course_fields(c: CourseInfo, item: ChannelItem)
    requires
        item_yields_course(item),
        course_of_item(c, item),
    ensures
        ({
            let data = first_course_data(item)->0;
            let content = item.content->0;
            &&& opt_i64(data.id) == Some(c.course_id)
            &&& opt_i64(content.id) == Some(c.class_id)
            &&& opt_i64(item.cpi) == Some(c.cpi)
            &&& opt_i64(item.key) is Some ==> opt_i64(item.key) == Some(c.key)
            &&& opt_i64(item.key) is None ==> c.key == c.class_id
            &&& data.name is Some ==> c.name@ == data.name->0@
            &&& data.name is None ==> c.name@ == "未命名课程"@
            &&& data.teacherfactor is Some ==> c.teacher_name@ == data.teacherfactor->0@
            &&& data.teacherfactor is None ==> c.teacher_name@ == "未知"@
            &&& content.state is Some ==> Some(c.state) == content.state
            &&& content.state is None ==> c.state == 0
        }),
{
}

/// Every course of the list carries its entry's fields: the `i`-th course
/// comes from the `i`-th entry that yields one.
pub proof fn lemma_courses_carry_fields(courses: Seq<CourseInfo>, items: Seq<ChannelItem>, i: int)
    requires
        courses_of_items(courses, items),
        0 <= i < courses.len(),
    ensures
        ({
            let item = course_items(items)[i];
            let data = first_course_data(item)->0;
            &&& item_yields_course(item)
            &&& items.contains(item)
            &&& opt_i64(data.id) == Some(courses[i].course_id)
            &&& data.teacherfactor is Some ==> courses[i].teacher_name@ == data.teacherfactor->0@
            &&& data.name is Some ==> courses[i].name@ == data.name->0@
        }),
{
    broadcast use vstd::seq_lib::group_filter_ensures;

    let kept = course_items(items);
    assert(kept.contains(kept[i]));
    items.lemma_filter_contains_rev(|it: ChannelItem| item_yields_course(it), kept[i]);
    assert(course_of_item(courses[i], kept[i]));
    lemma_course_fields(courses[i], kept[i]);
}

/// A channel entry yields a course exactly when it has a first course
/// record and its record id, content id and cpi read as integers; a
/// missing key, name, teacher or state does not keep it out.
pub proof fn lemma_course_entry_kept(item: ChannelItem)
    ensures
        item_yields_course(item) <==> (first_course_data(item) is Some && opt_i64(
            first_course_data(item)->0.id,
        ) is Some && item.content is Some && opt_i64(item.content->0.id) is Some && opt_i64(item.cpi) is Some),
{
}

} // verus!
