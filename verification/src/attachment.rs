//! A chapter card's `AttachmentSetting`: its request, its extraction from
//! the card page, and the lookups made on it.
use vstd::prelude::*;
use crate::client::ClientError;
use crate::json::{
    JsonValue, json_get, json_str, json_number_i64, opt_get, parse_json, parsed_json, deref_opt,
};
use crate::pattern::{capture_group, regex_group};
use crate::text::{contains, contains_str, concat, string_of_str, i64_to_string, int_dec, str_eq};

verus! {

/// Where a chapter card lives: course, class, chapter and card position.
pub struct CardContext {
    pub course_id: i64,
    pub class_id: i64,
    pub knowledge_id: i64,
    pub cpi: i64,
    pub card_index: i32,
}

impl CardContext {
    /// A copy of the context.
    pub fn copy(&self) -> (r: CardContext)
        ensures
            r == *self,
    {
        CardContext {
            course_id: self.course_id,
            class_id: self.class_id,
            knowledge_id: self.knowledge_id,
            cpi: self.cpi,
            card_index: self.card_index,
        }
    }
}

/// The texts of a parameter list.
pub open spec fn params_view(ps: Seq<(String, String)>) -> Seq<(Seq<char>, Seq<char>)> {
    ps.map_values(|p: (String, String)| (p.0@, p.1@))
}

/// The query of the card-page request.
pub open spec fn card_query_of(ctx: CardContext) -> Seq<(Seq<char>, Seq<char>)> {
    seq![
        ("clazzid"@, int_dec(ctx.class_id as int)),
        ("courseid"@, int_dec(ctx.course_id as int)),
        ("knowledgeid"@, int_dec(ctx.knowledge_id as int)),
        ("num"@, int_dec(ctx.card_index as int)),
        ("isPhone"@, "1"@),
        ("control"@, "true"@),
        ("cpi"@, int_dec(ctx.cpi as int)),
    ]
}

/// `fetch_attachment`'s query: class, course, chapter, card number, phone
/// view and cpi.
pub fn card_query(ctx: &CardContext) -> (r: Vec<(String, String)>)
    ensures
        params_view(r@) == card_query_of(*ctx),
{
    let mut ps: Vec<(String, String)> = Vec::new();
    ps.push((string_of_str("clazzid"), i64_to_string(ctx.class_id)));
    ps.push((string_of_str("courseid"), i64_to_string(ctx.course_id)));
    ps.push((string_of_str("knowledgeid"), i64_to_string(ctx.knowledge_id)));
    ps.push((string_of_str("num"), i64_to_string(ctx.card_index as i64)));
    ps.push((string_of_str("isPhone"), string_of_str("1")));
    ps.push((string_of_str("control"), string_of_str("true")));
    ps.push((string_of_str("cpi"), i64_to_string(ctx.cpi)));
    assert(params_view(ps@) =~= card_query_of(*ctx));
    ps
}

/// The query of the chapter-refresh request.
pub open spec fn refresh_query_of(course_id: i64, class_id: i64, chapter_id: i64, cpi: i64) -> Seq<
    (Seq<char>, Seq<char>),
> {
    seq![
        ("courseId"@, int_dec(course_id as int)),
        ("clazzid"@, int_dec(class_id as int)),
        ("chapterId"@, int_dec(chapter_id as int)),
        ("cpi"@, int_dec(cpi as int)),
        ("verificationcode"@, Seq::empty()),
        ("mooc2"@, "1"@),
    ]
}

/// `refresh_chapter`'s query.
pub fn refresh_query(course_id: i64, class_id: i64, chapter_id: i64, cpi: i64) -> (r: Vec<(String, String)>)
    ensures
        params_view(r@) == refresh_query_of(course_id, class_id, chapter_id, cpi),
{
    let mut ps: Vec<(String, String)> = Vec::new();
    ps.push((string_of_str("courseId"), i64_to_string(course_id)));
    ps.push((string_of_str("clazzid"), i64_to_string(class_id)));
    ps.push((string_of_str("chapterId"), i64_to_string(chapter_id)));
    ps.push((string_of_str("cpi"), i64_to_string(cpi)));
    ps.push((string_of_str("verificationcode"), String::new()));
    ps.push((string_of_str("mooc2"), string_of_str("1")));
    assert(params_view(ps@) =~= refresh_query_of(course_id, class_id, chapter_id, cpi));
    ps
}

/// The pattern that locates `window.AttachmentSetting = {...};`.
pub const ATTACHMENT_PATTERN: &'static str = r"window\.AttachmentSetting\s*=\s*(?P<json>.+?);";

/// The outcome of reading a card page: the `AttachmentSetting` value; a
/// parse error when its text is not JSON; "chapter not open" when the page
/// says so; otherwise "cannot parse".
pub open spec fn attachment_outcome(html: Seq<char>, r: Result<JsonValue, ClientError>) -> bool {
    match regex_group(ATTACHMENT_PATTERN@, "json"@, html) {
        Some(g) => {
            let text = match g {
                Some(t) => t,
                None => Seq::empty(),
            };
            match parsed_json(text) {
                Ok(v) => r == Ok::<JsonValue, ClientError>(v),
                Err(msg) => r matches Err(ClientError::Parse(m)) && m@ == "AttachmentSetting JSON: "@
                    + msg,
            }
        },
        None => if contains(html, "章节未开放"@) {
            r matches Err(ClientError::Api(m)) && m@ == "章节未开放！"@
        } else {
            r matches Err(ClientError::Api(m)) && m@ == "无法解析 AttachmentSetting"@
        },
    }
}

/// `fetch_attachment` after the request: the card page's `AttachmentSetting`.
pub fn attachment_from_html(html: &str) -> (r: Result<JsonValue, ClientError>)
    ensures
        attachment_outcome(html@, r),
{
    match capture_group(ATTACHMENT_PATTERN, "json", html) {
        Some(g) => {
            let text = match g {
                Some(t) => t,
                None => String::new(),
            };
            match parse_json(text.as_str()) {
                Ok(v) => Ok(v),
                Err(msg) => Err(ClientError::Parse(concat("AttachmentSetting JSON: ", msg.as_str()))),
            }
        },
        None => {
            if contains_str(html, "章节未开放") {
                Err(ClientError::Api(string_of_str("章节未开放！")))
            } else {
                Err(ClientError::Api(string_of_str("无法解析 AttachmentSetting")))
            }
        },
    }
}

/// `point.pointer("/property/objectid").as_str()`.
pub open spec fn point_object_id(point: JsonValue) -> Option<Seq<char>> {
    match opt_get(json_get(point, "property"@), "objectid"@) {
        Some(v) => json_str(v),
        None => None,
    }
}

/// The first attachment entry whose `property.objectid` equals `object_id`.
pub open spec fn first_with_object(points: Seq<JsonValue>, object_id: Seq<char>) -> Option<JsonValue>
    decreases points.len(),
{
    if points.len() == 0 {
        None
    } else if point_object_id(points[0]) == Some(object_id) {
        Some(points[0])
    } else {
        first_with_object(points.drop_first(), object_id)
    }
}

/// `find_by_object_id`: among `attachments`, the entry of the object.
pub open spec fn entry_of_object(attachment: JsonValue, object_id: Seq<char>) -> Option<JsonValue> {
    match json_get(attachment, "attachments"@) {
        Some(JsonValue::Array(a)) => first_with_object(a@, object_id),
        _ => None,
    }
}

/// `find_by_object_id`: the attachment entry whose `property.objectid` is
/// `object_id`.
pub fn find_by_object_id<'a>(attachment: &'a JsonValue, object_id: &str) -> (r: Option<&'a JsonValue>)
    ensures
        deref_opt(r) == entry_of_object(*attachment, object_id@),
{
    let arr = match attachment.get("attachments") {
        Some(v) => match v.as_array() {
            Some(a) => a,
            None => return None,
        },
        None => return None,
    };
    let mut i: usize = 0;
    assert(arr@.subrange(0, arr@.len() as int) == arr@);
    while i < arr.len()
        invariant
            i <= arr.len(),
            entry_of_object(*attachment, object_id@) == first_with_object(arr@, object_id@),
            first_with_object(arr@, object_id@) == first_with_object(
                arr@.subrange(i as int, arr@.len() as int),
                object_id@,
            ),
        decreases arr.len() - i,
    {
        let ghost rest = arr@.subrange(i as int, arr@.len() as int);
        assert(rest.drop_first() == arr@.subrange(i + 1, arr@.len() as int));
        assert(rest[0] == arr@[i as int]);
        let hit = match arr[i].get("property") {
            Some(p) => match p.get("objectid") {
                Some(o) => match o.as_str() {
                    Some(s) => str_eq(s.as_str(), object_id),
                    None => false,
                },
                None => false,
            },
            None => false,
        };
        if hit {
            return Some(&arr[i]);
        }
        i = i + 1;
    }
    None
}

/// `attachment_fid`: the integer at `/defaults/fid`.
pub open spec fn fid_of(attachment: JsonValue) -> Option<i64> {
    match opt_get(json_get(attachment, "defaults"@), "fid"@) {
        Some(v) => json_number_i64(v),
        None => None,
    }
}

/// `attachment_fid`.
pub fn attachment_fid(attachment: &JsonValue) -> (r: Option<i64>)
    ensures
        r == fid_of(*attachment),
{
    match attachment.get("defaults") {
        Some(d) => match d.get("fid") {
            Some(v) => v.number_i64(),
            None => None,
        },
        None => None,
    }
}

} // verus!
