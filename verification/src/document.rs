//! Document task points: which attachment entries are reading jobs, the
//! reading report, and its outcome.
use vstd::prelude::*;
use crate::attachment::{CardContext, entry_of_object, find_by_object_id, params_view};
use crate::client::ClientError;
use crate::json::{JsonValue, json_get, opt_get, opt_str, json_text, json_to_text};
use crate::text::{concat, string_of_str, i64_to_string, int_dec, str_eq};

verus! {

/// A document reading job.
pub struct DocumentJob {
    pub object_id: String,
    pub job_id: String,
    pub jtoken: String,
    pub title: String,
}

/// Whether an entry's `job` flag marks a real job: `true`, or the string
/// `"true"` or `"1"`.
pub open spec fn is_job_flag(v: Option<JsonValue>) -> bool {
    match v {
        Some(JsonValue::Bool(b)) => b,
        Some(JsonValue::Str(s)) => s@ == "true"@ || s@ == "1"@,
        _ => false,
    }
}

/// What `parse_document_attachment` yields for an attachment: nothing when
/// the object has no entry or the entry is not a job; an error when the job
/// lacks `jobid` or `jtoken`; otherwise the job, titled by
/// `property.name` (default "文档").
pub open spec fn document_job_outcome(
    attachment: JsonValue,
    object_id: Seq<char>,
    r: Result<Option<DocumentJob>, ClientError>,
) -> bool {
    match entry_of_object(attachment, object_id) {
        None => r == Ok::<Option<DocumentJob>, ClientError>(None),
        Some(point) => if !is_job_flag(json_get(point, "job"@)) {
            r == Ok::<Option<DocumentJob>, ClientError>(None)
        } else {
            match opt_str(json_get(point, "jobid"@)) {
                None => r matches Err(ClientError::Api(m)) && m@ == "文档缺少 jobid"@,
                Some(job_id) => match opt_str(json_get(point, "jtoken"@)) {
                    None => r matches Err(ClientError::Api(m)) && m@ == "文档缺少 jtoken"@,
                    Some(jtoken) => r matches Ok(Some(job)) && job.object_id@ == object_id
                        && job.job_id@ == job_id && job.jtoken@ == jtoken && job.title@ == (match opt_str(
                        opt_get(json_get(point, "property"@), "name"@),
                    ) {
                        Some(t) => t,
                        None => "文档"@,
                    }),
                },
            }
        },
    }
}

fn opt_str_exec(v: Option<&JsonValue>) -> (r: Option<String>)
    ensures
        match r {
            Some(s) => opt_str(crate::json::deref_opt(v)) == Some(s@),
            None => opt_str(crate::json::deref_opt(v)) is None,
        },
{
    match v {
        Some(x) => match x.as_str() {
            Some(s) => Some(s.clone()),
            None => None,
        },
        None => None,
    }
}

/// `parse_document_attachment`.
pub fn parse_document_attachment(attachment: &JsonValue, object_id: &str) -> (r: Result<
    Option<DocumentJob>,
    ClientError,
>)
    ensures
        document_job_outcome(*attachment, object_id@, r),
{
    let point = match find_by_object_id(attachment, object_id) {
        Some(p) => p,
        None => return Ok(None),
    };
    let is_job = match point.get("job") {
        Some(JsonValue::Bool(b)) => *b,
        Some(JsonValue::Str(s)) => str_eq(s.as_str(), "true") || str_eq(s.as_str(), "1"),
        _ => false,
    };
    if !is_job {
        return Ok(None);
    }
    let job_id = match opt_str_exec(point.get("jobid")) {
        Some(s) => s,
        None => return Err(ClientError::Api(string_of_str("文档缺少 jobid"))),
    };
    let jtoken = match opt_str_exec(point.get("jtoken")) {
        Some(s) => s,
        None => return Err(ClientError::Api(string_of_str("文档缺少 jtoken"))),
    };
    let title = match point.get("property") {
        Some(p) => match opt_str_exec(p.get("name")) {
            Some(t) => t,
            None => string_of_str("文档"),
        },
        None => string_of_str("文档"),
    };
    Ok(Some(DocumentJob { object_id: string_of_str(object_id), job_id, jtoken, title }))
}

/// The query of the document reading report.
pub open spec fn document_report_query_of(ctx: CardContext, job: DocumentJob, dc: Seq<char>) -> Seq<
    (Seq<char>, Seq<char>),
> {
    seq![
        ("jobid"@, job.job_id@),
        ("knowledgeid"@, int_dec(ctx.knowledge_id as int)),
        ("courseid"@, int_dec(ctx.course_id as int)),
        ("clazzid"@, int_dec(ctx.class_id as int)),
        ("jtoken"@, job.jtoken@),
        ("_dc"@, dc),
    ]
}

/// `report_document`'s query; `dc` is the current time in milliseconds.
pub fn document_report_query(ctx: &CardContext, job: &DocumentJob, dc: &str) -> (r: Vec<(String, String)>)
    ensures
        params_view(r@) == document_report_query_of(*ctx, *job, dc@),
{
    let mut ps: Vec<(String, String)> = Vec::new();
    ps.push((string_of_str("jobid"), job.job_id.clone()));
    ps.push((string_of_str("knowledgeid"), i64_to_string(ctx.knowledge_id)));
    ps.push((string_of_str("courseid"), i64_to_string(ctx.course_id)));
    ps.push((string_of_str("clazzid"), i64_to_string(ctx.class_id)));
    ps.push((string_of_str("jtoken"), job.jtoken.clone()));
    ps.push((string_of_str("_dc"), string_of_str(dc)));
    assert(params_view(ps@) =~= document_report_query_of(*ctx, *job, dc@));
    ps
}

/// A report reply fails when its `error` field is present and not null;
/// the message carries the field's JSON text after `prefix`.
pub open spec fn report_error_outcome(body: JsonValue, prefix: Seq<char>, r: Result<(), ClientError>) -> bool {
    match json_get(body, "error"@) {
        Some(err) => if err is Null {
            r == Ok::<(), ClientError>(())
        } else {
            r matches Err(ClientError::Api(m)) && m@ == prefix + json_text(err)
        },
        None => r == Ok::<(), ClientError>(()),
    }
}

/// The `error` check of a report reply.
pub fn report_error_check(body: &JsonValue, prefix: &str) -> (r: Result<(), ClientError>)
    ensures
        report_error_outcome(*body, prefix@, r),
{
    match body.get("error") {
        Some(err) => if err.is_null() {
            Ok(())
        } else {
            let t = json_to_text(err);
            Err(ClientError::Api(concat(prefix, t.as_str())))
        },
        None => Ok(()),
    }
}

/// `report_document` after the request: fails with "文档上报失败: <error>"
/// when the reply carries a non-null `error`.
pub fn document_report_check(body: &JsonValue) -> (r: Result<(), ClientError>)
    ensures
        report_error_outcome(*body, "文档上报失败: "@, r),
{
    report_error_check(body, "文档上报失败: ")
}

/// `complete_document`'s reply: for a reported job "文档完成：<title>" and
/// done, for a non-job document "非任务点文档，已跳过" and not done.
pub fn document_result(job: Option<&DocumentJob>) -> (r: (String, bool))
    ensures
        match job {
            Some(j) => r.0@ == "文档完成："@ + j.title@ && r.1,
            None => r.0@ == "非任务点文档，已跳过"@ && !r.1,
        },
{
    match job {
        Some(j) => (concat("文档完成：", j.title.as_str()), true),
        None => (string_of_str("非任务点文档，已跳过"), false),
    }
}


/// The value of the first entry under `key` in a query, if any.
pub open spec fn query_value(ps: Seq<(Seq<char>, Seq<char>)>, key: Seq<char>) -> Option<Seq<char>>
    decreases ps.len(),
{
    if ps.len() == 0 {
        None
    } else if ps[0].0 == key {
        Some(ps[0].1)
    } else {
        query_value(ps.drop_first(), key)
    }
}

/// The reading report names its card and job: under `courseid` it sends
/// the card's course id, under `clazzid` its class id, under `knowledgeid`
/// its chapter, each in decimal; under `jobid` and `jtoken` the job's, and
/// under `_dc` the time given.
pub proof fn lemma_document_report_fields(ctx: CardContext, job: DocumentJob, dc: Seq<char>)
    ensures
        ({
            let q = document_report_query_of(ctx, job, dc);
            &&& query_value(q, "courseid"@) == Some(int_dec(ctx.course_id as int))
            &&& query_value(q, "clazzid"@) == Some(int_dec(ctx.class_id as int))
            &&& query_value(q, "knowledgeid"@) == Some(int_dec(ctx.knowledge_id as int))
            &&& query_value(q, "jobid"@) == Some(job.job_id@)
            &&& query_value(q, "jtoken"@) == Some(job.jtoken@)
            &&& query_value(q, "_dc"@) == Some(dc)
        }),
{
    reveal_strlit("jobid");
    reveal_strlit("knowledgeid");
    reveal_strlit("courseid");
    reveal_strlit("clazzid");
    reveal_strlit("jtoken");
    reveal_strlit("_dc");
    let q = document_report_query_of(ctx, job, dc);
    let q1 = q.drop_first();
    let q2 = q1.drop_first();
    let q3 = q2.drop_first();
    let q4 = q3.drop_first();
    let q5 = q4.drop_first();
    assert(q1 =~= q.subrange(1, 6));
    assert(q2 =~= q.subrange(2, 6));
    assert(q3 =~= q.subrange(3, 6));
    assert(q4 =~= q.subrange(4, 6));
    assert(q5 =~= q.subrange(5, 6));
    assert("jobid"@[0] != "courseid"@[0] && "knowledgeid"@[0] != "courseid"@[0]);
    assert("jobid"@[0] != "clazzid"@[0] && "knowledgeid"@[0] != "clazzid"@[0]);
    assert("courseid"@[1] != "clazzid"@[1]);
    assert("jobid"@[1] != "jtoken"@[1] && "knowledgeid"@[0] != "jtoken"@[0] && "courseid"@[0]
        != "jtoken"@[0] && "clazzid"@[0] != "jtoken"@[0]);
    assert("jobid"@[0] != "_dc"@[0] && "knowledgeid"@[0] != "_dc"@[0] && "courseid"@[0] != "_dc"@[0]
        && "clazzid"@[0] != "_dc"@[0] && "jtoken"@[0] != "_dc"@[0]);
    assert("jobid"@ != "courseid"@ && "knowledgeid"@ != "courseid"@);
    assert("jobid"@ != "clazzid"@ && "knowledgeid"@ != "clazzid"@ && "courseid"@ != "clazzid"@);
    assert("jobid"@ != "knowledgeid"@);
    assert("jobid"@ != "jtoken"@ && "knowledgeid"@ != "jtoken"@ && "courseid"@ != "jtoken"@
        && "clazzid"@ != "jtoken"@);
    assert("jobid"@ != "_dc"@ && "knowledgeid"@ != "_dc"@ && "courseid"@ != "_dc"@ && "clazzid"@
        != "_dc"@ && "jtoken"@ != "_dc"@);
    assert(query_value(q, "jobid"@) == Some(q[0].1));
    assert(query_value(q1, "knowledgeid"@) == Some(q1[0].1));
    assert(query_value(q, "knowledgeid"@) == query_value(q1, "knowledgeid"@));
    assert(query_value(q2, "courseid"@) == Some(q2[0].1));
    assert(query_value(q1, "courseid"@) == query_value(q2, "courseid"@));
    assert(query_value(q, "courseid"@) == query_value(q2, "courseid"@));
    assert(query_value(q3, "clazzid"@) == Some(q3[0].1));
    assert(query_value(q2, "clazzid"@) == query_value(q3, "clazzid"@));
    assert(query_value(q1, "clazzid"@) == query_value(q3, "clazzid"@));
    assert(query_value(q, "clazzid"@) == query_value(q3, "clazzid"@));
    assert(query_value(q4, "jtoken"@) == Some(q4[0].1));
    assert(query_value(q3, "jtoken"@) == query_value(q4, "jtoken"@));
    assert(query_value(q2, "jtoken"@) == query_value(q4, "jtoken"@));
    assert(query_value(q1, "jtoken"@) == query_value(q4, "jtoken"@));
    assert(query_value(q, "jtoken"@) == query_value(q4, "jtoken"@));
    assert(query_value(q5, "_dc"@) == Some(q5[0].1));
    assert(query_value(q4, "_dc"@) == query_value(q5, "_dc"@));
    assert(query_value(q3, "_dc"@) == query_value(q5, "_dc"@));
    assert(query_value(q2, "_dc"@) == query_value(q5, "_dc"@));
    assert(query_value(q1, "_dc"@) == query_value(q5, "_dc"@));
    assert(query_value(q, "_dc"@) == query_value(q5, "_dc"@));
}
} // verus!
