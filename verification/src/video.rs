//! Video task points: the job entry, the play information, the signed
//! progress report, and the playback loop as a state machine.
use vstd::prelude::*;
use crate::attachment::{
    CardContext, entry_of_object, find_by_object_id, fid_of, attachment_fid, params_view,
};
use crate::client::ClientError;
use crate::digest::{md5_hex, video_enc, video_enc_text};
use crate::document::{report_error_check, report_error_outcome};
use crate::json::{
    JsonValue, json_get, json_number_i64, number_as_i64, opt_get, opt_str, json_text,
    json_to_text, deref_opt,
};
use crate::text::{concat, string_of_str, i64_to_string, int_dec, str_eq, push_str, parse_i64_str};
use crate::urlenc::{url_encode, EncodeStyle, encode_value_cx};

verus! {

/// The `property.rt` of a video entry as it was found; turning it into the
/// playback rate is floating-point work left to the caller (a number's text
/// or a text parsed as `f64`, 0.9 otherwise).
pub enum RtSource {
    Number(String),
    Text(String),
    Absent,
}

/// A video job.
pub struct VideoJob {
    pub object_id: String,
    pub job_id: String,
    pub other_info: String,
    pub rt: RtSource,
    pub fid: i64,
    pub already_passed: bool,
}

/// The play information of a video.
pub struct VideoPlayInfo {
    pub dtoken: String,
    pub duration: i64,
    pub title: String,
}

/// The `rt` source of a video entry.
pub open spec fn rt_of(point: JsonValue) -> RtSource {
    match opt_get(json_get(point, "property"@), "rt"@) {
        Some(JsonValue::Number(t)) => RtSource::Number(t),
        Some(JsonValue::Str(s)) => RtSource::Text(s),
        _ => RtSource::Absent,
    }
}

/// Whether an entry's `isPassed` marks it done: `true`, `"true"`, `"1"`, or
/// the integer 1.
pub open spec fn is_passed_flag(v: Option<JsonValue>) -> bool {
    match v {
        Some(JsonValue::Bool(b)) => b,
        Some(JsonValue::Str(s)) => s@ == "true"@ || s@ == "1"@,
        Some(JsonValue::Number(t)) => number_as_i64(t@) == Some(1i64),
        _ => false,
    }
}

/// What `parse_video_attachment` yields: nothing unless the object's entry
/// has a string `jobid`; otherwise the job with its `otherInfo` (default
/// empty), `rt`, the attachment's `fid` (default 0) and `isPassed`.
pub open spec fn video_job_outcome(attachment: JsonValue, object_id: Seq<char>, r: Option<VideoJob>) -> bool {
    match entry_of_object(attachment, object_id) {
        None => r is None,
        Some(point) => match opt_str(json_get(point, "jobid"@)) {
            None => r is None,
            Some(job_id) => r matches Some(job) && job.object_id@ == object_id && job.job_id@
                == job_id && job.other_info@ == (match opt_str(json_get(point, "otherInfo"@)) {
                Some(t) => t,
                None => Seq::empty(),
            }) && job.rt == rt_of(point) && job.fid == (match fid_of(attachment) {
                Some(f) => f,
                None => 0,
            }) && job.already_passed == is_passed_flag(json_get(point, "isPassed"@)),
        },
    }
}

fn str_clone_of(v: Option<&JsonValue>) -> (r: Option<String>)
    ensures
        match r {
            Some(s) => opt_str(deref_opt(v)) == Some(s@),
            None => opt_str(deref_opt(v)) is None,
        },
{
    match v {
        Some(x) => match x.as_str() {
            Some(s) => Some(s.clone()),
            None => None,
        },
        None => None,
    }
}

/// `parse_video_attachment` (it never fails, the `Result` is kept for its
/// callers).
pub fn parse_video_attachment(attachment: &JsonValue, object_id: &str) -> (r: Result<Option<VideoJob>, ClientError>)
    ensures
        r matches Ok(j) && video_job_outcome(*attachment, object_id@, j),
{
    let point = match find_by_object_id(attachment, object_id) {
        Some(p) => p,
        None => return Ok(None),
    };
    let job_id = match str_clone_of(point.get("jobid")) {
        Some(s) => s,
        None => return Ok(None),
    };
    let other_info = match str_clone_of(point.get("otherInfo")) {
        Some(s) => s,
        None => String::new(),
    };
    let rt = match point.get("property") {
        Some(p) => match p.get("rt") {
            Some(JsonValue::Number(t)) => RtSource::Number(t.clone()),
            Some(JsonValue::Str(s)) => RtSource::Text(s.clone()),
            _ => RtSource::Absent,
        },
        None => RtSource::Absent,
    };
    let fid = match attachment_fid(attachment) {
        Some(f) => f,
        None => 0,
    };
    let already_passed = match point.get("isPassed") {
        Some(JsonValue::Bool(b)) => *b,
        Some(JsonValue::Str(s)) => str_eq(s.as_str(), "true") || str_eq(s.as_str(), "1"),
        Some(JsonValue::Number(t)) => parse_i64_str(t.as_str()) == Some(1i64),
        _ => false,
    };
    Ok(
        Some(
            VideoJob {
                object_id: string_of_str(object_id),
                job_id,
                other_info,
                rt,
                fid,
                already_passed,
            },
        ),
    )
}

/// The query of the play-information request.
pub open spec fn play_info_query_of(fid: i64, dc: Seq<char>) -> Seq<(Seq<char>, Seq<char>)> {
    seq![("k"@, int_dec(fid as int)), ("flag"@, "normal"@), ("_dc"@, dc)]
}

/// `fetch_video_play_info`'s query; `dc` is the current time in
/// milliseconds.
pub fn play_info_query(fid: i64, dc: &str) -> (r: Vec<(String, String)>)
    ensures
        params_view(r@) == play_info_query_of(fid, dc@),
{
    let mut ps: Vec<(String, String)> = Vec::new();
    ps.push((string_of_str("k"), i64_to_string(fid)));
    ps.push((string_of_str("flag"), string_of_str("normal")));
    ps.push((string_of_str("_dc"), string_of_str(dc)));
    assert(params_view(ps@) =~= play_info_query_of(fid, dc@));
    ps
}

/// What the play-information reply yields: an error unless `status` is
/// "success" or a `dtoken` is present (with the JSON of `msg`, else
/// `error`, else the whole reply); an error without a string `dtoken`;
/// otherwise the token, the integer `duration` (default 0) and the
/// `filename` (default the object id).
pub open spec fn play_info_outcome(body: JsonValue, object_id: Seq<char>, r: Result<VideoPlayInfo, ClientError>) -> bool {
    if opt_str(json_get(body, "status"@)) != Some("success"@) && json_get(body, "dtoken"@) is None {
        r matches Err(ClientError::Api(m)) && m@ == "拉取视频失败: "@ + (match json_get(body, "msg"@) {
            Some(v) => json_text(v),
            None => match json_get(body, "error"@) {
                Some(v) => json_text(v),
                None => json_text(body),
            },
        })
    } else {
        match opt_str(json_get(body, "dtoken"@)) {
            None => r matches Err(ClientError::Api(m)) && m@ == "视频缺少 dtoken"@,
            Some(dtoken) => r matches Ok(info) && info.dtoken@ == dtoken && info.duration == (match json_get(body, "duration"@) {
                Some(v) => match json_number_i64(v) {
                    Some(n) => n,
                    None => 0,
                },
                None => 0,
            }) && info.title@ == (match opt_str(json_get(body, "filename"@)) {
                Some(t) => t,
                None => object_id,
            }),
        }
    }
}

/// `fetch_video_play_info` after the request.
pub fn play_info_from(body: &JsonValue, object_id: &str) -> (r: Result<VideoPlayInfo, ClientError>)
    ensures
        play_info_outcome(*body, object_id@, r),
{
    let success = match body.get("status") {
        Some(s) => match s.as_str() {
            Some(t) => str_eq(t.as_str(), "success"),
            None => false,
        },
        None => false,
    };
    if !success && body.get("dtoken").is_none() {
        let detail = match body.get("msg") {
            Some(v) => json_to_text(v),
            None => match body.get("error") {
                Some(v) => json_to_text(v),
                None => json_to_text(body),
            },
        };
        return Err(ClientError::Api(concat("拉取视频失败: ", detail.as_str())));
    }
    let dtoken = match str_clone_of(body.get("dtoken")) {
        Some(t) => t,
        None => return Err(ClientError::Api(string_of_str("视频缺少 dtoken"))),
    };
    let duration = match body.get("duration") {
        Some(v) => match v.number_i64() {
            Some(n) => n,
            None => 0,
        },
        None => 0,
    };
    let title = match str_clone_of(body.get("filename")) {
        Some(t) => t,
        None => string_of_str(object_id),
    };
    Ok(VideoPlayInfo { dtoken, duration, title })
}

/// The progress-report endpoint.
pub const VIDEO_REPORT_URL: &'static str = "https://mooc1-api.chaoxing.com/multimedia/log/a";

/// The progress-report URL: path `/<cpi>/<dtoken>` and a hand-built query
/// whose text values are encoded keeping `&` and `=`.
pub open spec fn report_url_of(
    cpi: i64,
    class_id: i64,
    puid: i64,
    job: VideoJob,
    play: VideoPlayInfo,
    playing_time: i64,
    rt: Seq<char>,
    t: Seq<char>,
) -> Seq<char> {
    VIDEO_REPORT_URL@ + "/"@ + int_dec(cpi as int) + "/"@ + play.dtoken@ + "?otherInfo="@
        + url_encode(job.other_info@, EncodeStyle::KeepAmpEq) + "&playingTime="@ + int_dec(playing_time as int)
        + "&duration="@ + int_dec(play.duration as int) + "&jobid="@ + url_encode(
        job.job_id@,
        EncodeStyle::KeepAmpEq,
    ) + "&clipTime="@ + url_encode("0_"@ + int_dec(play.duration as int), EncodeStyle::KeepAmpEq)
        + "&clazzId="@ + int_dec(class_id as int) + "&objectId="@ + url_encode(
        job.object_id@,
        EncodeStyle::KeepAmpEq,
    ) + "&userid="@ + int_dec(puid as int) + "&isdrag=0&enc="@ + md5_hex(
        video_enc_text(
            class_id as int,
            puid as int,
            job.job_id@,
            job.object_id@,
            playing_time as int,
            play.duration as int,
        ),
    ) + "&rt="@ + rt + "&dtype=Video&view=pc&_t="@ + t
}

/// `video_play_report`'s URL; `rt` is the rendered playback rate and `t` the
/// current time in milliseconds.
pub fn report_url(
    cpi: i64,
    class_id: i64,
    puid: i64,
    job: &VideoJob,
    play: &VideoPlayInfo,
    playing_time: i64,
    rt: &str,
    t: &str,
) -> (r: String)
    requires
        i64::MIN <= playing_time * 1000 <= i64::MAX,
        i64::MIN <= play.duration * 1000 <= i64::MAX,
    ensures
        r@ == report_url_of(cpi, class_id, puid, *job, *play, playing_time, rt@, t@),
{
    let enc = video_enc(
        class_id,
        puid,
        job.job_id.as_str(),
        job.object_id.as_str(),
        playing_time,
        play.duration,
    );
    let clip = concat("0_", i64_to_string(play.duration).as_str());
    let mut u = string_of_str(VIDEO_REPORT_URL);
    push_str(&mut u, "/");
    push_str(&mut u, i64_to_string(cpi).as_str());
    push_str(&mut u, "/");
    push_str(&mut u, play.dtoken.as_str());
    push_str(&mut u, "?otherInfo=");
    push_str(&mut u, encode_value_cx(job.other_info.as_str()).as_str());
    push_str(&mut u, "&playingTime=");
    push_str(&mut u, i64_to_string(playing_time).as_str());
    push_str(&mut u, "&duration=");
    push_str(&mut u, i64_to_string(play.duration).as_str());
    push_str(&mut u, "&jobid=");
    push_str(&mut u, encode_value_cx(job.job_id.as_str()).as_str());
    push_str(&mut u, "&clipTime=");
    push_str(&mut u, encode_value_cx(clip.as_str()).as_str());
    push_str(&mut u, "&clazzId=");
    push_str(&mut u, i64_to_string(class_id).as_str());
    push_str(&mut u, "&objectId=");
    push_str(&mut u, encode_value_cx(job.object_id.as_str()).as_str());
    push_str(&mut u, "&userid=");
    push_str(&mut u, i64_to_string(puid).as_str());
    push_str(&mut u, "&isdrag=0&enc=");
    push_str(&mut u, enc.as_str());
    push_str(&mut u, "&rt=");
    push_str(&mut u, rt);
    push_str(&mut u, "&dtype=Video&view=pc&_t=");
    push_str(&mut u, t);
    u
}

/// What to do with the HTTP status of a progress report.
pub enum ReportStep {
    /// A 403 on the first attempt: wait 400 ms and send it again.
    Retry,
    /// Read the reply body.
    ReadBody,
    /// Give up with this error.
    Fail(ClientError),
}

/// `video_play_report`'s status handling: a first 403 is retried once; any
/// other non-2xx status fails with "视频上报 HTTP <status>".
pub fn report_status_step(attempt: u32, code: u16, status_text: &str) -> (r: ReportStep)
    ensures
        if code == 403 && attempt == 0 {
            r is Retry
        } else if !(200 <= code <= 299) {
            r matches ReportStep::Fail(ClientError::Api(m)) && m@ == "视频上报 HTTP "@ + status_text@
        } else {
            r is ReadBody
        },
{
    if code == 403 && attempt == 0 {
        ReportStep::Retry
    } else if !(200 <= code && code <= 299) {
        ReportStep::Fail(ClientError::Api(concat("视频上报 HTTP ", status_text)))
    } else {
        ReportStep::ReadBody
    }
}

/// The `error` check of a progress-report reply: "视频上报失败: <error>".
pub fn report_reply_check(body: &JsonValue) -> (r: Result<(), ClientError>)
    ensures
        report_error_outcome(*body, "视频上报失败: "@, r),
{
    report_error_check(body, "视频上报失败: ")
}

// ---------------------------------------------------------- playback loop

/// Where a video completion stands.
pub enum VideoPhase {
    Start,
    AwaitAttachment,
    AwaitPlayInfo,
    CheckStop,
    AwaitReport,
    AwaitTick,
    Ended,
}

/// How a video completion ended.
pub enum VideoEnd {
    /// The object has no job entry.
    NotAJob,
    /// The job was already passed.
    AlreadyPassed,
    /// A report came back with `isPassed: true`.
    Passed,
    /// The stop flag was raised.
    Stopped,
    /// A request or reply failed.
    Failed(ClientError),
}

/// What the caller is asked to do next.
pub enum VideoAction {
    /// Fetch the card's `AttachmentSetting` (`fetch_attachment`).
    FetchAttachment,
    /// Fetch the play information of the object.
    FetchPlayInfo { object_id: String, fid: i64 },
    /// Read the stop flag.
    ReadStop,
    /// Send a progress report at this playing time.
    Report { playing_time: i64 },
    /// Tell the listener the playback position.
    Progress { playing: i64, duration: i64 },
    /// Wait.
    Sleep { millis: u64 },
    /// Stop with this outcome.
    Finish(VideoEnd),
}

/// What the caller reports back.
pub enum VideoInput {
    Begin,
    Attachment(Result<JsonValue, ClientError>),
    PlayInfo(Result<JsonValue, ClientError>),
    StopFlag(bool),
    Reported(Result<JsonValue, ClientError>),
    Ticked,
}

/// The state of one video completion (`complete_video`). `step` is the
/// number of seconds played per tick, `round(speed)`, which the caller
/// computes from the floating-point speed.
pub struct VideoRun {
    pub ctx: CardContext,
    pub object_id: String,
    pub puid: i64,
    pub step: i64,
    pub report_rate_option: i64,
    pub phase: VideoPhase,
    pub job: Option<VideoJob>,
    pub play: Option<VideoPlayInfo>,
    pub duration: i64,
    pub report_rate: i64,
    pub playing_time: i64,
    pub report_counter: i64,
}

/// The invariant of a run: the step is not negative, and once playing the
/// position stays within `[0, duration]` with `duration` and the report rate
/// at least 1.
pub open spec fn video_wf(r: VideoRun) -> bool {
    &&& r.step >= 0
    &&& r.phase is AwaitPlayInfo ==> r.job is Some
    &&& (r.phase is CheckStop || r.phase is AwaitReport || r.phase is AwaitTick) ==> {
        &&& r.job is Some
        &&& r.play is Some
        &&& 1 <= r.duration
        &&& 1 <= r.report_rate
        &&& 0 <= r.playing_time <= r.duration
        &&& 0 <= r.report_counter
    }
}

/// A new completion for `object_id` of card `ctx`.
pub fn video_run_new(ctx: CardContext, object_id: String, puid: i64, step: i64, report_rate: i64) -> (r: VideoRun)
    requires
        step >= 0,
    ensures
        r.phase is Start,
        r.ctx == ctx,
        r.object_id == object_id,
        r.puid == puid,
        r.step == step,
        r.report_rate_option == report_rate,
        r.job is None,
        r.play is None,
        video_wf(r),
{
    VideoRun {
        ctx,
        object_id,
        puid,
        step,
        report_rate_option: report_rate,
        phase: VideoPhase::Start,
        job: None,
        play: None,
        duration: 0,
        report_rate: 0,
        playing_time: 0,
        report_counter: 0,
    }
}

/// `a.max(b)`.
pub open spec fn max_i64(a: i64, b: i64) -> i64 {
    if a >= b { a } else { b }
}

/// `(a + b).min(c)` without overflow.
pub open spec fn add_min(a: i64, b: i64, c: i64) -> i64 {
    if a + b <= c { (a + b) as i64 } else { c }
}

/// The object whose play information is fetched: the job's.
pub open spec fn job_object_id(r: VideoRun) -> Seq<char> {
    match r.job {
        Some(j) => j.object_id@,
        None => r.object_id@,
    }
}

/// The run with a new phase.
pub open spec fn in_phase(r: VideoRun, p: VideoPhase) -> VideoRun {
    VideoRun { phase: p, ..r }
}

/// After an accepted report: done when the reply says `isPassed: true`,
/// otherwise keep playing.
pub open spec fn report_accepted(r: VideoRun, body: JsonValue, n: VideoRun, acts: Seq<VideoAction>) -> bool {
    if json_get(body, "isPassed"@) == Some(JsonValue::Bool(true)) {
        n == in_phase(r, VideoPhase::Ended) && acts == seq![
            VideoAction::Progress { playing: r.playing_time, duration: r.duration },
            VideoAction::Progress { playing: r.duration, duration: r.duration },
            VideoAction::Finish(VideoEnd::Passed),
        ]
    } else {
        n == in_phase(r, VideoPhase::AwaitTick) && acts == seq![
            VideoAction::Progress { playing: r.playing_time, duration: r.duration },
            VideoAction::Progress { playing: r.playing_time, duration: r.duration },
            VideoAction::Sleep { millis: 1000 },
        ]
    }
}

/// The transition of a run on an input: the next run and the actions to
/// perform, in order. An input the phase does not expect changes nothing.
pub open spec fn video_transition(r: VideoRun, input: VideoInput, n: VideoRun, acts: Seq<VideoAction>) -> bool {
    match (r.phase, input) {
        (VideoPhase::Start, VideoInput::Begin) => n == in_phase(r, VideoPhase::AwaitAttachment) && acts
            == seq![VideoAction::FetchAttachment],
        (VideoPhase::AwaitAttachment, VideoInput::Attachment(Err(e))) => n == in_phase(
            r,
            VideoPhase::Ended,
        ) && acts == seq![VideoAction::Finish(VideoEnd::Failed(e))],
        (VideoPhase::AwaitAttachment, VideoInput::Attachment(Ok(att))) => {
            &&& video_job_outcome(att, r.object_id@, n.job)
            &&& n == VideoRun { job: n.job, phase: n.phase, ..r }
            &&& match n.job {
                None => n.phase is Ended && acts == seq![VideoAction::Finish(VideoEnd::NotAJob)],
                Some(job) => if job.already_passed {
                    n.phase is Ended && acts == seq![VideoAction::Finish(VideoEnd::AlreadyPassed)]
                } else {
                    n.phase is AwaitPlayInfo && acts == seq![
                        VideoAction::FetchPlayInfo { object_id: job.object_id, fid: job.fid },
                    ]
                },
            }
        },
        (VideoPhase::AwaitPlayInfo, VideoInput::PlayInfo(Err(e))) => n == in_phase(
            r,
            VideoPhase::Ended,
        ) && acts == seq![VideoAction::Finish(VideoEnd::Failed(e))],
        (VideoPhase::AwaitPlayInfo, VideoInput::PlayInfo(Ok(body))) => {
            exists|res: Result<VideoPlayInfo, ClientError>|
                #![trigger play_info_outcome(body, job_object_id(r), res)]
                play_info_outcome(body, job_object_id(r), res) && match res {
                    Ok(play) => {
                        &&& n == VideoRun {
                            play: Some(play),
                            phase: VideoPhase::CheckStop,
                            duration: max_i64(play.duration, 1),
                            report_rate: max_i64(r.report_rate_option, 1),
                            playing_time: 0,
                            report_counter: max_i64(r.report_rate_option, 1),
                            ..r
                        }
                        &&& acts == seq![VideoAction::ReadStop]
                    },
                    Err(e) => n == in_phase(r, VideoPhase::Ended) && acts == seq![
                        VideoAction::Finish(VideoEnd::Failed(e)),
                    ],
                }
        },
        (VideoPhase::CheckStop, VideoInput::StopFlag(true)) => n == in_phase(r, VideoPhase::Ended)
            && acts == seq![VideoAction::Finish(VideoEnd::Stopped)],
        (VideoPhase::CheckStop, VideoInput::StopFlag(false)) => if r.report_counter >= r.report_rate
            || r.playing_time >= r.duration {
            n == VideoRun { phase: VideoPhase::AwaitReport, report_counter: 0, ..r } && acts == seq![
                VideoAction::Report { playing_time: r.playing_time },
            ]
        } else {
            n == in_phase(r, VideoPhase::AwaitTick) && acts == seq![
                VideoAction::Progress { playing: r.playing_time, duration: r.duration },
                VideoAction::Sleep { millis: 1000 },
            ]
        },
        (VideoPhase::AwaitReport, VideoInput::Reported(Err(e))) => n == in_phase(r, VideoPhase::Ended)
            && acts == seq![VideoAction::Finish(VideoEnd::Failed(e))],
        (VideoPhase::AwaitReport, VideoInput::Reported(Ok(body))) => match json_get(body, "error"@) {
            Some(err) => if !(err is Null) {
                &&& n == in_phase(r, VideoPhase::Ended)
                &&& acts.len() == 1
                &&& acts[0] matches VideoAction::Finish(VideoEnd::Failed(ClientError::Api(m))) && m@
                    == "视频上报失败: "@ + json_text(err)
            } else {
                report_accepted(r, body, n, acts)
            },
            None => report_accepted(r, body, n, acts),
        },
        (VideoPhase::AwaitTick, VideoInput::Ticked) => n == VideoRun {
            phase: VideoPhase::CheckStop,
            playing_time: add_min(r.playing_time, r.step, r.duration),
            report_counter: add_min(r.report_counter, r.step, i64::MAX),
            ..r
        } && acts == seq![VideoAction::ReadStop],
        _ => n == r && acts.len() == 0,
    }
}

/// One step of `complete_video`: consumes the run and what the caller
/// reports, and returns the next run with the actions to perform.
pub fn video_step(r: VideoRun, input: VideoInput) -> (out: (VideoRun, Vec<VideoAction>))
    requires
        video_wf(r),
    ensures
        video_transition(r, input, out.0, out.1@),
        video_wf(out.0),
{
    let ghost r0 = r;
    let ghost inp0 = input;
    let VideoRun {
        ctx,
        object_id,
        puid,
        step,
        report_rate_option,
        phase,
        job,
        play,
        duration,
        report_rate,
        playing_time,
        report_counter,
    } = r;
    match (phase, input) {
        (VideoPhase::Start, VideoInput::Begin) => {
            let n = VideoRun { ctx, object_id, puid, step, report_rate_option, phase: VideoPhase::AwaitAttachment, job, play, duration, report_rate, playing_time, report_counter };
            let mut acts = Vec::new();
            acts.push(VideoAction::FetchAttachment);
            assert(video_transition(r0, inp0, n, acts@));
            (n, acts)
        },
        (VideoPhase::AwaitAttachment, VideoInput::Attachment(res)) => {
            match res {
                Err(e) => {
                    let n = VideoRun { ctx, object_id, puid, step, report_rate_option, phase: VideoPhase::Ended, job, play, duration, report_rate, playing_time, report_counter };
                    let mut acts = Vec::new();
                    acts.push(VideoAction::Finish(VideoEnd::Failed(e)));
                    assert(video_transition(r0, inp0, n, acts@));
                    (n, acts)
                },
                Ok(att) => {
                    let parsed = parse_video_attachment(&att, object_id.as_str());
                    let found = match parsed {
                        Ok(j) => j,
                        Err(_) => None,
                    };
                    let mut acts = Vec::new();
                    match found {
                        None => {
                            acts.push(VideoAction::Finish(VideoEnd::NotAJob));
                            let n = VideoRun { ctx, object_id, puid, step, report_rate_option, phase: VideoPhase::Ended, job: None, play, duration, report_rate, playing_time, report_counter };
                            assert(video_transition(r0, inp0, n, acts@));
                            (n, acts)
                        },
                        Some(j) => {
                            if j.already_passed {
                                acts.push(VideoAction::Finish(VideoEnd::AlreadyPassed));
                                let n = VideoRun { ctx, object_id, puid, step, report_rate_option, phase: VideoPhase::Ended, job: Some(j), play, duration, report_rate, playing_time, report_counter };
                                assert(video_transition(r0, inp0, n, acts@));
                                (n, acts)
                            } else {
                                acts.push(VideoAction::FetchPlayInfo { object_id: j.object_id.clone(), fid: j.fid });
                                let n = VideoRun { ctx, object_id, puid, step, report_rate_option, phase: VideoPhase::AwaitPlayInfo, job: Some(j), play, duration, report_rate, playing_time, report_counter };
                                assert(video_transition(r0, inp0, n, acts@));
                                (n, acts)
                            }
                        },
                    }
                },
            }
        },
        (VideoPhase::AwaitPlayInfo, VideoInput::PlayInfo(res)) => {
            match res {
                Err(e) => {
                    let n = VideoRun { ctx, object_id, puid, step, report_rate_option, phase: VideoPhase::Ended, job, play, duration, report_rate, playing_time, report_counter };
                    let mut acts = Vec::new();
                    acts.push(VideoAction::Finish(VideoEnd::Failed(e)));
                    assert(video_transition(r0, inp0, n, acts@));
                    (n, acts)
                },
                Ok(body) => {
                    let info = match &job {
                        Some(j) => play_info_from(&body, j.object_id.as_str()),
                        None => play_info_from(&body, object_id.as_str()),
                    };
                    let ghost info0 = info;
                    let ghost oid = job_object_id(r0);
                    assert(play_info_outcome(body, oid, info0));
                    let mut acts = Vec::new();
                    match info {
                        Err(e) => {
                            acts.push(VideoAction::Finish(VideoEnd::Failed(e)));
                            let n = VideoRun { ctx, object_id, puid, step, report_rate_option, phase: VideoPhase::Ended, job, play, duration, report_rate, playing_time, report_counter };
                            assert(play_info_outcome(body, oid, Err(e)));
                            assert(video_transition(r0, inp0, n, acts@));
                            (n, acts)
                        },
                        Ok(p) => {
                            let d = if p.duration >= 1 { p.duration } else { 1 };
                            let rate = if report_rate_option >= 1 { report_rate_option } else { 1 };
                            acts.push(VideoAction::ReadStop);
                            let n = VideoRun { ctx, object_id, puid, step, report_rate_option, phase: VideoPhase::CheckStop, job, play: Some(p), duration: d, report_rate: rate, playing_time: 0, report_counter: rate };
                            assert(video_transition(r0, inp0, n, acts@));
                            (n, acts)
                        },
                    }
                },
            }
        },
        (VideoPhase::CheckStop, VideoInput::StopFlag(stop)) => {
            let mut acts = Vec::new();
            if stop {
                acts.push(VideoAction::Finish(VideoEnd::Stopped));
                let n = VideoRun { ctx, object_id, puid, step, report_rate_option, phase: VideoPhase::Ended, job, play, duration, report_rate, playing_time, report_counter };
                assert(video_transition(r0, inp0, n, acts@));
                (n, acts)
            } else if report_counter >= report_rate || playing_time >= duration {
                acts.push(VideoAction::Report { playing_time });
                let n = VideoRun { ctx, object_id, puid, step, report_rate_option, phase: VideoPhase::AwaitReport, job, play, duration, report_rate, playing_time, report_counter: 0 };
                assert(video_transition(r0, inp0, n, acts@));
                (n, acts)
            } else {
                acts.push(VideoAction::Progress { playing: playing_time, duration });
                acts.push(VideoAction::Sleep { millis: 1000 });
                assert(acts@ =~= seq![
                    VideoAction::Progress { playing: playing_time, duration },
                    VideoAction::Sleep { millis: 1000 },
                ]);
                let n = VideoRun { ctx, object_id, puid, step, report_rate_option, phase: VideoPhase::AwaitTick, job, play, duration, report_rate, playing_time, report_counter };
                assert(video_transition(r0, inp0, n, acts@));
                (n, acts)
            }
        },
        (VideoPhase::AwaitReport, VideoInput::Reported(res)) => {
            let mut acts = Vec::new();
            match res {
                Err(e) => {
                    acts.push(VideoAction::Finish(VideoEnd::Failed(e)));
                    let n = VideoRun { ctx, object_id, puid, step, report_rate_option, phase: VideoPhase::Ended, job, play, duration, report_rate, playing_time, report_counter };
                    assert(video_transition(r0, inp0, n, acts@));
                    (n, acts)
                },
                Ok(body) => {
                    match report_reply_check(&body) {
                        Err(e) => {
                            acts.push(VideoAction::Finish(VideoEnd::Failed(e)));
                            let n = VideoRun { ctx, object_id, puid, step, report_rate_option, phase: VideoPhase::Ended, job, play, duration, report_rate, playing_time, report_counter };
                            assert(video_transition(r0, inp0, n, acts@));
                            (n, acts)
                        },
                        Ok(()) => {
                            let passed = match body.get("isPassed") {
                                Some(JsonValue::Bool(b)) => *b,
                                _ => false,
                            };
                            acts.push(VideoAction::Progress { playing: playing_time, duration });
                            if passed {
                                acts.push(VideoAction::Progress { playing: duration, duration });
                                acts.push(VideoAction::Finish(VideoEnd::Passed));
                                assert(acts@ =~= seq![
                                    VideoAction::Progress { playing: playing_time, duration },
                                    VideoAction::Progress { playing: duration, duration },
                                    VideoAction::Finish(VideoEnd::Passed),
                                ]);
                                let n = VideoRun { ctx, object_id, puid, step, report_rate_option, phase: VideoPhase::Ended, job, play, duration, report_rate, playing_time, report_counter };
                                assert(video_transition(r0, inp0, n, acts@));
                                (n, acts)
                            } else {
                                acts.push(VideoAction::Progress { playing: playing_time, duration });
                                acts.push(VideoAction::Sleep { millis: 1000 });
                                assert(acts@ =~= seq![
                                    VideoAction::Progress { playing: playing_time, duration },
                                    VideoAction::Progress { playing: playing_time, duration },
                                    VideoAction::Sleep { millis: 1000 },
                                ]);
                                let n = VideoRun { ctx, object_id, puid, step, report_rate_option, phase: VideoPhase::AwaitTick, job, play, duration, report_rate, playing_time, report_counter };
                                assert(video_transition(r0, inp0, n, acts@));
                                (n, acts)
                            }
                        },
                    }
                },
            }
        },
        (VideoPhase::AwaitTick, VideoInput::Ticked) => {
            let pt = if step <= duration - playing_time { playing_time + step } else { duration };
            let rc = if step <= i64::MAX - report_counter { report_counter + step } else { i64::MAX };
            let mut acts = Vec::new();
            acts.push(VideoAction::ReadStop);
            let n = VideoRun { ctx, object_id, puid, step, report_rate_option, phase: VideoPhase::CheckStop, job, play, duration, report_rate, playing_time: pt, report_counter: rc };
            assert(video_transition(r0, inp0, n, acts@));
            (n, acts)
        },
        (ph, inp) => {
            let n = VideoRun { ctx, object_id, puid, step, report_rate_option, phase: ph, job, play, duration, report_rate, playing_time, report_counter };
            (n, Vec::new())
        },
    }
}

/// What `complete_video` returns for an ending: a message and whether the
/// video counts as done, or the error.
pub open spec fn video_end_outcome(end: VideoEnd, title: Seq<char>, r: Result<(String, bool), ClientError>) -> bool {
    match end {
        VideoEnd::NotAJob => r matches Ok((m, done)) && m@ == "非任务点视频，已跳过"@ && !done,
        VideoEnd::AlreadyPassed => r matches Ok((m, done)) && m@ == "视频已完成"@ && done,
        VideoEnd::Passed => r matches Ok((m, done)) && m@ == "视频完成："@ + title && done,
        VideoEnd::Stopped => r matches Err(ClientError::Api(m)) && m@ == "已停止"@,
        VideoEnd::Failed(e) => r == Err::<(String, bool), ClientError>(e),
    }
}

/// The result of a finished run; `title` is the play information's title.
pub fn video_end_result(end: VideoEnd, title: &str) -> (r: Result<(String, bool), ClientError>)
    ensures
        video_end_outcome(end, title@, r),
{
    match end {
        VideoEnd::NotAJob => Ok((string_of_str("非任务点视频，已跳过"), false)),
        VideoEnd::AlreadyPassed => Ok((string_of_str("视频已完成"), true)),
        VideoEnd::Passed => Ok((concat("视频完成：", title), true)),
        VideoEnd::Stopped => Err(ClientError::Api(string_of_str("已停止"))),
        VideoEnd::Failed(e) => Err(e),
    }
}


// ------------------------------------------------------------------ laws

/// A step that ends the completion finishes it, with `Finish` last; any
/// other step asks for no `Finish`.
pub open spec fn video_ends_right(n: VideoRun, acts: Seq<VideoAction>) -> bool {
    if n.phase is Ended {
        &&& acts.len() > 0
        &&& acts.last() is Finish
        &&& forall|k: int| 0 <= k < acts.len() - 1 ==> !(#[trigger] acts[k] is Finish)
    } else {
        forall|k: int| 0 <= k < acts.len() ==> !(#[trigger] acts[k] is Finish)
    }
}

/// The completion ends exactly when it says so: every step from a run that
/// has not ended asks for `Finish` if and only if it ends the run, and then
/// as its last action.
pub proof fn lemma_video_ends_with_finish(r: VideoRun, input: VideoInput, n: VideoRun, acts: Seq<VideoAction>)
    requires
        !(r.phase is Ended),
        video_transition(r, input, n, acts),
    ensures
        video_ends_right(n, acts),
{
    match (r.phase, input) {
        (VideoPhase::AwaitPlayInfo, VideoInput::PlayInfo(Ok(body))) => {
            let res = choose|res: Result<VideoPlayInfo, ClientError>|
                #![trigger play_info_outcome(body, job_object_id(r), res)]
                play_info_outcome(body, job_object_id(r), res) && match res {
                    Ok(play) => {
                        &&& n == VideoRun {
                            play: Some(play),
                            phase: VideoPhase::CheckStop,
                            duration: max_i64(play.duration, 1),
                            report_rate: max_i64(r.report_rate_option, 1),
                            playing_time: 0,
                            report_counter: max_i64(r.report_rate_option, 1),
                            ..r
                        }
                        &&& acts == seq![VideoAction::ReadStop]
                    },
                    Err(e) => n == in_phase(r, VideoPhase::Ended) && acts == seq![
                        VideoAction::Finish(VideoEnd::Failed(e)),
                    ],
                };
        },
        _ => {},
    }
}

/// An ended completion stays ended: every input leaves it as it is and
/// asks for nothing.
pub proof fn lemma_video_ended_is_final(r: VideoRun, input: VideoInput, n: VideoRun, acts: Seq<VideoAction>)
    requires
        r.phase is Ended,
        video_transition(r, input, n, acts),
    ensures
        n == r,
        acts.len() == 0,
{
}

/// A stop request is honoured at the next check: the completion ends with
/// `Finish(Stopped)` and sends no further report.
pub proof fn lemma_video_stop_honoured(r: VideoRun, n: VideoRun, acts: Seq<VideoAction>)
    requires
        r.phase is CheckStop,
        video_transition(r, VideoInput::StopFlag(true), n, acts),
    ensures
        n.phase is Ended,
        acts == seq![VideoAction::Finish(VideoEnd::Stopped)],
{
}

/// Playback reaching the end is always reported: at a check that is not a
/// stop, a position at the duration sends a report of that position.
pub proof fn lemma_video_end_reported(r: VideoRun, n: VideoRun, acts: Seq<VideoAction>)
    requires
        video_wf(r),
        r.phase is CheckStop,
        r.playing_time == r.duration,
        video_transition(r, VideoInput::StopFlag(false), n, acts),
    ensures
        n.phase is AwaitReport,
        acts == seq![VideoAction::Report { playing_time: r.duration }],
{
}

/// Reports come every `report_rate` seconds of play: a tick moves the
/// position on by the step (up to the duration) and the report counter by
/// the step (saturating at `i64::MAX`), and the check that follows sends a
/// report exactly when the counter has reached the report rate or the
/// position the duration, and then of the new position, restarting the
/// counter from 0.
pub proof fn lemma_video_reports_every_rate(
    r: VideoRun,
    n1: VideoRun,
    a1: Seq<VideoAction>,
    n2: VideoRun,
    a2: Seq<VideoAction>,
)
    requires
        video_wf(r),
        r.phase is AwaitTick,
        video_transition(r, VideoInput::Ticked, n1, a1),
        video_transition(n1, VideoInput::StopFlag(false), n2, a2),
    ensures
        a1 == seq![VideoAction::ReadStop],
        n1.playing_time == (if r.playing_time + r.step <= r.duration {
            r.playing_time + r.step
        } else {
            r.duration as int
        }),
        n1.report_counter == (if r.report_counter + r.step <= i64::MAX {
            r.report_counter + r.step
        } else {
            i64::MAX as int
        }),
        (a2 == seq![VideoAction::Report { playing_time: n1.playing_time }]) <==> (r.report_counter
            + r.step >= r.report_rate || r.playing_time + r.step >= r.duration),
        a2 == seq![VideoAction::Report { playing_time: n1.playing_time }] ==> n2.report_counter == 0
            && n2.phase is AwaitReport,
{
    if !(r.report_counter + r.step >= r.report_rate || r.playing_time + r.step >= r.duration) {
        assert(a2.len() == 2);
        assert(a2 != seq![VideoAction::Report { playing_time: n1.playing_time }]);
    }
}

/// Playback starts with a report of position 0: once the play information
/// is in, the first check that is not a stop reports position 0.
pub proof fn lemma_video_first_report_at_zero(
    r: VideoRun,
    body: JsonValue,
    n1: VideoRun,
    a1: Seq<VideoAction>,
    n2: VideoRun,
    a2: Seq<VideoAction>,
)
    requires
        r.phase is AwaitPlayInfo,
        video_transition(r, VideoInput::PlayInfo(Ok(body)), n1, a1),
        n1.phase is CheckStop,
        video_transition(n1, VideoInput::StopFlag(false), n2, a2),
    ensures
        n1.playing_time == 0,
        (a2 == seq![VideoAction::Report { playing_time: 0 }]),
{
    let res = choose|res: Result<VideoPlayInfo, ClientError>|
        #![trigger play_info_outcome(body, job_object_id(r), res)]
        play_info_outcome(body, job_object_id(r), res) && match res {
            Ok(play) => {
                &&& n1 == VideoRun {
                    play: Some(play),
                    phase: VideoPhase::CheckStop,
                    duration: max_i64(play.duration, 1),
                    report_rate: max_i64(r.report_rate_option, 1),
                    playing_time: 0,
                    report_counter: max_i64(r.report_rate_option, 1),
                    ..r
                }
                &&& a1 == seq![VideoAction::ReadStop]
            },
            Err(e) => n1 == in_phase(r, VideoPhase::Ended) && a1 == seq![
                VideoAction::Finish(VideoEnd::Failed(e)),
            ],
        };
}

/// A report the server accepts ends the completion exactly when its reply
/// says `isPassed: true` (with `Finish(Passed)`); otherwise playing goes on
/// after a one-second sleep.
pub proof fn lemma_video_passed_ends(r: VideoRun, body: JsonValue, n: VideoRun, acts: Seq<VideoAction>)
    requires
        r.phase is AwaitReport,
        json_get(body, "error"@) is None || json_get(body, "error"@) == Some(JsonValue::Null),
        video_transition(r, VideoInput::Reported(Ok(body)), n, acts),
    ensures
        json_get(body, "isPassed"@) == Some(JsonValue::Bool(true)) ==> n.phase is Ended && acts.last()
            == VideoAction::Finish(VideoEnd::Passed),
        (json_get(body, "isPassed"@) != Some(JsonValue::Bool(true)) ==> n.phase is AwaitTick
            && acts.last() == VideoAction::Sleep { millis: 1000 }),
{
}
} // verus!
