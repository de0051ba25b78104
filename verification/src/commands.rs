//! The decisions of the user-facing commands: when a command refuses, what
//! it answers, and what it hands to the work it starts.
use vstd::prelude::*;
use crate::client::{ClientError, error_text};
use crate::courses::CourseInfo;
use crate::login::AccountInfo;
use crate::qr::{QrSession, extract_qr_field, qr_field};
use crate::sessions::SessionFile;
use crate::text::{push_str, string_of_str};

verus! {

/// The answer to a request to start or stop brushing.
pub struct BrushStartResult {
    pub started: bool,
    pub message: String,
}

/// `require_puid`: the signed-in account's id, or "请先登录".
pub fn require_puid(account: &Option<AccountInfo>) -> (r: Result<i64, String>)
    ensures
        match account {
            Some(a) => r == Ok::<i64, String>(a.puid),
            None => r matches Err(m) && m@ == "请先登录"@,
        },
{
    match account {
        Some(a) => Ok(a.puid),
        None => Err(string_of_str("请先登录")),
    }
}

/// When `start_brush` refuses, and with which message: a run already going
/// first, then no course chosen, then no account.
pub open spec fn brush_start_refusal(running: bool, course_count: nat, account: Option<AccountInfo>) -> Option<
    Seq<char>,
> {
    if running {
        Some("刷课任务已在运行"@)
    } else if course_count == 0 {
        Some("请先勾选课程"@)
    } else if account is None {
        Some("请先登录"@)
    } else {
        None
    }
}

/// `start_brush` before it starts the run: the account id to run with, or
/// the refusal.
pub fn check_brush_start(running: bool, courses: &Vec<CourseInfo>, account: &Option<AccountInfo>) -> (r: Result<
    i64,
    String,
>)
    ensures
        match brush_start_refusal(running, courses@.len(), *account) {
            Some(m) => r matches Err(e) && e@ == m,
            None => r == Ok::<i64, String>(account->0.puid),
        },
{
    if running {
        return Err(string_of_str("刷课任务已在运行"));
    }
    if courses.len() == 0 {
        return Err(string_of_str("请先勾选课程"));
    }
    require_puid(account)
}

/// `start_brush`'s answer once the run is started.
pub fn brush_started() -> (r: BrushStartResult)
    ensures
        r.started,
        r.message@ == "刷课已开始"@,
{
    BrushStartResult { started: true, message: string_of_str("刷课已开始") }
}

/// `stop_brush`'s answer; a stop is requested only when a run is going.
pub fn stop_brush_reply(running: bool) -> (r: BrushStartResult)
    ensures
        !r.started,
        r.message@ == (if running {
            "已请求停止刷课"@
        } else {
            "当前没有运行中的刷课任务"@
        }),
{
    if running {
        BrushStartResult { started: false, message: string_of_str("已请求停止刷课") }
    } else {
        BrushStartResult { started: false, message: string_of_str("当前没有运行中的刷课任务") }
    }
}

/// `start_qr_login`: the QR session is the `uuid` and `enc` read back out
/// of the login URL.
pub fn qr_session_of_url(qr_url: &str) -> (r: QrSession)
    ensures
        r.uuid@ == qr_field(qr_url@, "uuid"@),
        r.enc@ == qr_field(qr_url@, "enc"@),
{
    QrSession { uuid: extract_qr_field(qr_url, "uuid"), enc: extract_qr_field(qr_url, "enc") }
}

/// `use_saved_session` when no session file was found.
pub fn session_not_found() -> (r: String)
    ensures
        r@ == "未找到对应会话"@,
{
    string_of_str("未找到对应会话")
}

/// `use_saved_session` once the saved cookies failed: the stored password
/// to sign in again with, or the refusal when none was stored.
pub fn relogin_password(session: &SessionFile) -> (r: Result<String, String>)
    ensures
        match session.passwd {
            Some(p) => r matches Ok(q) && q@ == p@,
            None => r matches Err(m) && m@ == "会话已失效，且本地没有保存密码"@,
        },
{
    match &session.passwd {
        Some(p) => Ok(p.clone()),
        None => Err(string_of_str("会话已失效，且本地没有保存密码")),
    }
}

/// `use_saved_session` when signing in again failed.
pub fn relogin_failure(e: &ClientError) -> (r: String)
    ensures
        r@ == "自动重登失败: "@ + error_text(*e),
{
    let mut out = string_of_str("自动重登失败: ");
    let m = e.message();
    push_str(&mut out, m.as_str());
    out
}

/// `poll_qr_login` before it polls: the QR session, or the refusal when no
/// QR login was started.
pub fn require_qr_session(active: &Option<QrSession>) -> (r: Result<QrSession, String>)
    ensures
        match active {
            Some(s) => r matches Ok(q) && q.uuid@ == s.uuid@ && q.enc@ == s.enc@,
            None => r matches Err(m) && m@ == "二维码登录尚未开始"@,
        },
{
    match active {
        Some(s) => Ok(QrSession { uuid: s.uuid.clone(), enc: s.enc.clone() }),
        None => Err(string_of_str("二维码登录尚未开始")),
    }
}

} // verus!
