use cxkitty::attachment::{attachment_fid, attachment_from_html, find_by_object_id};
use cxkitty::client::ClientError;
use cxkitty::courses::{courses_from_reply, ChannelContent, ChannelItem, ClassListReply, CourseData, CourseWrap};
use cxkitty::document::{document_report_check, document_result, parse_document_attachment};
use cxkitty::json::{parse_json_or_null, JsonValue};
use cxkitty::login::{account_from_sso, check_login, login_form, LoginReply, SsoMsg, SsoReply};
use cxkitty::qr::qr_status;
use cxkitty::video::{parse_video_attachment, play_info_from, report_reply_check, report_status_step, ReportStep};

fn json(text: &str) -> JsonValue {
    parse_json_or_null(text)
}

fn api_message(e: &ClientError) -> String {
    match e {
        ClientError::Api(m) => m.clone(),
        _ => panic!("not an API error"),
    }
}

#[test]
fn json_parse_and_reading() {
    let v = json(r#"{"a": 1, "b": [true, "x", null], "c": -5, "d": "42"}"#);
    assert_eq!(v.get("a").and_then(|x| x.to_i64()), Some(1));
    assert_eq!(v.get("c").and_then(|x| x.to_i64()), Some(-5));
    assert_eq!(v.get("d").and_then(|x| x.to_i64()), Some(42));
    let b = v.get("b").unwrap();
    assert_eq!(b.at(0).and_then(|x| x.as_bool()), Some(true));
    assert_eq!(b.at(1).and_then(|x| x.as_str()).map(|s| s.as_str()), Some("x"));
    assert!(b.at(2).unwrap().is_null());
    assert!(b.at(3).is_none());
    assert!(json("not json").is_null());
}

fn num(n: i64) -> JsonValue {
    JsonValue::Number(n.to_string())
}

fn item(course_id: Option<i64>, class_id: i64, cpi: i64, key: Option<i64>, name: Option<&str>) -> ChannelItem {
    ChannelItem {
        cpi: Some(num(cpi)),
        key: key.map(num),
        content: Some(ChannelContent {
            id: Some(num(class_id)),
            state: None,
            course: Some(CourseWrap {
                data: Some(vec![CourseData {
                    id: course_id.map(num),
                    name: name.map(|s| s.to_string()),
                    teacherfactor: None,
                }]),
            }),
        }),
    }
}

#[test]
fn courses_of_class_list() {
    let reply = ClassListReply {
        result: Some(1),
        channel_list: Some(vec![
            item(Some(10), 20, 30, Some(40), Some("高数")),
            item(None, 21, 31, None, None),
            item(Some(11), 22, 32, None, None),
        ]),
    };
    let cs = courses_from_reply(&reply).ok().unwrap();
    assert_eq!(cs.len(), 2);
    assert_eq!((cs[0].course_id, cs[0].class_id, cs[0].cpi, cs[0].key), (10, 20, 30, 40));
    assert_eq!(cs[0].name, "高数");
    assert_eq!(cs[0].teacher_name, "未知");
    assert_eq!(cs[0].state, 0);
    assert_eq!((cs[1].course_id, cs[1].key), (11, 22));
    assert_eq!(cs[1].name, "未命名课程");
}

#[test]
fn login_reply_verdicts() {
    assert!(check_login(&LoginReply { status: Some(true), msg: None }).is_ok());
    let e = check_login(&LoginReply { status: Some(false), msg: Some(JsonValue::Str("密码错误".to_string())) });
    assert_eq!(api_message(&e.err().unwrap()), "登录失败: \"密码错误\"");
    let e = check_login(&LoginReply { status: None, msg: None });
    assert_eq!(api_message(&e.err().unwrap()), "登录失败: login failed");
    let f = login_form("13800138000", "");
    assert_eq!(f[0], ("fid".to_string(), "-1".to_string()));
    assert!(f.iter().any(|(k, v)| k == "password" && v == "LXYPGIOJyFUvuG1SPO0nVQ=="));
}

#[test]
fn account_of_sso_reply() {
    let msg = SsoMsg {
        puid: Some(JsonValue::Str("123".to_string())),
        name: Some("张三".to_string()),
        sex: None,
        phone: Some("138".to_string()),
        schoolname: None,
        uname: Some("s1".to_string()),
    };
    let acc = account_from_sso(&SsoReply { result: Some(1), msg: Some(msg) }).ok().unwrap();
    assert_eq!(acc.puid, 123);
    assert_eq!(acc.name, "张三");
    assert_eq!(acc.sex, -1);
    assert_eq!(acc.school, "");
    assert_eq!(acc.stu_id, Some("s1".to_string()));
    let e = account_from_sso(&SsoReply { result: Some(0), msg: None }).err().unwrap();
    assert_eq!(api_message(&e), "会话无效或未登录");
    let bad = SsoMsg { puid: None, name: None, sex: None, phone: None, schoolname: None, uname: None };
    match account_from_sso(&SsoReply { result: Some(1), msg: Some(bad) }) {
        Err(ClientError::Parse(m)) => assert_eq!(m, "missing puid"),
        _ => panic!("expected a parse error"),
    }
}

#[test]
fn attachment_setting_of_card_page() {
    let html = r#"<script>window.AttachmentSetting = {"defaults":{"fid":77},"attachments":[{"property":{"objectid":"o1"},"jobid":"j1"}]};</script>"#;
    let att = attachment_from_html(html).ok().unwrap();
    assert_eq!(attachment_fid(&att), Some(77));
    assert!(find_by_object_id(&att, "o1").is_some());
    assert!(find_by_object_id(&att, "o2").is_none());
    let locked = attachment_from_html("<p>章节未开放</p>").err().unwrap();
    assert_eq!(api_message(&locked), "章节未开放！");
    let none = attachment_from_html("<p>x</p>").err().unwrap();
    assert_eq!(api_message(&none), "无法解析 AttachmentSetting");
    match attachment_from_html("window.AttachmentSetting = {bad;") {
        Err(ClientError::Parse(m)) => assert!(m.starts_with("AttachmentSetting JSON: ")),
        _ => panic!("expected a parse error"),
    }
}

#[test]
fn video_job_and_play_info() {
    let att = json(r#"{"defaults":{"fid":5},"attachments":[{"property":{"objectid":"o1","rt":0.9},"jobid":"j1","otherInfo":"n=1&c=2","isPassed":false}]}"#);
    let job = parse_video_attachment(&att, "o1").ok().unwrap().unwrap();
    assert_eq!(job.job_id, "j1");
    assert_eq!(job.other_info, "n=1&c=2");
    assert_eq!(job.fid, 5);
    assert!(!job.already_passed);
    assert!(parse_video_attachment(&att, "zz").ok().unwrap().is_none());
    let info = play_info_from(&json(r#"{"status":"success","dtoken":"d1","duration":300,"filename":"v.mp4"}"#), "o1").ok().unwrap();
    assert_eq!((info.dtoken.as_str(), info.duration, info.title.as_str()), ("d1", 300, "v.mp4"));
    let e = play_info_from(&json(r#"{"status":"fail","msg":"no"}"#), "o1").err().unwrap();
    assert_eq!(api_message(&e), "拉取视频失败: \"no\"");
    let e = play_info_from(&json(r#"{"status":"success"}"#), "o1").err().unwrap();
    assert_eq!(api_message(&e), "视频缺少 dtoken");
}

#[test]
fn report_replies() {
    assert!(report_reply_check(&json(r#"{"isPassed":true}"#)).is_ok());
    assert!(report_reply_check(&json(r#"{"error":null}"#)).is_ok());
    let e = report_reply_check(&json(r#"{"error":"bad enc"}"#)).err().unwrap();
    assert_eq!(api_message(&e), "视频上报失败: \"bad enc\"");
    assert!(matches!(report_status_step(0, 403, "403 Forbidden"), ReportStep::Retry));
    match report_status_step(1, 403, "403 Forbidden") {
        ReportStep::Fail(e) => assert_eq!(api_message(&e), "视频上报 HTTP 403 Forbidden"),
        _ => panic!("expected a failure"),
    }
    assert!(matches!(report_status_step(0, 200, "200 OK"), ReportStep::ReadBody));
    assert!(document_report_check(&json(r#"{"status":true}"#)).is_ok());
}

#[test]
fn document_jobs() {
    let att = json(r#"{"attachments":[{"property":{"objectid":"d1","name":"讲义.pdf"},"job":true,"jobid":"j","jtoken":"t"},{"property":{"objectid":"d2"},"job":"1","jtoken":"t"},{"property":{"objectid":"d3"},"job":false}]}"#);
    let j = parse_document_attachment(&att, "d1").ok().unwrap().unwrap();
    assert_eq!((j.job_id.as_str(), j.jtoken.as_str(), j.title.as_str()), ("j", "t", "讲义.pdf"));
    let e = parse_document_attachment(&att, "d2").err().unwrap();
    assert_eq!(api_message(&e), "文档缺少 jobid");
    assert!(parse_document_attachment(&att, "d3").ok().unwrap().is_none());
    let (m, ok) = document_result(Some(&j));
    assert_eq!(m, "文档完成：讲义.pdf");
    assert!(ok);
    let (m, ok) = document_result(None);
    assert_eq!(m, "非任务点文档，已跳过");
    assert!(!ok);
}

#[test]
fn qr_poll_status() {
    let (ok, detail) = qr_status(&json(r#"{"status":true,"mes":"ok"}"#));
    assert!(ok);
    assert_eq!(detail, Some("ok".to_string()));
    let (ok, _) = qr_status(&json(r#"{"status":false,"type":"3"}"#));
    assert!(!ok);
}
