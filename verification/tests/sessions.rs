use cxkitty::commands::{
    brush_started, check_brush_start, qr_session_of_url, relogin_failure, relogin_password, require_puid,
    require_qr_session, session_not_found, stop_brush_reply,
};
use cxkitty::client::ClientError;
use cxkitty::courses::CourseInfo;
use cxkitty::login::AccountInfo;
use cxkitty::qr::{extract_qr_field, qr_url, QrSession};
use cxkitty::sessions::{
    cookie_pairs, cookie_string, is_session_file, mask_name, mask_phone, saved_session_of, saved_sessions,
    session_file_name, SessionFile,
};

fn file(phone: &str, name: &str, passwd: Option<&str>) -> SessionFile {
    SessionFile {
        phone: phone.to_string(),
        puid: 7,
        passwd: passwd.map(|s| s.to_string()),
        name: name.to_string(),
        ck: String::new(),
    }
}

fn account(puid: i64) -> AccountInfo {
    AccountInfo {
        puid,
        name: "张三".to_string(),
        sex: 1,
        phone: "13800138000".to_string(),
        school: "S".to_string(),
        stu_id: None,
    }
}

fn course() -> CourseInfo {
    CourseInfo { course_id: 1, class_id: 2, cpi: 3, key: 2, name: "C".to_string(), teacher_name: "T".to_string(), state: 0 }
}

#[test]
fn mask_phone_keeps_head_and_tail() {
    assert_eq!(mask_phone("13800138000"), "138****8000");
    assert_eq!(mask_phone("12345678"), "123****5678");
    assert_eq!(mask_phone("1234567"), "*******");
    assert_eq!(mask_phone("12"), "**");
    assert_eq!(mask_phone(""), "*");
}

#[test]
fn mask_name_cases() {
    assert_eq!(mask_name(""), "");
    assert_eq!(mask_name("张"), "张");
    assert_eq!(mask_name("张三"), "张*");
    assert_eq!(mask_name("欧阳修"), "欧*修");
    assert_eq!(mask_name("abcde"), "a***e");
}

#[test]
fn saved_session_entry_is_masked() {
    let s = saved_session_of(&file("13800138000", "张三", Some("pw")));
    assert_eq!(s.phone, "13800138000");
    assert_eq!(s.puid, 7);
    assert_eq!(s.name, "张三");
    assert_eq!(s.masked_name, "张*");
    assert_eq!(s.masked_phone, "138****8000");
    assert!(s.has_password);
    assert!(!saved_session_of(&file("1", "", None)).has_password);
}

#[test]
fn saved_sessions_sorted_by_phone_stably() {
    let files = vec![
        file("139", "b", None),
        file("138", "a", None),
        file("139", "c", Some("x")),
        file("1", "d", None),
    ];
    let out = saved_sessions(&files);
    let phones: Vec<&str> = out.iter().map(|s| s.phone.as_str()).collect();
    assert_eq!(phones, vec!["1", "138", "139", "139"]);
    assert_eq!(out[2].name, "b");
    assert_eq!(out[3].name, "c");
}

#[test]
fn session_file_names_are_recognized() {
    assert_eq!(session_file_name("13800138000"), "13800138000.json");
    let inside = format!("/tmp/dir/{}", session_file_name("13800138000"));
    assert!(is_session_file(&inside, "/tmp/dir"));
    assert!(is_session_file("/tmp/dir/x.json", "/tmp/dir"));
    assert!(is_session_file("C:\\data\\session\\x.json", "C:\\data\\session"));
    assert!(!is_session_file("/tmp/dir/x.txt", "/tmp/dir"));
    assert!(!is_session_file("/tmp/dir/.json", "/tmp/dir"));
    assert!(!is_session_file("/tmp/dir/noext", "/tmp/dir"));
    assert!(!is_session_file("x.json", "/tmp/dir"));
    assert!(!is_session_file("/etc/x.json", "/tmp/dir"));
    assert!(!is_session_file("/tmp/dir/sub/x.json", "/tmp/dir"));
}

#[test]
fn cookie_string_round_trip() {
    let pairs = vec![
        ("uf".to_string(), "abc".to_string()),
        ("_uid".to_string(), "123".to_string()),
        ("e".to_string(), "".to_string()),
    ];
    let s = cookie_string(&pairs);
    assert_eq!(s, "uf=abc;_uid=123;e=;");
    assert_eq!(cookie_pairs(&s), pairs);
}

#[test]
fn cookie_pairs_trims_and_skips() {
    let got = cookie_pairs(" a = 1 ; ;noeq; b=x=y;");
    assert_eq!(got, vec![("a".to_string(), " 1".to_string()), ("b".to_string(), "x=y".to_string())]);
    assert!(cookie_pairs("").is_empty());
}

#[test]
fn qr_url_fields_read_back() {
    let s = QrSession { uuid: "u-123".to_string(), enc: "e456".to_string() };
    let url = qr_url(&s);
    assert_eq!(url, "https://passport2.chaoxing.com/toauthlogin?uuid=u-123&enc=e456&xxtrefer=&clientid=&mobiletip=");
    assert_eq!(extract_qr_field(&url, "uuid"), "u-123");
    assert_eq!(extract_qr_field(&url, "enc"), "e456");
    assert_eq!(extract_qr_field(&url, "missing"), "");
    assert_eq!(extract_qr_field(&url, "fid"), "");
    assert_eq!(extract_qr_field(&url, "clientid"), "");
    let q = qr_session_of_url(&url);
    assert_eq!(q.uuid, "u-123");
    assert_eq!(q.enc, "e456");
}

#[test]
fn brush_start_refusals_in_order() {
    let cs = vec![course()];
    let none: Vec<CourseInfo> = Vec::new();
    assert_eq!(check_brush_start(true, &cs, &Some(account(5))), Err("刷课任务已在运行".to_string()));
    assert_eq!(check_brush_start(false, &none, &Some(account(5))), Err("请先勾选课程".to_string()));
    assert_eq!(check_brush_start(false, &cs, &None), Err("请先登录".to_string()));
    assert_eq!(check_brush_start(false, &cs, &Some(account(5))), Ok(5));
    assert_eq!(require_puid(&None), Err("请先登录".to_string()));
}

#[test]
fn brush_replies() {
    let s = brush_started();
    assert!(s.started);
    assert_eq!(s.message, "刷课已开始");
    let a = stop_brush_reply(true);
    assert!(!a.started);
    assert_eq!(a.message, "已请求停止刷课");
    assert_eq!(stop_brush_reply(false).message, "当前没有运行中的刷课任务");
}

#[test]
fn saved_session_relogin_decisions() {
    assert_eq!(session_not_found(), "未找到对应会话");
    assert_eq!(relogin_password(&file("1", "a", Some("pw"))), Ok("pw".to_string()));
    assert_eq!(relogin_password(&file("1", "a", None)), Err("会话已失效，且本地没有保存密码".to_string()));
    assert_eq!(relogin_failure(&ClientError::Api("密码错误".to_string())), "自动重登失败: API error: 密码错误");
    assert_eq!(require_qr_session(&None).err(), Some("二维码登录尚未开始".to_string()));
    let q = require_qr_session(&Some(QrSession { uuid: "u".to_string(), enc: "e".to_string() })).ok().unwrap();
    assert_eq!((q.uuid.as_str(), q.enc.as_str()), ("u", "e"));
}
