use cxkitty::client::{mobile_ua, random_mobile_ua, web_ua};
use cxkitty::clock::now_ms;

#[test]
fn random_mobile_ua_has_the_client_shape() {
    let ua = random_mobile_ua();
    assert!(ua.starts_with("Dalvik/2.1.0 (Linux; U; Android "));
    let imei = ua.rsplit("(@Kalimdor)_").next().unwrap();
    assert_eq!(imei.len(), 32);
    assert!(imei.chars().all(|c| c.is_ascii_hexdigit() && !c.is_ascii_uppercase()));
    let version: u32 = ua["Dalvik/2.1.0 (Linux; U; Android ".len()..].split(';').next().unwrap().parse().unwrap();
    assert!((9..=12).contains(&version));
}

#[test]
fn mobile_ua_format() {
    let imei = "0123456789abcdef0123456789abcdef";
    assert_eq!(
        mobile_ua(10, 11, imei),
        format!("Dalvik/2.1.0 (Linux; U; Android 10; MI11 Build/SKQ1.210216.001) (device:MI11) Language/zh_CN com.chaoxing.mobile/ChaoXingStudy_3_5.1.4_android_phone_614_74 (@Kalimdor)_{imei}")
    );
    assert!(web_ua().starts_with("Mozilla/5.0 (Windows NT 10.0"));
}

#[test]
fn now_ms_is_current_milliseconds() {
    let t = now_ms();
    assert!(t.chars().all(|c| c.is_ascii_digit()));
    let n: u64 = t.parse().unwrap();
    assert!(n > 1_600_000_000_000);
}
