use cxkitty::exams::exams_from_html;
use cxkitty::homework::{
    absolute_location, map_status, middle_url, parse_hidden_params, parse_work_list, transfer_url, work_params_from,
    HiddenParams,
};
use cxkitty::markup::{attr_of, html_unescape_attr, iframe_iter};
use cxkitty::qr::{extract_hidden_input, qr_session_from_page};

#[test]
fn attr_of_double_then_single_quotes() {
    assert_eq!(attr_of(r#"<iframe module="insertvideo" data='x'"#, "module"), Some("insertvideo".to_string()));
    assert_eq!(attr_of(r#"<iframe module="insertvideo" data='x'"#, "data"), Some("x".to_string()));
    assert_eq!(attr_of(r#"<iframe module="open"#, "module"), None);
    assert_eq!(attr_of("<iframe>", "module"), None);
}

#[test]
fn unescape_attr_order() {
    assert_eq!(html_unescape_attr("&quot;a&quot;&#34;&amp;&lt;&gt;"), "\"a\"\"&<>");
    assert_eq!(html_unescape_attr("&amp;quot;"), "&quot;");
}

#[test]
fn iframe_iter_collects_complete_tags() {
    let html = r#"<p>x</p><iframe module="insertvideo" data="{&quot;objectid&quot;:&quot;o1&quot;}"></iframe><iframe module="" data="z"><iframe data='d2' module='work'>"#;
    let caps = iframe_iter(html);
    assert_eq!(caps.len(), 2);
    assert_eq!(caps[0].module, "insertvideo");
    assert_eq!(caps[0].data, r#"{"objectid":"o1"}"#);
    assert_eq!(caps[1].module, "work");
    assert_eq!(caps[1].data, "d2");
    assert!(iframe_iter("no frames").is_empty());
}

#[test]
fn map_status_labels() {
    assert_eq!(map_status(" 待做 "), ("待做".to_string(), "UNDONE".to_string()));
    assert_eq!(map_status("已过期"), ("已过期".to_string(), "EXPIRED".to_string()));
    assert_eq!(map_status("已完成"), ("已完成".to_string(), "DONE".to_string()));
    assert_eq!(map_status("待批阅"), ("待批阅".to_string(), "UNDONE_READ".to_string()));
    assert_eq!(map_status(""), ("其他".to_string(), "OTHER".to_string()));
    assert_eq!(map_status("别的"), ("其他".to_string(), "OTHER".to_string()));
}

#[test]
fn work_list_page_is_read() {
    let html = r#"<html><body><div class="ulDiv"><ul>
<li><div class="titTxt"><a title=" 作业一 " href="/work/1">x</a></div>
<span class="pt5">开始</span><span class="pt5">截止 2024-05-06 23:59</span><span class="pt5"><strong> 待做 </strong></span>
<div class="titOper"><span class="fl">  95  分 </span></div></li>
<li><div class="titTxt"><a>  作业
二 </a></div><span class="pt5"><strong>已完成</strong></span></li>
<li><span class="pt5">无链接</span></li>
</ul></div></body></html>"#;
    let items = parse_work_list(html, "课程A");
    assert_eq!(items.len(), 2);
    let a = &items[0];
    assert_eq!(a.course_name, "课程A");
    assert_eq!(a.work_name, "作业一");
    assert_eq!(a.work_url, Some("/work/1".to_string()));
    assert_eq!(a.status, "待做");
    assert_eq!(a.status_code, "UNDONE");
    assert_eq!(a.end_time, "2024-05-06");
    assert_eq!(a.result_num, "95 分");
    let b = &items[1];
    assert_eq!(b.work_name, "作业 二");
    assert_eq!(b.work_url, None);
    assert_eq!(b.status, "已完成");
    assert_eq!(b.status_code, "DONE");
    assert_eq!(b.end_time, "无限制");
    assert_eq!(b.result_num, "暂无成绩");
}

#[test]
fn hidden_params_of_course_page() {
    let html = r#"<input id="courseid" value="11"><input id="clazzid" value="22"><input id="cpi" value="33"><input id="oldenc" value="OE"><input id="enc" value="E"><span id="openc"> o  c </span>"#;
    let p = parse_hidden_params(html).unwrap();
    assert_eq!((p.course_id.as_str(), p.clazzid.as_str(), p.cpi.as_str()), ("11", "22", "33"));
    assert_eq!(p.enc, "OE");
    assert_eq!(p.openc, "o c");
    assert!(parse_hidden_params(r#"<input id="courseid" value=""><input id="clazzid" value="2"><input id="cpi" value="3">"#).is_none());
    assert!(parse_hidden_params("<p>nothing</p>").is_none());
}

#[test]
fn work_params_urls_and_redirect() {
    assert_eq!(middle_url(1, 2, 3), "https://mooc1.chaoxing.com/visit/stucoursemiddle?courseid=1&clazzid=2&cpi=3&ismooc2=1");
    assert_eq!(absolute_location("/a?b=1"), "https://mooc1.chaoxing.com/a?b=1");
    assert_eq!(absolute_location("https://x.com/"), "https://x.com/");
    let p = HiddenParams {
        course_id: "1".to_string(),
        clazzid: "2".to_string(),
        cpi: "3".to_string(),
        enc: "e".to_string(),
        openc: "o".to_string(),
    };
    assert_eq!(
        transfer_url(&p),
        "https://mooc1.chaoxing.com/mycourse/transfer?moocId=1&ut=s&clazzid=2&refer=https%3A%2F%2Fmooc1.chaoxing.com%2Fmycourse%2Fstudentcourse%3FcourseId%3D1%26clazzid%3D2%26cpi%3D3%26openc%3Do%26enc%3De"
    );
    let w = work_params_from(p, &Some("/mycourse/stu?courseid=9&classId=8&cpi=7&enc=NE&openc=NO&x=1".to_string()));
    assert_eq!((w.course_id.as_str(), w.clazzid.as_str(), w.cpi.as_str(), w.enc.as_str(), w.openc.as_str()), ("9", "8", "7", "NE", "NO"));
}

#[test]
fn exams_of_task_list_page() {
    let html = r#"<ul class="nav"><li data="/exam/phone/look?taskrefId=101&enc_task=ET&x=1"><p> 期中 </p><span> 待做 </span><span class="fr"> 2024-06-01 </span></li>
<li data="/exam?x=1"><p>no id</p></li><li data="/e?taskrefId=102"><span class="fr">  </span></li></ul>"#;
    let es = exams_from_html(html, 1, 2, 3, "课");
    assert_eq!(es.len(), 2);
    assert_eq!(es[0].exam_id, 101);
    assert_eq!(es[0].enc_task, "ET");
    assert_eq!(es[0].name, "期中");
    assert_eq!(es[0].status, "待做");
    assert_eq!(es[0].expire_time, Some("2024-06-01".to_string()));
    assert_eq!((es[0].course_id, es[0].class_id, es[0].cpi), (1, 2, 3));
    assert_eq!(es[1].exam_id, 102);
    assert_eq!(es[1].name, "未命名考试");
    assert_eq!(es[1].status, "");
    assert_eq!(es[1].expire_time, None);
    assert!(exams_from_html("<p>none</p>", 1, 2, 3, "课").is_empty());
}

#[test]
fn qr_login_page_fields() {
    let html = r#"<input id="uuid" value="U1"><input id="enc" value="E1">"#;
    assert_eq!(extract_hidden_input(html, "uuid"), Some("U1".to_string()));
    let s = qr_session_from_page(html).ok().unwrap();
    assert_eq!((s.uuid.as_str(), s.enc.as_str()), ("U1", "E1"));
    assert!(qr_session_from_page("<p></p>").is_err());
}

#[test]
fn element_attr_reads_unqualified_attribute() {
    let e = cxkitty::html::HtmlElement {
        text: "t".to_string(),
        attrs: vec![
            (("http://www.w3.org/1999/xlink".to_string(), "href".to_string()), "x".to_string()),
            ((String::new(), "href".to_string()), "a.html".to_string()),
            ((String::new(), "id".to_string()), "i1".to_string()),
        ],
        classes: vec!["k".to_string()],
    };
    assert_eq!(cxkitty::html::element_attr(&e, "href"), Some("a.html".to_string()));
    assert_eq!(cxkitty::html::element_attr(&e, "id"), Some("i1".to_string()));
    assert_eq!(cxkitty::html::element_attr(&e, "src"), None);
    assert!(cxkitty::html::element_has_class(&e, "k"));
    assert!(!cxkitty::html::element_has_class(&e, "z"));
}

#[test]
fn nested_json_is_converted_node_for_node() {
    let v = cxkitty::json::parse_json_or_null(r#"{"a":[1,{"b":"c"}],"n":null,"t":true}"#);
    let a = v.get("a").unwrap();
    assert_eq!(a.at(0).unwrap().number_i64(), Some(1));
    assert_eq!(a.at(1).unwrap().get("b").unwrap().as_str().map(|s| s.as_str()), Some("c"));
    assert!(v.get("n").unwrap().is_null());
    assert_eq!(v.get("t").unwrap().as_bool(), Some(true));
    assert!(cxkitty::json::parse_json_or_null("{oops").is_null());
}

fn hidden(course: &str) -> HiddenParams {
    HiddenParams {
        course_id: course.to_string(),
        clazzid: "2".to_string(),
        cpi: "3".to_string(),
        enc: "e".to_string(),
        openc: "o".to_string(),
    }
}

#[test]
fn hidden_params_from_page_or_redirect() {
    let got = cxkitty::homework::hidden_params_found(Some(hidden("1")), Some(hidden("9"))).ok().unwrap();
    assert_eq!(got.course_id, "1");
    let got = cxkitty::homework::hidden_params_found(None, Some(hidden("9"))).ok().unwrap();
    assert_eq!(got.course_id, "9");
    match cxkitty::homework::hidden_params_found(None, None) {
        Err(cxkitty::client::ClientError::Parse(m)) => assert_eq!(m, "无法从课程页解析 work 参数（courseid/clazzid）"),
        _ => panic!("expected the parse error"),
    }
}
