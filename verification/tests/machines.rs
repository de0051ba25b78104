use cxkitty::attachment::CardContext;
use cxkitty::batch::{batch_run_new, batch_step, BatchAction, BatchInput};
use cxkitty::brush::{course_event, next_course, point_error_message, PointError};
use cxkitty::brush::{
    brush_run_new, brush_step, is_chapter_finished, note_to_event, BrushAction, BrushInput, BrushNote, BrushPhase,
};
use cxkitty::chapters::{
    apply_point_status, chapter_nodes, chapters_from_list, label_key_exec, sort_chapters, task_point_params,
    task_points_from_cards, ChapterInfo, TaskPointInfo,
};
use cxkitty::client::ClientError;
use cxkitty::courses::CourseInfo;
use cxkitty::json::{parse_json_or_null, JsonValue};
use cxkitty::video::{video_end_result, video_run_new, video_step, VideoAction, VideoEnd, VideoInput, VideoPhase};

fn chapter(id: i64, label: &str, jobs: i32, total: i32, finished: i32) -> ChapterInfo {
    ChapterInfo {
        chapter_id: id,
        name: format!("第{id}节"),
        label: label.to_string(),
        layer: 1,
        jobs,
        point_total: total,
        point_finished: finished,
    }
}

fn course() -> CourseInfo {
    CourseInfo { course_id: 1, class_id: 2, cpi: 3, key: 4, name: "C".to_string(), teacher_name: "T".to_string(), state: 0 }
}

fn video_point(id: i64) -> TaskPointInfo {
    TaskPointInfo {
        kind: "video".to_string(),
        title: "v".to_string(),
        chapter_id: id,
        chapter_label: "2".to_string(),
        object_id: Some("obj".to_string()),
        work_id: None,
        job_id: None,
        card_index: 0,
    }
}

#[test]
fn label_keys_and_sorting() {
    assert_eq!(label_key_exec("1.10"), vec![1, 10]);
    assert_eq!(label_key_exec("2.x.3"), vec![2, 3]);
    assert_eq!(label_key_exec(""), Vec::<i32>::new());
    let sorted = sort_chapters(&vec![chapter(1, "1.10", 0, 0, 0), chapter(2, "1.2", 0, 0, 0), chapter(3, "1", 0, 0, 0), chapter(4, "1.2", 0, 0, 0)]);
    let ids: Vec<i64> = sorted.iter().map(|c| c.chapter_id).collect();
    assert_eq!(ids, vec![3, 2, 4, 1]);
}

#[test]
fn chapter_list_reply() {
    let body = parse_json_or_null(r#"{"data":[{"course":{"data":[{"knowledge":{"data":[
        {"id":11,"name":" 二 ","label":"2","layer":1,"jobcount":3},
        {"id":"10","name":"一","label":"1","layer":"1","jobcount":0},
        {"id":12,"label":"3","layer":1}
    ]}}]}}]}"#);
    let cs = chapters_from_list(&body).ok().unwrap();
    assert_eq!(cs.len(), 2);
    assert_eq!((cs[0].chapter_id, cs[0].name.as_str(), cs[0].jobs), (10, "一", 0));
    assert_eq!((cs[1].chapter_id, cs[1].name.as_str(), cs[1].jobs), (11, "二", 3));
    match chapters_from_list(&parse_json_or_null(r#"{"data":[]}"#)) {
        Err(ClientError::Api(m)) => assert_eq!(m, "章节列表拉取失败"),
        _ => panic!("expected an API error"),
    }
    match chapters_from_list(&parse_json_or_null(r#"{}"#)) {
        Err(ClientError::Api(m)) => assert_eq!(m, "章节列表为空"),
        _ => panic!("expected an API error"),
    }
    assert!(chapters_from_list(&parse_json_or_null(r#"{"data":[{}]}"#)).ok().unwrap().is_empty());
}

#[test]
fn point_status_merge_and_nodes() {
    let mut cs = vec![chapter(10, "1", 1, 0, 0), chapter(11, "2", 1, 0, 0), chapter(12, "3", 1, 0, 0)];
    assert_eq!(chapter_nodes(&cs), "10,11,12");
    let map = parse_json_or_null(r#"{"10":{"unfinishcount":2,"totalcount":0,"finishcount":1},"11":{"totalcount":4,"finishcount":4}}"#);
    apply_point_status(&mut cs, &map);
    assert_eq!((cs[0].point_total, cs[0].point_finished), (2, 1));
    assert_eq!((cs[1].point_total, cs[1].point_finished), (4, 4));
    assert_eq!((cs[2].point_total, cs[2].point_finished), (0, 0));
    assert!(is_chapter_finished(&cs[1]));
    assert!(!is_chapter_finished(&cs[0]));
    assert!(!is_chapter_finished(&cs[2]));
}

#[test]
fn task_points_of_cards() {
    let body = parse_json_or_null(r#"{"data":[{"card":{"data":[
        {"description":"<iframe module=\"insertvideo\" data=\"{&quot;objectid&quot;:&quot;o1&quot;,&quot;name&quot;:&quot;v1.mp4&quot;,&quot;_jobid&quot;:&quot;j1&quot;}\"></iframe>"},
        {"title":"no description"},
        {"description":"<iframe module='work' data='{\"workid\":55}'><iframe module='insertdoc' data='{\"objectid\":\"d\"}'>"}
    ]}}]}"#);
    let ch = chapter(7, "1.1", 1, 0, 0);
    let ps = task_points_from_cards(&body, &ch);
    assert_eq!(ps.len(), 3);
    assert_eq!((ps[0].kind.as_str(), ps[0].title.as_str()), ("video", "v1.mp4"));
    assert_eq!(ps[0].object_id, Some("o1".to_string()));
    assert_eq!(ps[0].job_id, Some("j1".to_string()));
    assert_eq!((ps[0].chapter_id, ps[0].chapter_label.as_str(), ps[0].card_index), (7, "1.1", 0));
    assert_eq!((ps[1].kind.as_str(), ps[1].title.as_str()), ("work", "work"));
    assert_eq!(ps[1].work_id, Some("55".to_string()));
    assert_eq!(ps[1].card_index, 2);
    assert_eq!((ps[2].kind.as_str(), ps[2].title.as_str()), ("document", "document"));
    let params = task_point_params(1, 7, "1700000000000");
    assert_eq!(params.len(), 7);
    assert_eq!(params[0], ("id".to_string(), "7".to_string()));
    assert_eq!(params[6].0, "inf_enc");
    assert_eq!(params[6].1.len(), 32);
}

#[test]
fn brush_run_walks_chapters_and_points() {
    let r = brush_run_new(course(), 99, true, 0);
    let (r, acts) = brush_step(r, BrushInput::Begin);
    assert!(matches!(acts.as_slice(), [BrushAction::Note(BrushNote::Started), BrushAction::LoadChapters]));
    let chapters = vec![chapter(1, "1", 1, 2, 2), chapter(2, "2", 1, 1, 0)];
    let (r, acts) = brush_step(r, BrushInput::Chapters(Ok(chapters)));
    assert!(matches!(acts.as_slice(), [BrushAction::Note(BrushNote::ChapterCount { total: 2 }), BrushAction::ReadStop]));
    let (r, acts) = brush_step(r, BrushInput::StopFlag(false));
    assert!(matches!(
        acts.as_slice(),
        [BrushAction::Note(BrushNote::ChapterBegin { index: 1, total: 2, .. }), BrushAction::Note(BrushNote::ChapterSkipped { .. }), BrushAction::ReadStop]
    ));
    let (r, acts) = brush_step(r, BrushInput::StopFlag(false));
    assert!(matches!(acts.as_slice(), [BrushAction::Note(BrushNote::ChapterBegin { index: 2, .. }), BrushAction::LoadPoints { chapter: 1 }]));
    let (r, acts) = brush_step(r, BrushInput::Points(Ok(vec![video_point(2)])));
    assert!(matches!(acts.as_slice(), [BrushAction::ReadStop]));
    let (r, acts) = brush_step(r, BrushInput::StopFlag(false));
    match acts.as_slice() {
        [BrushAction::Note(BrushNote::PointRunning { point_index: 1, point_total: 1, .. }), BrushAction::Probe(ctx)] => {
            assert_eq!((ctx.course_id, ctx.class_id, ctx.knowledge_id, ctx.cpi, ctx.card_index), (1, 2, 2, 3, 0));
        }
        _ => panic!("expected a probe"),
    }
    let (r, acts) = brush_step(r, BrushInput::Probed(Ok(())));
    match acts.as_slice() {
        [BrushAction::CompleteVideo { object_id, .. }] => assert_eq!(object_id, "obj"),
        _ => panic!("expected a video completion"),
    }
    let (r, acts) = brush_step(r, BrushInput::Completed(Ok(("视频完成：v".to_string(), true))));
    assert!(matches!(acts.as_slice(), [BrushAction::Note(BrushNote::PointHandled { .. }), BrushAction::Pause { millis: 800 }]));
    let (r, acts) = brush_step(r, BrushInput::Paused);
    assert!(matches!(acts.as_slice(), [BrushAction::Note(BrushNote::AllDone { total: 2 }), BrushAction::Finish(Ok(()))]));
    assert!(matches!(r.phase, BrushPhase::Ended));
    let (_, acts) = brush_step(r, BrushInput::Begin);
    assert!(acts.is_empty());
}

#[test]
fn brush_stop_and_locked_chapter() {
    let r = brush_run_new(course(), 1, false, 0);
    let (r, _) = brush_step(r, BrushInput::Begin);
    let (r, _) = brush_step(r, BrushInput::Chapters(Ok(vec![chapter(1, "1", 1, 1, 0)])));
    let (r, _) = brush_step(r, BrushInput::StopFlag(false));
    let (r, _) = brush_step(r, BrushInput::Points(Ok(vec![video_point(1)])));
    let (r, _) = brush_step(r, BrushInput::StopFlag(false));
    let locked = Err(ClientError::Api("章节未开放！".to_string()));
    let (r, acts) = brush_step(r, BrushInput::Probed(locked));
    assert!(matches!(acts.as_slice(), [BrushAction::Refresh { course_id: 1, class_id: 2, chapter_id: 1, cpi: 3 }]));
    let (r, acts) = brush_step(r, BrushInput::Refreshed);
    assert!(matches!(acts.as_slice(), [BrushAction::Note(BrushNote::RefreshTried), BrushAction::Note(BrushNote::PointHandled { .. }), BrushAction::Pause { .. }]));
    let ev = match &acts[1] {
        BrushAction::Note(n) => note_to_event(n, &course()),
        _ => unreachable!(),
    };
    assert_eq!(ev.kind, "point");
    assert_eq!(ev.message, "章节未开放（已刷新，稍后重试）");
    assert_eq!(ev.point_status, Some("skipped".to_string()));
    assert_eq!(ev.chapter_label, Some("1 第1节".to_string()));
    let r2 = brush_run_new(course(), 1, false, 0);
    let (r2, _) = brush_step(r2, BrushInput::Begin);
    let (r2, _) = brush_step(r2, BrushInput::Chapters(Ok(vec![chapter(1, "1", 1, 1, 0)])));
    let (r2, acts) = brush_step(r2, BrushInput::StopFlag(true));
    assert!(matches!(acts.as_slice(), [BrushAction::Note(BrushNote::StoppedAtChapter { index: 1, total: 1, .. }), BrushAction::Finish(Ok(()))]));
    assert!(matches!(r2.phase, BrushPhase::Ended));
    let _ = r;
}

#[test]
fn brush_chapter_load_failure_finishes_with_error() {
    let r = brush_run_new(course(), 1, false, 0);
    let (r, _) = brush_step(r, BrushInput::Begin);
    let (r, acts) = brush_step(r, BrushInput::Chapters(Err(ClientError::Http("timeout".to_string()))));
    assert!(matches!(acts.as_slice(), [BrushAction::Finish(Err(ClientError::Http(_)))]));
    assert!(matches!(r.phase, BrushPhase::Ended));
}

fn ctx() -> CardContext {
    CardContext { course_id: 1, class_id: 2, knowledge_id: 3, cpi: 4, card_index: 0 }
}

#[test]
fn video_run_plays_reports_and_passes() {
    let r = video_run_new(ctx(), "o1".to_string(), 9, 2, 3);
    let (r, acts) = video_step(r, VideoInput::Begin);
    assert!(matches!(acts.as_slice(), [VideoAction::FetchAttachment]));
    let att = parse_json_or_null(r#"{"defaults":{"fid":5},"attachments":[{"property":{"objectid":"o1"},"jobid":"j1"}]}"#);
    let (r, acts) = video_step(r, VideoInput::Attachment(Ok(att)));
    assert!(matches!(acts.as_slice(), [VideoAction::FetchPlayInfo { fid: 5, .. }]));
    let info = parse_json_or_null(r#"{"status":"success","dtoken":"d","duration":3,"filename":"f"}"#);
    let (r, acts) = video_step(r, VideoInput::PlayInfo(Ok(info)));
    assert!(matches!(acts.as_slice(), [VideoAction::ReadStop]));
    assert_eq!((r.duration, r.report_rate, r.playing_time), (3, 3, 0));
    let (r, acts) = video_step(r, VideoInput::StopFlag(false));
    assert!(matches!(acts.as_slice(), [VideoAction::Report { playing_time: 0 }]));
    let (r, acts) = video_step(r, VideoInput::Reported(Ok(parse_json_or_null(r#"{"isPassed":false}"#))));
    assert!(matches!(acts.as_slice(), [VideoAction::Progress { playing: 0, duration: 3 }, VideoAction::Progress { .. }, VideoAction::Sleep { millis: 1000 }]));
    let (r, _) = video_step(r, VideoInput::Ticked);
    assert_eq!(r.playing_time, 2);
    let (r, acts) = video_step(r, VideoInput::StopFlag(false));
    assert!(matches!(acts.as_slice(), [VideoAction::Progress { playing: 2, duration: 3 }, VideoAction::Sleep { .. }]));
    let (r, _) = video_step(r, VideoInput::Ticked);
    assert_eq!(r.playing_time, 3);
    let (r, acts) = video_step(r, VideoInput::StopFlag(false));
    assert!(matches!(acts.as_slice(), [VideoAction::Report { playing_time: 3 }]));
    let (r, acts) = video_step(r, VideoInput::Reported(Ok(parse_json_or_null(r#"{"isPassed":true}"#))));
    assert!(matches!(acts.as_slice(), [VideoAction::Progress { .. }, VideoAction::Progress { playing: 3, duration: 3 }, VideoAction::Finish(VideoEnd::Passed)]));
    assert!(matches!(r.phase, VideoPhase::Ended));
    match video_end_result(VideoEnd::Passed, "f") {
        Ok((m, done)) => {
            assert_eq!(m, "视频完成：f");
            assert!(done);
        }
        Err(_) => panic!("expected success"),
    }
}

#[test]
fn video_run_stops_and_skips() {
    let r = video_run_new(ctx(), "o1".to_string(), 9, 1, 10);
    let (r, _) = video_step(r, VideoInput::Begin);
    let att = parse_json_or_null(r#"{"attachments":[{"property":{"objectid":"other"},"jobid":"j"}]}"#);
    let (r, acts) = video_step(r, VideoInput::Attachment(Ok(att)));
    assert!(matches!(acts.as_slice(), [VideoAction::Finish(VideoEnd::NotAJob)]));
    assert!(matches!(r.phase, VideoPhase::Ended));
    match video_end_result(VideoEnd::Stopped, "") {
        Err(ClientError::Api(m)) => assert_eq!(m, "已停止"),
        _ => panic!("expected a stop error"),
    }
    let _ = JsonValue::Null;
}

#[test]
fn video_run_honours_stop() {
    let r = video_run_new(ctx(), "o1".to_string(), 9, 1, 10);
    let (r, _) = video_step(r, VideoInput::Begin);
    let att = parse_json_or_null(r#"{"attachments":[{"property":{"objectid":"o1"},"jobid":"j","isPassed":"0"}]}"#);
    let (r, _) = video_step(r, VideoInput::Attachment(Ok(att)));
    let info = parse_json_or_null(r#"{"dtoken":"d","duration":0}"#);
    let (r, _) = video_step(r, VideoInput::PlayInfo(Ok(info)));
    assert_eq!((r.duration, r.report_rate), (1, 10));
    let (r, acts) = video_step(r, VideoInput::StopFlag(true));
    assert!(matches!(acts.as_slice(), [VideoAction::Finish(VideoEnd::Stopped)]));
    let (r, acts) = video_step(r, VideoInput::Ticked);
    assert!(acts.is_empty());
    assert!(matches!(r.phase, VideoPhase::Ended));
}

#[test]
fn video_already_passed_job() {
    let r = video_run_new(ctx(), "o1".to_string(), 9, 1, 10);
    let (r, _) = video_step(r, VideoInput::Begin);
    let att = parse_json_or_null(r#"{"attachments":[{"property":{"objectid":"o1"},"jobid":"j","isPassed":1}]}"#);
    let (_, acts) = video_step(r, VideoInput::Attachment(Ok(att)));
    assert!(matches!(acts.as_slice(), [VideoAction::Finish(VideoEnd::AlreadyPassed)]));
    match video_end_result(VideoEnd::AlreadyPassed, "") {
        Ok((m, done)) => {
            assert_eq!(m, "视频已完成");
            assert!(done);
        }
        Err(_) => panic!("expected success"),
    }
}

#[test]
fn brush_cools_down_after_a_completed_point() {
    let r = brush_run_new(course(), 1, false, 2);
    let (r, _) = brush_step(r, BrushInput::Begin);
    let (r, _) = brush_step(r, BrushInput::Chapters(Ok(vec![chapter(1, "1", 1, 1, 0)])));
    let (r, _) = brush_step(r, BrushInput::StopFlag(false));
    let (r, _) = brush_step(r, BrushInput::Points(Ok(vec![video_point(1)])));
    let (r, _) = brush_step(r, BrushInput::StopFlag(false));
    let (r, _) = brush_step(r, BrushInput::Probed(Ok(())));
    let (r, acts) = brush_step(r, BrushInput::Completed(Ok(("ok".to_string(), true))));
    assert!(matches!(acts.as_slice(), [BrushAction::Note(BrushNote::PointHandled { .. }), BrushAction::Pause { millis: 1000 }]));
    assert!(matches!(r.phase, BrushPhase::AwaitCooldown));
    let (r, acts) = brush_step(r, BrushInput::Paused);
    assert!(matches!(acts.as_slice(), [BrushAction::Note(BrushNote::Cooldown { elapsed: 1, total: 2 }), BrushAction::Pause { millis: 1000 }]));
    let ev = match &acts[0] {
        BrushAction::Note(n) => note_to_event(n, &course()),
        _ => unreachable!(),
    };
    assert_eq!(ev.kind, "wait");
    assert_eq!(ev.message, "等待冷却 1/2s");
    assert_eq!(ev.wait_progress_text, Some("等待冷却 1/2s".to_string()));
    assert_eq!((ev.wait_elapsed, ev.wait_total), (Some(1), Some(2)));
    let (r, acts) = brush_step(r, BrushInput::Paused);
    assert!(matches!(acts.as_slice(), [BrushAction::Note(BrushNote::Cooldown { elapsed: 2, total: 2 }), BrushAction::Pause { millis: 800 }]));
    let (r, acts) = brush_step(r, BrushInput::Paused);
    assert!(matches!(acts.as_slice(), [BrushAction::Note(BrushNote::AllDone { total: 1 }), BrushAction::Finish(Ok(()))]));
    assert!(matches!(r.phase, BrushPhase::Ended));
}

#[test]
fn course_events_and_order() {
    let ev = course_event(&course(), 2, 3);
    assert_eq!(ev.kind, "course");
    assert_eq!(ev.message, "C");
    assert_eq!((ev.course_index, ev.course_total), (Some(2), Some(3)));
    assert_eq!(ev.current_course, Some("C".to_string()));
    assert_eq!(next_course(false, false, 0, 3), Some(1));
    assert_eq!(next_course(false, false, 2, 3), None);
    assert_eq!(next_course(true, false, 0, 3), None);
    assert_eq!(next_course(false, true, 0, 3), None);
}

#[test]
fn locked_twice_fails_the_point() {
    let r = brush_run_new(course(), 1, false, 0);
    let (r, _) = brush_step(r, BrushInput::Begin);
    let (r, _) = brush_step(r, BrushInput::Chapters(Ok(vec![chapter(1, "1", 1, 1, 0), chapter(2, "2", 1, 1, 0)])));
    let (r, _) = brush_step(r, BrushInput::StopFlag(false));
    let (r, _) = brush_step(r, BrushInput::Points(Ok(vec![video_point(1), video_point(1)])));
    let (r, _) = brush_step(r, BrushInput::StopFlag(false));
    let (r, _) = brush_step(r, BrushInput::Probed(Err(ClientError::Api("章节未开放！".to_string()))));
    let (r, _) = brush_step(r, BrushInput::Refreshed);
    let (r, acts) = brush_step(r, BrushInput::Paused);
    assert!(matches!(acts.as_slice(), [BrushAction::ReadStop]));
    let (r, _) = brush_step(r, BrushInput::StopFlag(false));
    let (r, acts) = brush_step(r, BrushInput::Probed(Err(ClientError::Api("章节未开放！".to_string()))));
    match acts.as_slice() {
        [BrushAction::Note(BrushNote::PointFailed { error, point_index: 2, .. }), BrushAction::Pause { millis: 800 }] => {
            assert_eq!(point_error_message(error), "API error: 章节未开放！");
            let ev = note_to_event(match &acts[0] { BrushAction::Note(n) => n, _ => unreachable!() }, &course());
            assert_eq!(ev.message, "失败：API error: 章节未开放！");
            assert_eq!(ev.point_status, Some("failed".to_string()));
        }
        _ => panic!("expected a failed point"),
    }
    assert_eq!(point_error_message(&PointError::MissingObjectId(true)), "API error: 视频缺少 object_id");
    let (r, acts) = brush_step(r, BrushInput::Paused);
    assert!(matches!(acts.as_slice(), [BrushAction::ReadStop]));
    let (_, acts) = brush_step(r, BrushInput::StopFlag(true));
    assert!(matches!(acts.as_slice(), [BrushAction::Note(BrushNote::StoppedAtChapter { index: 2, total: 2, .. }), BrushAction::Finish(Ok(()))]));
}

#[test]
fn video_fetch_failure_finishes_with_the_error() {
    let r = video_run_new(ctx(), "o1".to_string(), 9, 1, 10);
    let (r, _) = video_step(r, VideoInput::Begin);
    let (_, acts) = video_step(r, VideoInput::Attachment(Err(ClientError::Api("章节未开放！".to_string()))));
    match acts.as_slice() {
        [VideoAction::Finish(end)] => match video_end_result(match end { VideoEnd::Failed(ClientError::Api(m)) => VideoEnd::Failed(ClientError::Api(m.clone())), _ => panic!("expected a failure") }, "") {
            Err(ClientError::Api(m)) => assert_eq!(m, "章节未开放！"),
            _ => panic!("expected the error back"),
        },
        _ => panic!("expected a finish"),
    }
}

fn named(name: &str) -> CourseInfo {
    CourseInfo { name: name.to_string(), ..course() }
}

#[test]
fn batch_run_opens_each_course_then_clears_running() {
    let run = batch_run_new(vec![named("A"), named("B")]);
    let (run, acts) = batch_step(run, BatchInput::Start);
    assert_eq!(acts.len(), 3);
    assert!(matches!(acts[0], BatchAction::ClearStop));
    match &acts[1] {
        BatchAction::Emit(ev) => {
            assert_eq!(ev.kind, "course");
            assert_eq!(ev.message, "A");
            assert_eq!(ev.course_index, Some(1));
            assert_eq!(ev.course_total, Some(2));
        }
        _ => panic!("expected a course event"),
    }
    assert!(matches!(acts[2], BatchAction::RunCourse(0)));
    let (run, acts) = batch_step(run, BatchInput::CourseEnded(Ok(()), false));
    assert_eq!(run.index, 1);
    assert!(matches!(acts[2], BatchAction::RunCourse(1)));
    match &acts[1] {
        BatchAction::Emit(ev) => assert_eq!(ev.current_course.as_deref(), Some("B")),
        _ => panic!("expected a course event"),
    }
    let (run, acts) = batch_step(run, BatchInput::CourseEnded(Ok(()), false));
    assert!(run.ended);
    assert_eq!(acts.len(), 2);
    assert!(matches!(acts[0], BatchAction::ClearRunning));
    assert!(matches!(acts[1], BatchAction::Done));
    let (_, acts) = batch_step(run, BatchInput::Start);
    assert!(acts.is_empty());
}

#[test]
fn batch_run_failure_reports_error_after_clearing_running() {
    let run = batch_run_new(vec![named("A"), named("B")]);
    let (run, _) = batch_step(run, BatchInput::Start);
    let (run, acts) = batch_step(run, BatchInput::CourseEnded(Err(ClientError::Api("boom".to_string())), false));
    assert!(run.ended);
    assert_eq!(acts.len(), 3);
    assert!(matches!(acts[0], BatchAction::ClearRunning));
    match &acts[1] {
        BatchAction::Emit(ev) => {
            assert_eq!(ev.kind, "error");
            assert_eq!(ev.message, "刷课异常结束: API error: boom");
        }
        _ => panic!("expected an error event"),
    }
    assert!(matches!(acts[2], BatchAction::Done));
}

#[test]
fn batch_run_stop_ends_without_error() {
    let run = batch_run_new(vec![named("A"), named("B")]);
    let (run, _) = batch_step(run, BatchInput::Start);
    let (run, acts) = batch_step(run, BatchInput::CourseEnded(Ok(()), true));
    assert!(run.ended);
    assert_eq!(run.index, 0);
    assert_eq!(acts.len(), 2);
    assert!(matches!(acts[0], BatchAction::ClearRunning));
    assert!(matches!(acts[1], BatchAction::Done));
}

#[test]
fn batch_run_without_courses_ends_at_once() {
    let (run, acts) = batch_step(batch_run_new(Vec::new()), BatchInput::Start);
    assert!(run.ended);
    assert_eq!(acts.len(), 2);
    assert!(matches!(acts[0], BatchAction::ClearRunning));
    assert!(matches!(acts[1], BatchAction::Done));
}

#[test]
fn status_reply_is_merged_only_on_success_with_body() {
    let map = r#"{"10":{"totalcount":4,"finishcount":3}}"#;
    let mut cs = vec![chapter(10, "1", 1, 0, 0)];
    cxkitty::chapters::apply_status_reply(&mut cs, false, Some(parse_json_or_null(map)));
    assert_eq!((cs[0].point_total, cs[0].point_finished), (0, 0));
    cxkitty::chapters::apply_status_reply(&mut cs, true, None);
    assert_eq!((cs[0].point_total, cs[0].point_finished), (0, 0));
    cxkitty::chapters::apply_status_reply(&mut cs, true, Some(parse_json_or_null(map)));
    assert_eq!((cs[0].point_total, cs[0].point_finished), (4, 3));
}

#[test]
fn run_events_have_listed_kinds_and_positions() {
    let course = course();
    let ch = chapter(10, "1", 1, 2, 0);
    let pt = video_point(10);
    let begin = note_to_event(&BrushNote::ChapterBegin { chapter: ch.copy(), index: 1, total: 3 }, &course);
    assert_eq!(begin.kind, "chapter");
    assert_eq!((begin.chapter_index, begin.chapter_total), (Some(1), Some(3)));
    let running = note_to_event(
        &BrushNote::PointRunning { chapter: ch.copy(), point: pt.copy(), index: 1, total: 3, point_index: 2, point_total: 2 },
        &course,
    );
    assert_eq!(running.kind, "point");
    assert_eq!(running.point_status.as_deref(), Some("running"));
    assert_eq!((running.point_index, running.point_total), (Some(2), Some(2)));
    let wait = note_to_event(&BrushNote::Cooldown { elapsed: 1, total: 15 }, &course);
    assert_eq!(wait.kind, "wait");
    assert_eq!(wait.point_status, None);
}
