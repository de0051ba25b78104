//! The course-brush scheduler: walks a course's chapters and their task
//! points in order, completing video and document points, as a state
//! machine whose caller performs the requests, waits and stop-flag reads.
use vstd::prelude::*;
use crate::attachment::CardContext;
use crate::chapters::{ChapterInfo, TaskPointInfo};
use crate::client::{ClientError, error_text};
use crate::courses::CourseInfo;
use crate::text::{
    contains, contains_str, str_eq, string_of_str, push_str, i64_to_string, u64_to_string,
    int_dec, nat_dec,
};

verus! {

/// `is_chapter_finished`: some points and all of them finished.
pub open spec fn chapter_finished(ch: ChapterInfo) -> bool {
    ch.point_total > 0 && ch.point_finished >= ch.point_total
}

/// `is_chapter_finished`.
pub fn is_chapter_finished(ch: &ChapterInfo) -> (r: bool)
    ensures
        r == chapter_finished(*ch),
{
    ch.point_total > 0 && ch.point_finished >= ch.point_total
}

/// The message of a handled task point.
pub enum PointMessage {
    /// "已跳过-非刷课类型": not a video or document.
    NonBrushType,
    /// "章节未开放（已刷新，稍后重试）": locked, a refresh was sent.
    LockedRefreshed,
    /// The message of the completion.
    Text(String),
}

/// The status of a handled task point.
pub enum PointStatus {
    Done,
    Skipped,
}

/// Why a task point failed.
pub enum PointError {
    /// A request failed.
    Client(ClientError),
    /// The chapter is still locked after a refresh ("章节未开放！").
    Locked,
    /// A video (`true`) or document (`false`) without object id.
    MissingObjectId(bool),
}

/// The display text of a point failure.
pub open spec fn point_error_text(e: PointError) -> Seq<char> {
    match e {
        PointError::Client(c) => error_text(c),
        PointError::Locked => "API error: 章节未开放！"@,
        PointError::MissingObjectId(video) => if video {
            "API error: 视频缺少 object_id"@
        } else {
            "API error: 文档缺少 object_id"@
        },
    }
}

/// A failure that means the user stopped the run: its text mentions "已停止".
pub open spec fn is_stop_error(e: PointError) -> bool {
    contains(point_error_text(e), "已停止"@)
}

/// What the scheduler reports to its listener. Chapter and point indices
/// are 1-based positions, totals are list lengths.
#[allow(inconsistent_fields)]
pub enum BrushNote {
    Started,
    ChapterCount { total: usize },
    StoppedAtChapter { chapter: ChapterInfo, index: usize, total: usize },
    ChapterBegin { chapter: ChapterInfo, index: usize, total: usize },
    ChapterSkipped { chapter: ChapterInfo },
    PointsFailed { chapter: ChapterInfo, error: ClientError },
    StoppedAtPoint {
        chapter: ChapterInfo,
        point: TaskPointInfo,
        index: usize,
        total: usize,
        point_index: usize,
        point_total: usize,
    },
    PointRunning {
        chapter: ChapterInfo,
        point: TaskPointInfo,
        index: usize,
        total: usize,
        point_index: usize,
        point_total: usize,
    },
    RefreshTried,
    PointHandled {
        chapter: ChapterInfo,
        point: TaskPointInfo,
        index: usize,
        total: usize,
        point_index: usize,
        point_total: usize,
        message: PointMessage,
        status: PointStatus,
    },
    PointStopped {
        chapter: ChapterInfo,
        point: TaskPointInfo,
        index: usize,
        total: usize,
        point_index: usize,
        point_total: usize,
        error: PointError,
    },
    PointFailed {
        chapter: ChapterInfo,
        point: TaskPointInfo,
        index: usize,
        total: usize,
        point_index: usize,
        point_total: usize,
        error: PointError,
    },
    /// One second of the cooldown after a completed point has passed.
    Cooldown { elapsed: u64, total: u64 },
    AllDone { total: usize },
}

/// What the caller is asked to do.
pub enum BrushAction {
    /// Tell the listener.
    Note(BrushNote),
    /// `list_chapters(course.key, course.cpi, course.course_id, course.class_id, puid)`.
    LoadChapters,
    /// Read the stop flag.
    ReadStop,
    /// `list_task_points(course.course_id, chapters[chapter])`.
    LoadPoints { chapter: usize },
    /// `fetch_attachment(ctx)`, keeping only whether it succeeded.
    Probe(CardContext),
    /// `refresh_chapter(...)`, its result ignored.
    Refresh { course_id: i64, class_id: i64, chapter_id: i64, cpi: i64 },
    /// `complete_video(ctx, object_id, puid, ...)`.
    CompleteVideo { ctx: CardContext, object_id: String },
    /// `complete_document(ctx, object_id)`.
    CompleteDocument { ctx: CardContext, object_id: String },
    /// Wait.
    Pause { millis: u64 },
    /// The run is over with this result.
    Finish(Result<(), ClientError>),
}

/// What the caller reports back.
pub enum BrushInput {
    Begin,
    Chapters(Result<Vec<ChapterInfo>, ClientError>),
    StopFlag(bool),
    Points(Result<Vec<TaskPointInfo>, ClientError>),
    Probed(Result<(), ClientError>),
    Refreshed,
    Completed(Result<(String, bool), ClientError>),
    Paused,
}

/// Where a run stands.
pub enum BrushPhase {
    Start,
    AwaitChapters,
    CheckChapterStop,
    AwaitPoints,
    CheckPointStop,
    AwaitProbe,
    AwaitRefresh,
    AwaitCompletion,
    AwaitCooldown,
    AwaitPause,
    Ended,
}

/// The state of a brush run over one course.
pub struct BrushRun {
    pub course: CourseInfo,
    pub puid: i64,
    pub unfinished_only: bool,
    pub phase: BrushPhase,
    pub chapters: Vec<ChapterInfo>,
    pub chapter: usize,
    pub points: Vec<TaskPointInfo>,
    pub point: usize,
    pub refresh_once: bool,
    /// Seconds of cooldown after each completed video or document.
    pub wait_seconds: u64,
    /// Seconds of the current cooldown that have passed.
    pub waited: u64,
}

/// Whether the phase works on a chapter.
pub open spec fn in_chapter(p: BrushPhase) -> bool {
    p is CheckChapterStop || p is AwaitPoints || in_point(p)
}

/// Whether the phase works on a task point.
pub open spec fn in_point(p: BrushPhase) -> bool {
    p is CheckPointStop || p is AwaitProbe || p is AwaitRefresh || p is AwaitCompletion
        || p is AwaitCooldown || p is AwaitPause
}

/// Whether a point is of a kind the scheduler completes.
pub open spec fn brushable(p: TaskPointInfo) -> bool {
    p.kind@ == "video"@ || p.kind@ == "document"@
}

/// The invariant of a run: the current chapter and point exist while they
/// are worked on, and a probed point is a video or a document.
pub open spec fn brush_wf(r: BrushRun) -> bool {
    &&& in_chapter(r.phase) ==> r.chapter < r.chapters@.len()
    &&& in_point(r.phase) ==> r.point < r.points@.len()
    &&& (r.phase is AwaitProbe || r.phase is AwaitRefresh || r.phase is AwaitCompletion) ==> brushable(
        r.points@[r.point as int],
    )
    &&& r.phase is AwaitCooldown ==> r.waited < r.wait_seconds
}

/// A new run over `course`.
pub fn brush_run_new(course: CourseInfo, puid: i64, unfinished_only: bool, wait_seconds: u64) -> (r: BrushRun)
    ensures
        r.course == course,
        r.puid == puid,
        r.unfinished_only == unfinished_only,
        r.wait_seconds == wait_seconds,
        r.phase is Start,
        r.chapters@.len() == 0,
        r.points@.len() == 0,
        brush_wf(r),
{
    BrushRun {
        course,
        puid,
        unfinished_only,
        phase: BrushPhase::Start,
        chapters: Vec::new(),
        chapter: 0,
        points: Vec::new(),
        point: 0,
        refresh_once: true,
        wait_seconds,
        waited: 0,
    }
}

/// The run with a new phase.
pub open spec fn with_phase(r: BrushRun, p: BrushPhase) -> BrushRun {
    BrushRun { phase: p, ..r }
}

/// Moving past the current chapter: check the stop flag before the next
/// one, or report the end after the last.
pub open spec fn next_chapter(r: BrushRun) -> (BrushRun, Seq<BrushAction>) {
    if r.chapter + 1 < r.chapters@.len() {
        (
            BrushRun { phase: BrushPhase::CheckChapterStop, chapter: (r.chapter + 1) as usize, ..r },
            seq![BrushAction::ReadStop],
        )
    } else {
        (
            with_phase(r, BrushPhase::Ended),
            seq![
                BrushAction::Note(BrushNote::AllDone { total: r.chapters@.len() as usize }),
                BrushAction::Finish(Ok(())),
            ],
        )
    }
}

/// Moving past the current point: the next point of the chapter, or the
/// next chapter.
pub open spec fn next_point(r: BrushRun) -> (BrushRun, Seq<BrushAction>) {
    if r.point + 1 < r.points@.len() {
        (
            BrushRun { phase: BrushPhase::CheckPointStop, point: (r.point + 1) as usize, ..r },
            seq![BrushAction::ReadStop],
        )
    } else {
        next_chapter(r)
    }
}

/// The card of the current point.
pub open spec fn current_ctx(r: BrushRun) -> CardContext {
    CardContext {
        course_id: r.course.course_id,
        class_id: r.course.class_id,
        knowledge_id: r.chapters@[r.chapter as int].chapter_id,
        cpi: r.course.cpi,
        card_index: r.points@[r.point as int].card_index,
    }
}

/// Reporting how the current point went, then pausing 800 ms before the
/// next; a failure whose text mentions "已停止" ends the run instead.
pub open spec fn point_result(r: BrushRun, outcome: Result<(PointMessage, PointStatus), PointError>) -> (
    BrushRun,
    Seq<BrushAction>,
) {
    let ch = r.chapters@[r.chapter as int];
    let p = r.points@[r.point as int];
    let index = (r.chapter + 1) as usize;
    let total = r.chapters@.len() as usize;
    let point_index = (r.point + 1) as usize;
    let point_total = r.points@.len() as usize;
    match outcome {
        Ok((message, status)) => (
            with_phase(r, BrushPhase::AwaitPause),
            seq![
                BrushAction::Note(
                    BrushNote::PointHandled {
                        chapter: ch,
                        point: p,
                        index,
                        total,
                        point_index,
                        point_total,
                        message,
                        status,
                    },
                ),
                BrushAction::Pause { millis: 800 },
            ],
        ),
        Err(error) => if is_stop_error(error) {
            (
                with_phase(r, BrushPhase::Ended),
                seq![
                    BrushAction::Note(
                        BrushNote::PointStopped {
                            chapter: ch,
                            point: p,
                            index,
                            total,
                            point_index,
                            point_total,
                            error,
                        },
                    ),
                    BrushAction::Finish(Ok(())),
                ],
            )
        } else {
            (
                with_phase(r, BrushPhase::AwaitPause),
                seq![
                    BrushAction::Note(
                        BrushNote::PointFailed {
                            chapter: ch,
                            point: p,
                            index,
                            total,
                            point_index,
                            point_total,
                            error,
                        },
                    ),
                    BrushAction::Pause { millis: 800 },
                ],
            )
        },
    }
}

/// After a completed video or document: report it, then cool down for
/// `wait_seconds` seconds, one second at a time, before the usual pause;
/// without cooldown this is `point_result`.
pub open spec fn completion_handled(r: BrushRun, message: PointMessage, status: PointStatus) -> (
    BrushRun,
    Seq<BrushAction>,
) {
    if r.wait_seconds == 0 {
        point_result(r, Ok((message, status)))
    } else {
        (
            BrushRun { phase: BrushPhase::AwaitCooldown, waited: 0, ..r },
            seq![point_result(r, Ok((message, status))).1[0], BrushAction::Pause { millis: 1000 }],
        )
    }
}

/// One second of cooldown has passed: tell the listener, then wait another
/// second, or the usual pause once the cooldown is over.
pub open spec fn cooldown_tick(r: BrushRun) -> (BrushRun, Seq<BrushAction>) {
    let e = (r.waited + 1) as u64;
    let note = BrushAction::Note(BrushNote::Cooldown { elapsed: e, total: r.wait_seconds });
    if e < r.wait_seconds {
        (BrushRun { waited: e, ..r }, seq![note, BrushAction::Pause { millis: 1000 }])
    } else {
        (BrushRun { phase: BrushPhase::AwaitPause, waited: e, ..r }, seq![note, BrushAction::Pause { millis: 800 }])
    }
}

/// Prepends one action.
pub open spec fn then(a: BrushAction, rest: (BrushRun, Seq<BrushAction>)) -> (BrushRun, Seq<BrushAction>) {
    (rest.0, seq![a] + rest.1)
}

/// Whether a probe failure says the chapter is not open yet.
pub open spec fn is_locked(res: Result<(), ClientError>) -> bool {
    res matches Err(ClientError::Api(m)) && contains(m@, "章节未开放"@)
}

/// After a successful probe: start completing the video or document, or
/// fail when it has no object id.
pub open spec fn start_completion(r: BrushRun) -> (BrushRun, Seq<BrushAction>) {
    let p = r.points@[r.point as int];
    let video = p.kind@ == "video"@;
    match p.object_id {
        None => point_result(r, Err(PointError::MissingObjectId(video))),
        Some(o) => (
            with_phase(r, BrushPhase::AwaitCompletion),
            seq![
                if video {
                    BrushAction::CompleteVideo { ctx: current_ctx(r), object_id: o }
                } else {
                    BrushAction::CompleteDocument { ctx: current_ctx(r), object_id: o }
                },
            ],
        ),
    }
}

/// One transition of the scheduler: the next run and the actions, in
/// order. An input the phase does not expect changes nothing.
pub open spec fn brush_next(r: BrushRun, input: BrushInput) -> (BrushRun, Seq<BrushAction>) {
    match (r.phase, input) {
        (BrushPhase::Start, BrushInput::Begin) => (
            with_phase(r, BrushPhase::AwaitChapters),
            seq![BrushAction::Note(BrushNote::Started), BrushAction::LoadChapters],
        ),
        (BrushPhase::AwaitChapters, BrushInput::Chapters(Err(e))) => (
            with_phase(r, BrushPhase::Ended),
            seq![BrushAction::Finish(Err(e))],
        ),
        (BrushPhase::AwaitChapters, BrushInput::Chapters(Ok(cs))) => {
            let count = BrushAction::Note(BrushNote::ChapterCount { total: cs@.len() as usize });
            if cs@.len() == 0 {
                (
                    BrushRun { phase: BrushPhase::Ended, chapters: cs, chapter: 0, ..r },
                    seq![
                        count,
                        BrushAction::Note(BrushNote::AllDone { total: 0 }),
                        BrushAction::Finish(Ok(())),
                    ],
                )
            } else {
                (
                    BrushRun { phase: BrushPhase::CheckChapterStop, chapters: cs, chapter: 0, ..r },
                    seq![count, BrushAction::ReadStop],
                )
            }
        },
        (BrushPhase::CheckChapterStop, BrushInput::StopFlag(stop)) => {
            let ch = r.chapters@[r.chapter as int];
            let index = (r.chapter + 1) as usize;
            let total = r.chapters@.len() as usize;
            if stop {
                (
                    with_phase(r, BrushPhase::Ended),
                    seq![
                        BrushAction::Note(BrushNote::StoppedAtChapter { chapter: ch, index, total }),
                        BrushAction::Finish(Ok(())),
                    ],
                )
            } else {
                let begin = BrushAction::Note(BrushNote::ChapterBegin { chapter: ch, index, total });
                if r.unfinished_only && chapter_finished(ch) {
                    then(
                        begin,
                        then(BrushAction::Note(BrushNote::ChapterSkipped { chapter: ch }), next_chapter(r)),
                    )
                } else if ch.jobs == 0 && ch.point_total == 0 {
                    then(begin, next_chapter(r))
                } else {
                    (
                        with_phase(r, BrushPhase::AwaitPoints),
                        seq![begin, BrushAction::LoadPoints { chapter: r.chapter }],
                    )
                }
            }
        },
        (BrushPhase::AwaitPoints, BrushInput::Points(Err(e))) => then(
            BrushAction::Note(
                BrushNote::PointsFailed { chapter: r.chapters@[r.chapter as int], error: e },
            ),
            next_chapter(r),
        ),
        (BrushPhase::AwaitPoints, BrushInput::Points(Ok(ps))) => if ps@.len() == 0 {
            next_chapter(r)
        } else {
            (
                BrushRun {
                    phase: BrushPhase::CheckPointStop,
                    points: ps,
                    point: 0,
                    refresh_once: true,
                    ..r
                },
                seq![BrushAction::ReadStop],
            )
        },
        (BrushPhase::CheckPointStop, BrushInput::StopFlag(stop)) => {
            let ch = r.chapters@[r.chapter as int];
            let p = r.points@[r.point as int];
            let index = (r.chapter + 1) as usize;
            let total = r.chapters@.len() as usize;
            let point_index = (r.point + 1) as usize;
            let point_total = r.points@.len() as usize;
            if stop {
                (
                    with_phase(r, BrushPhase::Ended),
                    seq![
                        BrushAction::Note(
                            BrushNote::StoppedAtPoint {
                                chapter: ch,
                                point: p,
                                index,
                                total,
                                point_index,
                                point_total,
                            },
                        ),
                        BrushAction::Finish(Ok(())),
                    ],
                )
            } else {
                let running = BrushAction::Note(
                    BrushNote::PointRunning { chapter: ch, point: p, index, total, point_index, point_total },
                );
                if brushable(p) {
                    (
                        with_phase(r, BrushPhase::AwaitProbe),
                        seq![running, BrushAction::Probe(current_ctx(r))],
                    )
                } else {
                    then(
                        running,
                        point_result(r, Ok((PointMessage::NonBrushType, PointStatus::Skipped))),
                    )
                }
            }
        },
        (BrushPhase::AwaitProbe, BrushInput::Probed(res)) => if is_locked(res) {
            if r.refresh_once {
                (
                    BrushRun { phase: BrushPhase::AwaitRefresh, refresh_once: false, ..r },
                    seq![
                        BrushAction::Refresh {
                            course_id: r.course.course_id,
                            class_id: r.course.class_id,
                            chapter_id: r.chapters@[r.chapter as int].chapter_id,
                            cpi: r.course.cpi,
                        },
                    ],
                )
            } else {
                point_result(r, Err(PointError::Locked))
            }
        } else {
            let r2 = BrushRun { refresh_once: true, ..r };
            match res {
                Err(e) => point_result(r2, Err(PointError::Client(e))),
                Ok(()) => start_completion(r2),
            }
        },
        (BrushPhase::AwaitRefresh, BrushInput::Refreshed) => then(
            BrushAction::Note(BrushNote::RefreshTried),
            point_result(r, Ok((PointMessage::LockedRefreshed, PointStatus::Skipped))),
        ),
        (BrushPhase::AwaitCompletion, BrushInput::Completed(res)) => match res {
            Ok((msg, ok)) => completion_handled(
                r,
                PointMessage::Text(msg),
                if ok {
                    PointStatus::Done
                } else {
                    PointStatus::Skipped
                },
            ),
            Err(e) => point_result(r, Err(PointError::Client(e))),
        },
        (BrushPhase::AwaitCooldown, BrushInput::Paused) => cooldown_tick(r),
        (BrushPhase::AwaitPause, BrushInput::Paused) => next_point(r),
        _ => (r, Seq::empty()),
    }
}

fn next_chapter_exec(r: BrushRun) -> (out: (BrushRun, Vec<BrushAction>))
    ensures
        (out.0, out.1@) == next_chapter(r),
{
    let mut acts: Vec<BrushAction> = Vec::new();
    if r.chapter < r.chapters.len() && r.chapter + 1 < r.chapters.len() {
        acts.push(BrushAction::ReadStop);
        let c = r.chapter + 1;
        (BrushRun { phase: BrushPhase::CheckChapterStop, chapter: c, ..r }, acts)
    } else {
        acts.push(BrushAction::Note(BrushNote::AllDone { total: r.chapters.len() }));
        acts.push(BrushAction::Finish(Ok(())));
        assert(acts@ =~= seq![
            BrushAction::Note(BrushNote::AllDone { total: r.chapters@.len() as usize }),
            BrushAction::Finish(Ok(())),
        ]);
        (BrushRun { phase: BrushPhase::Ended, ..r }, acts)
    }
}

fn next_point_exec(r: BrushRun) -> (out: (BrushRun, Vec<BrushAction>))
    ensures
        (out.0, out.1@) == next_point(r),
{
    if r.point < r.points.len() && r.point + 1 < r.points.len() {
        let mut acts: Vec<BrushAction> = Vec::new();
        acts.push(BrushAction::ReadStop);
        let p = r.point + 1;
        (BrushRun { phase: BrushPhase::CheckPointStop, point: p, ..r }, acts)
    } else {
        next_chapter_exec(r)
    }
}

fn prepend(a: BrushAction, rest: (BrushRun, Vec<BrushAction>)) -> (out: (BrushRun, Vec<BrushAction>))
    ensures
        (out.0, out.1@) == then(a, (rest.0, rest.1@)),
{
    let (r, mut v) = rest;
    let ghost old_v = v@;
    v.insert(0, a);
    assert(v@ =~= seq![a] + old_v);
    (r, v)
}

/// The display text of a point failure.
pub fn point_error_message(e: &PointError) -> (r: String)
    ensures
        r@ == point_error_text(*e),
{
    match e {
        PointError::Client(c) => c.message(),
        PointError::Locked => string_of_str("API error: 章节未开放！"),
        PointError::MissingObjectId(video) => if *video {
            string_of_str("API error: 视频缺少 object_id")
        } else {
            string_of_str("API error: 文档缺少 object_id")
        },
    }
}

fn is_stop_error_exec(e: &PointError) -> (r: bool)
    ensures
        r == is_stop_error(*e),
{
    let t = point_error_message(e);
    contains_str(t.as_str(), "已停止")
}

fn point_result_exec(r: BrushRun, outcome: Result<(PointMessage, PointStatus), PointError>) -> (out: (BrushRun, Vec<BrushAction>))
    requires
        r.chapter < r.chapters@.len(),
        r.point < r.points@.len(),
    ensures
        (out.0, out.1@) == point_result(r, outcome),
{
    let ch = r.chapters[r.chapter].copy();
    let p = r.points[r.point].copy();
    let total = r.chapters.len();
    let point_total = r.points.len();
    let index = r.chapter + 1;
    let point_index = r.point + 1;
    let mut acts: Vec<BrushAction> = Vec::new();
    match outcome {
        Ok((message, status)) => {
            acts.push(BrushAction::Note(BrushNote::PointHandled { chapter: ch, point: p, index, total, point_index, point_total, message, status }));
            acts.push(BrushAction::Pause { millis: 800 });
            assert(acts@ =~= point_result(r, outcome).1);
            (BrushRun { phase: BrushPhase::AwaitPause, ..r }, acts)
        },
        Err(error) => {
            if is_stop_error_exec(&error) {
                acts.push(BrushAction::Note(BrushNote::PointStopped { chapter: ch, point: p, index, total, point_index, point_total, error }));
                acts.push(BrushAction::Finish(Ok(())));
                assert(acts@ =~= point_result(r, outcome).1);
                (BrushRun { phase: BrushPhase::Ended, ..r }, acts)
            } else {
                acts.push(BrushAction::Note(BrushNote::PointFailed { chapter: ch, point: p, index, total, point_index, point_total, error }));
                acts.push(BrushAction::Pause { millis: 800 });
                assert(acts@ =~= point_result(r, outcome).1);
                (BrushRun { phase: BrushPhase::AwaitPause, ..r }, acts)
            }
        },
    }
}

fn ctx_exec(r: &BrushRun) -> (c: CardContext)
    requires
        r.chapter < r.chapters@.len(),
        r.point < r.points@.len(),
    ensures
        c == current_ctx(*r),
{
    CardContext {
        course_id: r.course.course_id,
        class_id: r.course.class_id,
        knowledge_id: r.chapters[r.chapter].chapter_id,
        cpi: r.course.cpi,
        card_index: r.points[r.point].card_index,
    }
}

fn start_completion_exec(r: BrushRun) -> (out: (BrushRun, Vec<BrushAction>))
    requires
        r.chapter < r.chapters@.len(),
        r.point < r.points@.len(),
    ensures
        (out.0, out.1@) == start_completion(r),
{
    let video = str_eq(r.points[r.point].kind.as_str(), "video");
    match &r.points[r.point].object_id {
        None => point_result_exec(r, Err(PointError::MissingObjectId(video))),
        Some(o) => {
            let o2 = o.clone();
            let ctx = ctx_exec(&r);
            let mut acts: Vec<BrushAction> = Vec::new();
            if video {
                acts.push(BrushAction::CompleteVideo { ctx, object_id: o2 });
            } else {
                acts.push(BrushAction::CompleteDocument { ctx, object_id: o2 });
            }
            (BrushRun { phase: BrushPhase::AwaitCompletion, ..r }, acts)
        },
    }
}

/// One step of the scheduler (`BrushRunner::run` and `run_one`).
pub fn brush_step(r: BrushRun, input: BrushInput) -> (out: (BrushRun, Vec<BrushAction>))
    requires
        brush_wf(r),
    ensures
        (out.0, out.1@) == brush_next(r, input),
        brush_wf(out.0),
{
    let ghost r0 = r;
    match (&r.phase, input) {
        (BrushPhase::Start, BrushInput::Begin) => {
            let mut acts: Vec<BrushAction> = Vec::new();
            acts.push(BrushAction::Note(BrushNote::Started));
            acts.push(BrushAction::LoadChapters);
            assert(acts@ =~= brush_next(r0, BrushInput::Begin).1);
            (BrushRun { phase: BrushPhase::AwaitChapters, ..r }, acts)
        },
        (BrushPhase::AwaitChapters, BrushInput::Chapters(res)) => {
            let mut acts: Vec<BrushAction> = Vec::new();
            match res {
                Err(e) => {
                    acts.push(BrushAction::Finish(Err(e)));
                    (BrushRun { phase: BrushPhase::Ended, ..r }, acts)
                },
                Ok(cs) => {
                    acts.push(BrushAction::Note(BrushNote::ChapterCount { total: cs.len() }));
                    if cs.len() == 0 {
                        acts.push(BrushAction::Note(BrushNote::AllDone { total: 0 }));
                        acts.push(BrushAction::Finish(Ok(())));
                        assert(acts@ =~= brush_next(r0, BrushInput::Chapters(Ok(cs))).1);
                        (BrushRun { phase: BrushPhase::Ended, chapters: cs, chapter: 0, ..r }, acts)
                    } else {
                        acts.push(BrushAction::ReadStop);
                        assert(acts@ =~= brush_next(r0, BrushInput::Chapters(Ok(cs))).1);
                        (BrushRun { phase: BrushPhase::CheckChapterStop, chapters: cs, chapter: 0, ..r }, acts)
                    }
                },
            }
        },
        (BrushPhase::CheckChapterStop, BrushInput::StopFlag(stop)) => {
            let total = r.chapters.len();
            let index = r.chapter + 1;
            if stop {
                let mut acts: Vec<BrushAction> = Vec::new();
                acts.push(BrushAction::Note(BrushNote::StoppedAtChapter { chapter: r.chapters[r.chapter].copy(), index, total }));
                acts.push(BrushAction::Finish(Ok(())));
                assert(acts@ =~= brush_next(r0, BrushInput::StopFlag(stop)).1);
                (BrushRun { phase: BrushPhase::Ended, ..r }, acts)
            } else {
                let begin = BrushAction::Note(BrushNote::ChapterBegin { chapter: r.chapters[r.chapter].copy(), index, total });
                let finished = is_chapter_finished(&r.chapters[r.chapter]);
                if r.unfinished_only && finished {
                    let skip = BrushAction::Note(BrushNote::ChapterSkipped { chapter: r.chapters[r.chapter].copy() });
                    let rest = next_chapter_exec(r);
                    prepend(begin, prepend(skip, rest))
                } else if r.chapters[r.chapter].jobs == 0 && r.chapters[r.chapter].point_total == 0 {
                    let rest = next_chapter_exec(r);
                    prepend(begin, rest)
                } else {
                    let mut acts: Vec<BrushAction> = Vec::new();
                    acts.push(begin);
                    acts.push(BrushAction::LoadPoints { chapter: r.chapter });
                    assert(acts@ =~= brush_next(r0, BrushInput::StopFlag(stop)).1);
                    (BrushRun { phase: BrushPhase::AwaitPoints, ..r }, acts)
                }
            }
        },
        (BrushPhase::AwaitPoints, BrushInput::Points(res)) => {
            match res {
                Err(e) => {
                    let note = BrushAction::Note(BrushNote::PointsFailed { chapter: r.chapters[r.chapter].copy(), error: e });
                    let rest = next_chapter_exec(r);
                    prepend(note, rest)
                },
                Ok(ps) => {
                    if ps.len() == 0 {
                        next_chapter_exec(r)
                    } else {
                        let mut acts: Vec<BrushAction> = Vec::new();
                        acts.push(BrushAction::ReadStop);
                        (BrushRun { phase: BrushPhase::CheckPointStop, points: ps, point: 0, refresh_once: true, ..r }, acts)
                    }
                },
            }
        },
        (BrushPhase::CheckPointStop, BrushInput::StopFlag(stop)) => {
            let total = r.chapters.len();
            let point_total = r.points.len();
            let index = r.chapter + 1;
            let point_index = r.point + 1;
            if stop {
                let mut acts: Vec<BrushAction> = Vec::new();
                acts.push(BrushAction::Note(BrushNote::StoppedAtPoint {
                    chapter: r.chapters[r.chapter].copy(),
                    point: r.points[r.point].copy(),
                    index,
                    total,
                    point_index,
                    point_total,
                }));
                acts.push(BrushAction::Finish(Ok(())));
                assert(acts@ =~= brush_next(r0, BrushInput::StopFlag(stop)).1);
                (BrushRun { phase: BrushPhase::Ended, ..r }, acts)
            } else {
                let running = BrushAction::Note(BrushNote::PointRunning {
                    chapter: r.chapters[r.chapter].copy(),
                    point: r.points[r.point].copy(),
                    index,
                    total,
                    point_index,
                    point_total,
                });
                let kind = r.points[r.point].kind.as_str();
                if str_eq(kind, "video") || str_eq(kind, "document") {
                    let ctx = ctx_exec(&r);
                    let mut acts: Vec<BrushAction> = Vec::new();
                    acts.push(running);
                    acts.push(BrushAction::Probe(ctx));
                    assert(acts@ =~= brush_next(r0, BrushInput::StopFlag(stop)).1);
                    (BrushRun { phase: BrushPhase::AwaitProbe, ..r }, acts)
                } else {
                    let rest = point_result_exec(r, Ok((PointMessage::NonBrushType, PointStatus::Skipped)));
                    prepend(running, rest)
                }
            }
        },
        (BrushPhase::AwaitProbe, BrushInput::Probed(res)) => {
            let locked = match &res {
                Err(ClientError::Api(m)) => contains_str(m.as_str(), "章节未开放"),
                _ => false,
            };
            if locked {
                if r.refresh_once {
                    let mut acts: Vec<BrushAction> = Vec::new();
                    acts.push(BrushAction::Refresh {
                        course_id: r.course.course_id,
                        class_id: r.course.class_id,
                        chapter_id: r.chapters[r.chapter].chapter_id,
                        cpi: r.course.cpi,
                    });
                    (BrushRun { phase: BrushPhase::AwaitRefresh, refresh_once: false, ..r }, acts)
                } else {
                    point_result_exec(r, Err(PointError::Locked))
                }
            } else {
                let r2 = BrushRun { refresh_once: true, ..r };
                match res {
                    Err(e) => point_result_exec(r2, Err(PointError::Client(e))),
                    Ok(()) => start_completion_exec(r2),
                }
            }
        },
        (BrushPhase::AwaitRefresh, BrushInput::Refreshed) => {
            let rest = point_result_exec(r, Ok((PointMessage::LockedRefreshed, PointStatus::Skipped)));
            prepend(BrushAction::Note(BrushNote::RefreshTried), rest)
        },
        (BrushPhase::AwaitCompletion, BrushInput::Completed(res)) => {
            match res {
                Ok((msg, ok)) => {
                    let status = if ok { PointStatus::Done } else { PointStatus::Skipped };
                    if r.wait_seconds == 0 {
                        point_result_exec(r, Ok((PointMessage::Text(msg), status)))
                    } else {
                        let (r2, mut acts) = point_result_exec(r, Ok((PointMessage::Text(msg), status)));
                        let ghost handled = acts@;
                        acts.truncate(1);
                        acts.push(BrushAction::Pause { millis: 1000 });
                        assert(acts@ =~= seq![handled[0], BrushAction::Pause { millis: 1000 }]);
                        (BrushRun { phase: BrushPhase::AwaitCooldown, waited: 0, ..r2 }, acts)
                    }
                },
                Err(e) => point_result_exec(r, Err(PointError::Client(e))),
            }
        },
        (BrushPhase::AwaitCooldown, BrushInput::Paused) => {
            let e = r.waited + 1;
            let mut acts: Vec<BrushAction> = Vec::new();
            acts.push(BrushAction::Note(BrushNote::Cooldown { elapsed: e, total: r.wait_seconds }));
            if e < r.wait_seconds {
                acts.push(BrushAction::Pause { millis: 1000 });
                assert(acts@ =~= cooldown_tick(r0).1);
                (BrushRun { waited: e, ..r }, acts)
            } else {
                acts.push(BrushAction::Pause { millis: 800 });
                assert(acts@ =~= cooldown_tick(r0).1);
                (BrushRun { phase: BrushPhase::AwaitPause, waited: e, ..r }, acts)
            }
        },
        (BrushPhase::AwaitPause, BrushInput::Paused) => next_point_exec(r),
        (_, _) => (r, Vec::new()),
    }
}

// ------------------------------------------------------------- progress events

/// A progress event for the listener (`brush-progress`). `kind` is one of
/// `log`, `course`, `point`, `chapter`, `done`, `error`, `stopped`; `point_status`
/// one of `running`, `done`, `skipped`, `failed`.
pub struct BrushProgressEvent {
    pub kind: String,
    pub message: String,
    pub chapter_label: Option<String>,
    pub point_title: Option<String>,
    pub point_kind: Option<String>,
    pub point_status: Option<String>,
    pub playing: Option<i64>,
    pub duration: Option<i64>,
    pub chapter_index: Option<usize>,
    pub chapter_total: Option<usize>,
    pub point_index: Option<usize>,
    pub point_total: Option<usize>,
    pub course_index: Option<usize>,
    pub course_total: Option<usize>,
    pub current_course: Option<String>,
    pub wait_progress_text: Option<String>,
    pub wait_elapsed: Option<u64>,
    pub wait_total: Option<u64>,
}

/// The content of a progress event.
pub struct EventView {
    pub kind: Seq<char>,
    pub message: Seq<char>,
    pub chapter_label: Option<Seq<char>>,
    pub point_title: Option<Seq<char>>,
    pub point_kind: Option<Seq<char>>,
    pub point_status: Option<Seq<char>>,
    pub playing: Option<i64>,
    pub duration: Option<i64>,
    pub chapter_index: Option<usize>,
    pub chapter_total: Option<usize>,
    pub point_index: Option<usize>,
    pub point_total: Option<usize>,
    pub course_index: Option<usize>,
    pub course_total: Option<usize>,
    pub current_course: Option<Seq<char>>,
    pub wait_progress_text: Option<Seq<char>>,
    pub wait_elapsed: Option<u64>,
    pub wait_total: Option<u64>,
}

/// The text of an optional string.
pub open spec fn opt_view(o: Option<String>) -> Option<Seq<char>> {
    match o {
        Some(s) => Some(s@),
        None => None,
    }
}

/// The content of an event.
pub open spec fn event_view(e: BrushProgressEvent) -> EventView {
    EventView {
        kind: e.kind@,
        message: e.message@,
        chapter_label: opt_view(e.chapter_label),
        point_title: opt_view(e.point_title),
        point_kind: opt_view(e.point_kind),
        point_status: opt_view(e.point_status),
        playing: e.playing,
        duration: e.duration,
        chapter_index: e.chapter_index,
        chapter_total: e.chapter_total,
        point_index: e.point_index,
        point_total: e.point_total,
        course_index: e.course_index,
        course_total: e.course_total,
        current_course: opt_view(e.current_course),
        wait_progress_text: opt_view(e.wait_progress_text),
        wait_elapsed: e.wait_elapsed,
        wait_total: e.wait_total,
    }
}

/// An event with only a kind and a message.
pub open spec fn plain_event(kind: Seq<char>, message: Seq<char>) -> EventView {
    EventView {
        kind,
        message,
        chapter_label: None,
        point_title: None,
        point_kind: None,
        point_status: None,
        playing: None,
        duration: None,
        chapter_index: None,
        chapter_total: None,
        point_index: None,
        point_total: None,
        course_index: None,
        course_total: None,
        current_course: None,
        wait_progress_text: None,
        wait_elapsed: None,
        wait_total: None,
    }
}

/// The label a chapter is shown by: `"<label> <name>"`.
pub open spec fn chapter_title(ch: ChapterInfo) -> Seq<char> {
    ch.label@ + " "@ + ch.name@
}

/// An event about a task point.
pub open spec fn point_event(
    kind: Seq<char>,
    message: Seq<char>,
    ch: ChapterInfo,
    p: TaskPointInfo,
    status: Seq<char>,
    index: usize,
    total: usize,
    point_index: usize,
    point_total: usize,
) -> EventView {
    EventView {
        kind,
        message,
        chapter_label: Some(chapter_title(ch)),
        point_title: Some(p.title@),
        point_kind: Some(p.kind@),
        point_status: Some(status),
        playing: None,
        duration: None,
        chapter_index: Some(index),
        chapter_total: Some(total),
        point_index: Some(point_index),
        point_total: Some(point_total),
        course_index: None,
        course_total: None,
        current_course: None,
        wait_progress_text: None,
        wait_elapsed: None,
        wait_total: None,
    }
}

/// The text of a point message.
pub open spec fn point_message_text(m: PointMessage) -> Seq<char> {
    match m {
        PointMessage::NonBrushType => "已跳过-非刷课类型"@,
        PointMessage::LockedRefreshed => "章节未开放（已刷新，稍后重试）"@,
        PointMessage::Text(t) => t@,
    }
}

/// The text of a point status.
pub open spec fn point_status_text(s: PointStatus) -> Seq<char> {
    match s {
        PointStatus::Done => "done"@,
        PointStatus::Skipped => "skipped"@,
    }
}

/// The event a note becomes for a run over `course`.
pub open spec fn note_event(note: BrushNote, course: CourseInfo) -> EventView {
    match note {
        BrushNote::Started => plain_event(
            "log"@,
            "开始刷课："@ + course.name@ + " (course="@ + int_dec(course.course_id as int) + ", class="@
                + int_dec(course.class_id as int) + ")"@,
        ),
        BrushNote::ChapterCount { total } => plain_event(
            "log"@,
            "共 "@ + nat_dec(total as nat) + " 个章节节点"@,
        ),
        BrushNote::StoppedAtChapter { chapter, index, total } => EventView {
            chapter_label: Some(chapter.label@),
            chapter_index: Some(index),
            chapter_total: Some(total),
            ..plain_event("stopped"@, "用户停止刷课"@)
        },
        BrushNote::ChapterBegin { chapter, index, total } => EventView {
            chapter_label: Some(chapter_title(chapter)),
            chapter_index: Some(index),
            chapter_total: Some(total),
            ..plain_event(
                "chapter"@,
                "章节 "@ + chapter_title(chapter) + " ("@ + int_dec(chapter.point_finished as int) + "/"@
                    + int_dec(chapter.point_total as int) + ")"@,
            )
        },
        BrushNote::ChapterSkipped { chapter } => plain_event(
            "log"@,
            "已完成，跳过："@ + chapter_title(chapter),
        ),
        BrushNote::PointsFailed { chapter, error } => plain_event(
            "log"@,
            "拉取任务点失败 "@ + chapter_title(chapter) + ": "@ + error_text(error),
        ),
        BrushNote::StoppedAtPoint { chapter, point, index, total, point_index, point_total } =>
            point_event(
            "stopped"@,
            "用户停止刷课"@,
            chapter,
            point,
            "skipped"@,
            index,
            total,
            point_index,
            point_total,
        ),
        BrushNote::PointRunning { chapter, point, index, total, point_index, point_total } =>
            point_event(
            "point"@,
            "处理 "@ + point.kind@ + "「"@ + point.title@ + "」"@,
            chapter,
            point,
            "running"@,
            index,
            total,
            point_index,
            point_total,
        ),
        BrushNote::RefreshTried => plain_event("log"@, "章节未开放，已尝试刷新"@),
        BrushNote::PointHandled {
            chapter,
            point,
            index,
            total,
            point_index,
            point_total,
            message,
            status,
        } => point_event(
            "point"@,
            point_message_text(message),
            chapter,
            point,
            point_status_text(status),
            index,
            total,
            point_index,
            point_total,
        ),
        BrushNote::PointStopped { chapter, point, index, total, point_index, point_total, error } =>
            point_event(
            "stopped"@,
            point_error_text(error),
            chapter,
            point,
            "skipped"@,
            index,
            total,
            point_index,
            point_total,
        ),
        BrushNote::PointFailed { chapter, point, index, total, point_index, point_total, error } =>
            point_event(
            "point"@,
            "失败："@ + point_error_text(error),
            chapter,
            point,
            "failed"@,
            index,
            total,
            point_index,
            point_total,
        ),
        BrushNote::Cooldown { elapsed, total } => EventView {
            wait_progress_text: Some(cooldown_text(elapsed, total)),
            wait_elapsed: Some(elapsed),
            wait_total: Some(total),
            ..plain_event("wait"@, cooldown_text(elapsed, total))
        },
        BrushNote::AllDone { total } => EventView {
            chapter_index: Some(total),
            chapter_total: Some(total),
            ..plain_event("done"@, "刷课结束："@ + course.name@)
        },
    }
}

/// `等待冷却 <elapsed>/<total>s`.
pub open spec fn cooldown_text(elapsed: u64, total: u64) -> Seq<char> {
    "等待冷却 "@ + nat_dec(elapsed as nat) + "/"@ + nat_dec(total as nat) + "s"@
}

fn plain_event_exec(kind: &str, message: String) -> (e: BrushProgressEvent)
    ensures
        event_view(e) == plain_event(kind@, message@),
{
    BrushProgressEvent {
        kind: string_of_str(kind),
        message,
        chapter_label: None,
        point_title: None,
        point_kind: None,
        point_status: None,
        playing: None,
        duration: None,
        chapter_index: None,
        chapter_total: None,
        point_index: None,
        point_total: None,
        course_index: None,
        course_total: None,
        current_course: None,
        wait_progress_text: None,
        wait_elapsed: None,
        wait_total: None,
    }
}

fn chapter_title_exec(ch: &ChapterInfo) -> (r: String)
    ensures
        r@ == chapter_title(*ch),
{
    let mut s = string_of_str(ch.label.as_str());
    push_str(&mut s, " ");
    push_str(&mut s, ch.name.as_str());
    s
}

fn point_event_exec(
    kind: &str,
    message: String,
    ch: &ChapterInfo,
    p: &TaskPointInfo,
    status: &str,
    index: usize,
    total: usize,
    point_index: usize,
    point_total: usize,
) -> (e: BrushProgressEvent)
    ensures
        event_view(e) == point_event(
            kind@,
            message@,
            *ch,
            *p,
            status@,
            index,
            total,
            point_index,
            point_total,
        ),
{
    BrushProgressEvent {
        kind: string_of_str(kind),
        message,
        chapter_label: Some(chapter_title_exec(ch)),
        point_title: Some(p.title.clone()),
        point_kind: Some(p.kind.clone()),
        point_status: Some(string_of_str(status)),
        playing: None,
        duration: None,
        chapter_index: Some(index),
        chapter_total: Some(total),
        point_index: Some(point_index),
        point_total: Some(point_total),
        course_index: None,
        course_total: None,
        current_course: None,
        wait_progress_text: None,
        wait_elapsed: None,
        wait_total: None,
    }
}

/// The progress event of a note, for a run over `course`.
pub fn note_to_event(note: &BrushNote, course: &CourseInfo) -> (e: BrushProgressEvent)
    ensures
        event_view(e) == note_event(*note, *course),
{
    match note {
        BrushNote::Started => {
            let mut m = string_of_str("开始刷课：");
            push_str(&mut m, course.name.as_str());
            push_str(&mut m, " (course=");
            push_str(&mut m, i64_to_string(course.course_id).as_str());
            push_str(&mut m, ", class=");
            push_str(&mut m, i64_to_string(course.class_id).as_str());
            push_str(&mut m, ")");
            plain_event_exec("log", m)
        },
        BrushNote::ChapterCount { total } => {
            let mut m = string_of_str("共 ");
            push_str(&mut m, u64_to_string(*total as u64).as_str());
            push_str(&mut m, " 个章节节点");
            plain_event_exec("log", m)
        },
        BrushNote::StoppedAtChapter { chapter, index, total } => {
            let mut e = plain_event_exec("stopped", string_of_str("用户停止刷课"));
            e.chapter_label = Some(chapter.label.clone());
            e.chapter_index = Some(*index);
            e.chapter_total = Some(*total);
            e
        },
        BrushNote::ChapterBegin { chapter, index, total } => {
            let title = chapter_title_exec(chapter);
            let mut m = string_of_str("章节 ");
            push_str(&mut m, title.as_str());
            push_str(&mut m, " (");
            push_str(&mut m, i64_to_string(chapter.point_finished as i64).as_str());
            push_str(&mut m, "/");
            push_str(&mut m, i64_to_string(chapter.point_total as i64).as_str());
            push_str(&mut m, ")");
            let mut e = plain_event_exec("chapter", m);
            e.chapter_label = Some(title);
            e.chapter_index = Some(*index);
            e.chapter_total = Some(*total);
            e
        },
        BrushNote::ChapterSkipped { chapter } => {
            let mut m = string_of_str("已完成，跳过：");
            push_str(&mut m, chapter_title_exec(chapter).as_str());
            plain_event_exec("log", m)
        },
        BrushNote::PointsFailed { chapter, error } => {
            let mut m = string_of_str("拉取任务点失败 ");
            push_str(&mut m, chapter_title_exec(chapter).as_str());
            push_str(&mut m, ": ");
            push_str(&mut m, error.message().as_str());
            plain_event_exec("log", m)
        },
        BrushNote::StoppedAtPoint { chapter, point, index, total, point_index, point_total } => {
            point_event_exec("stopped", string_of_str("用户停止刷课"), chapter, point, "skipped", *index, *total, *point_index, *point_total)
        },
        BrushNote::PointRunning { chapter, point, index, total, point_index, point_total } => {
            let mut m = string_of_str("处理 ");
            push_str(&mut m, point.kind.as_str());
            push_str(&mut m, "「");
            push_str(&mut m, point.title.as_str());
            push_str(&mut m, "」");
            point_event_exec("point", m, chapter, point, "running", *index, *total, *point_index, *point_total)
        },
        BrushNote::RefreshTried => plain_event_exec("log", string_of_str("章节未开放，已尝试刷新")),
        BrushNote::PointHandled { chapter, point, index, total, point_index, point_total, message, status } => {
            let m = match message {
                PointMessage::NonBrushType => string_of_str("已跳过-非刷课类型"),
                PointMessage::LockedRefreshed => string_of_str("章节未开放（已刷新，稍后重试）"),
                PointMessage::Text(t) => t.clone(),
            };
            let st = match status {
                PointStatus::Done => "done",
                PointStatus::Skipped => "skipped",
            };
            point_event_exec("point", m, chapter, point, st, *index, *total, *point_index, *point_total)
        },
        BrushNote::PointStopped { chapter, point, index, total, point_index, point_total, error } => {
            point_event_exec("stopped", point_error_message(error), chapter, point, "skipped", *index, *total, *point_index, *point_total)
        },
        BrushNote::PointFailed { chapter, point, index, total, point_index, point_total, error } => {
            let mut m = string_of_str("失败：");
            push_str(&mut m, point_error_message(error).as_str());
            point_event_exec("point", m, chapter, point, "failed", *index, *total, *point_index, *point_total)
        },
        BrushNote::Cooldown { elapsed, total } => {
            let mut m = string_of_str("等待冷却 ");
            push_str(&mut m, u64_to_string(*elapsed).as_str());
            push_str(&mut m, "/");
            push_str(&mut m, u64_to_string(*total).as_str());
            push_str(&mut m, "s");
            let mut e = plain_event_exec("wait", m.clone());
            e.wait_progress_text = Some(m);
            e.wait_elapsed = Some(*elapsed);
            e.wait_total = Some(*total);
            e
        },
        BrushNote::AllDone { total } => {
            let mut m = string_of_str("刷课结束：");
            push_str(&mut m, course.name.as_str());
            let mut e = plain_event_exec("done", m);
            e.chapter_index = Some(*total);
            e.chapter_total = Some(*total);
            e
        },
    }
}

/// The event that ends a run that failed (`start_brush`): kind `error`,
/// "刷课异常结束: <error>".
pub fn failure_event(e: &ClientError) -> (ev: BrushProgressEvent)
    ensures
        event_view(ev) == plain_event("error"@, "刷课异常结束: "@ + error_text(*e)),
{
    let mut m = string_of_str("刷课异常结束: ");
    push_str(&mut m, e.message().as_str());
    plain_event_exec("error", m)
}

/// The progress event of a playing video.
pub open spec fn video_progress_view(playing: i64, duration: i64, title: Seq<char>) -> EventView {
    EventView {
        point_title: Some(title),
        point_kind: Some("video"@),
        point_status: Some("running"@),
        playing: Some(playing),
        duration: Some(duration),
        ..plain_event(
            "point"@,
            "播放中 "@ + int_dec(playing as int) + "/"@ + int_dec(duration as int) + "s · "@ + title,
        )
    }
}

/// The progress event sent while a video plays.
pub fn video_progress_event(playing: i64, duration: i64, title: &str) -> (ev: BrushProgressEvent)
    ensures
        event_view(ev) == video_progress_view(playing, duration, title@),
{
    let mut m = string_of_str("播放中 ");
    push_str(&mut m, i64_to_string(playing).as_str());
    push_str(&mut m, "/");
    push_str(&mut m, i64_to_string(duration).as_str());
    push_str(&mut m, "s · ");
    push_str(&mut m, title);
    let mut e = plain_event_exec("point", m);
    e.point_title = Some(string_of_str(title));
    e.point_kind = Some(string_of_str("video"));
    e.point_status = Some(string_of_str("running"));
    e.playing = Some(playing);
    e.duration = Some(duration);
    e
}


/// The event that opens each course of a run over several courses: kind
/// `course`, the course's name as message and as current course, its
/// 1-based position and the number of courses.
pub open spec fn course_event_view(course: CourseInfo, index: usize, total: usize) -> EventView {
    EventView {
        course_index: Some(index),
        course_total: Some(total),
        current_course: Some(course.name@),
        ..plain_event("course"@, course.name@)
    }
}

/// The event that opens a course of a run over several courses.
pub fn course_event(course: &CourseInfo, index: usize, total: usize) -> (ev: BrushProgressEvent)
    ensures
        event_view(ev) == course_event_view(*course, index, total),
{
    let mut e = plain_event_exec("course", course.name.clone());
    e.course_index = Some(index);
    e.course_total = Some(total);
    e.current_course = Some(course.name.clone());
    e
}

/// What follows course `index` (0-based) of a run over `total` courses
/// taken in order: the next one when this one ended without failure, no
/// stop was asked and one is left; otherwise the run is over.
pub fn next_course(failed: bool, stopped: bool, index: usize, total: usize) -> (r: Option<usize>)
    ensures
        r == (if !failed && !stopped && index + 1 < total {
            Some((index + 1) as usize)
        } else {
            None::<usize>
        }),
{
    if !failed && !stopped && index < total && index + 1 < total {
        Some(index + 1)
    } else {
        None
    }
}

// ------------------------------------------------------------------ laws

/// No action but the last is `Finish`, and the last one is.
pub open spec fn finishes(acts: Seq<BrushAction>) -> bool {
    &&& acts.len() > 0
    &&& acts.last() is Finish
    &&& forall|k: int| 0 <= k < acts.len() - 1 ==> !(#[trigger] acts[k] is Finish)
}

/// No action is `Finish`.
pub open spec fn no_finish(acts: Seq<BrushAction>) -> bool {
    forall|k: int| 0 <= k < acts.len() ==> !(#[trigger] acts[k] is Finish)
}

/// A step that ends the run finishes it, with `Finish` last; any other
/// step asks for no `Finish`.
pub open spec fn ends_right(out: (BrushRun, Seq<BrushAction>)) -> bool {
    if out.0.phase is Ended {
        finishes(out.1)
    } else {
        no_finish(out.1)
    }
}

proof fn lemma_then_ends_right(a: BrushAction, rest: (BrushRun, Seq<BrushAction>))
    requires
        !(a is Finish),
        ends_right(rest),
    ensures
        ends_right(then(a, rest)),
{
    let acts = seq![a] + rest.1;
    assert forall|k: int| 1 <= k < acts.len() implies acts[k] == rest.1[k - 1] by {}
    assert(acts[0] == a);
    if rest.0.phase is Ended {
        assert(acts.last() == rest.1.last());
        assert forall|k: int| 0 <= k < acts.len() - 1 implies !(#[trigger] acts[k] is Finish) by {
            if k > 0 {
                assert(acts[k] == rest.1[k - 1]);
            }
        }
    } else {
        assert forall|k: int| 0 <= k < acts.len() implies !(#[trigger] acts[k] is Finish) by {
            if k > 0 {
                assert(acts[k] == rest.1[k - 1]);
            }
        }
    }
}

proof fn lemma_next_chapter_ends_right(r: BrushRun)
    ensures
        ends_right(next_chapter(r)),
{
}

proof fn lemma_next_point_ends_right(r: BrushRun)
    ensures
        ends_right(next_point(r)),
{
    lemma_next_chapter_ends_right(r);
}

proof fn lemma_point_result_ends_right(r: BrushRun, outcome: Result<(PointMessage, PointStatus), PointError>)
    ensures
        ends_right(point_result(r, outcome)),
{
}

proof fn lemma_start_completion_ends_right(r: BrushRun)
    ensures
        ends_right(start_completion(r)),
{
    let p = r.points@[r.point as int];
    match p.object_id {
        None => lemma_point_result_ends_right(r, Err(PointError::MissingObjectId(p.kind@ == "video"@))),
        Some(o) => {},
    }
}

/// The run ends exactly when it says so: a step from a run that has not
/// ended asks for `Finish` if and only if it ends the run, and then as its
/// last action.
pub proof fn lemma_brush_ends_with_finish(r: BrushRun, input: BrushInput)
    requires
        !(r.phase is Ended),
    ensures
        ends_right(brush_next(r, input)),
{
    match (r.phase, input) {
        (BrushPhase::CheckChapterStop, BrushInput::StopFlag(stop)) => {
            if !stop {
                let ch = r.chapters@[r.chapter as int];
                let index = (r.chapter + 1) as usize;
                let total = r.chapters@.len() as usize;
                let begin = BrushAction::Note(BrushNote::ChapterBegin { chapter: ch, index, total });
                lemma_next_chapter_ends_right(r);
                if r.unfinished_only && chapter_finished(ch) {
                    lemma_then_ends_right(BrushAction::Note(BrushNote::ChapterSkipped { chapter: ch }), next_chapter(r));
                    lemma_then_ends_right(
                        begin,
                        then(BrushAction::Note(BrushNote::ChapterSkipped { chapter: ch }), next_chapter(r)),
                    );
                } else if ch.jobs == 0 && ch.point_total == 0 {
                    lemma_then_ends_right(begin, next_chapter(r));
                }
            }
        },
        (BrushPhase::AwaitPoints, BrushInput::Points(Err(e))) => {
            lemma_next_chapter_ends_right(r);
            lemma_then_ends_right(
                BrushAction::Note(BrushNote::PointsFailed { chapter: r.chapters@[r.chapter as int], error: e }),
                next_chapter(r),
            );
        },
        (BrushPhase::AwaitPoints, BrushInput::Points(Ok(ps))) => {
            lemma_next_chapter_ends_right(r);
        },
        (BrushPhase::CheckPointStop, BrushInput::StopFlag(stop)) => {
            if !stop {
                let ch = r.chapters@[r.chapter as int];
                let p = r.points@[r.point as int];
                let index = (r.chapter + 1) as usize;
                let total = r.chapters@.len() as usize;
                let point_index = (r.point + 1) as usize;
                let point_total = r.points@.len() as usize;
                let running = BrushAction::Note(
                    BrushNote::PointRunning { chapter: ch, point: p, index, total, point_index, point_total },
                );
                if !brushable(p) {
                    lemma_point_result_ends_right(r, Ok((PointMessage::NonBrushType, PointStatus::Skipped)));
                    lemma_then_ends_right(running, point_result(r, Ok((PointMessage::NonBrushType, PointStatus::Skipped))));
                }
            }
        },
        (BrushPhase::AwaitProbe, BrushInput::Probed(res)) => {
            if is_locked(res) {
                if !r.refresh_once {
                    lemma_point_result_ends_right(r, Err(PointError::Locked));
                }
            } else {
                let r2 = BrushRun { refresh_once: true, ..r };
                match res {
                    Err(e) => lemma_point_result_ends_right(r2, Err(PointError::Client(e))),
                    Ok(()) => lemma_start_completion_ends_right(r2),
                }
            }
        },
        (BrushPhase::AwaitRefresh, BrushInput::Refreshed) => {
            lemma_point_result_ends_right(r, Ok((PointMessage::LockedRefreshed, PointStatus::Skipped)));
            lemma_then_ends_right(
                BrushAction::Note(BrushNote::RefreshTried),
                point_result(r, Ok((PointMessage::LockedRefreshed, PointStatus::Skipped))),
            );
        },
        (BrushPhase::AwaitCompletion, BrushInput::Completed(res)) => {
            match res {
                Ok((msg, ok)) => lemma_point_result_ends_right(
                    r,
                    Ok((PointMessage::Text(msg), if ok { PointStatus::Done } else { PointStatus::Skipped })),
                ),
                Err(e) => lemma_point_result_ends_right(r, Err(PointError::Client(e))),
            }
        },
        (BrushPhase::AwaitPause, BrushInput::Paused) => {
            lemma_next_point_ends_right(r);
        },
        _ => {},
    }
}

/// An ended run stays ended: every input leaves it as it is and asks for
/// nothing.
pub proof fn lemma_brush_ended_is_final(r: BrushRun, input: BrushInput)
    requires
        r.phase is Ended,
    ensures
        brush_next(r, input) == (r, Seq::<BrushAction>::empty()),
{
}

/// A stop request is honoured at the next check: when the stop flag reads
/// true before a chapter or a point, the run ends at once with `Finish(Ok)`.
pub proof fn lemma_brush_stop_honoured(r: BrushRun)
    requires
        r.phase is CheckChapterStop || r.phase is CheckPointStop,
    ensures
        brush_next(r, BrushInput::StopFlag(true)).0.phase is Ended,
        brush_next(r, BrushInput::StopFlag(true)).1.last() == BrushAction::Finish(Ok(())),
{
}

/// With `unfinished_only`, a finished chapter is skipped: its task points
/// are never loaded.
pub proof fn lemma_finished_chapter_skipped(r: BrushRun)
    requires
        r.phase is CheckChapterStop,
        r.unfinished_only,
        chapter_finished(r.chapters@[r.chapter as int]),
    ensures
        forall|k: int|
            0 <= k < brush_next(r, BrushInput::StopFlag(false)).1.len() ==> !(#[trigger] brush_next(
                r,
                BrushInput::StopFlag(false),
            ).1[k] is LoadPoints),
        brush_next(r, BrushInput::StopFlag(false)).0.phase is CheckChapterStop || brush_next(
            r,
            BrushInput::StopFlag(false),
        ).0.phase is Ended,
{
    let ch = r.chapters@[r.chapter as int];
    let out = brush_next(r, BrushInput::StopFlag(false));
    let rest = next_chapter(r);
    assert(forall|k: int| 0 <= k < rest.1.len() ==> !(#[trigger] rest.1[k] is LoadPoints));
    let mid = seq![BrushAction::Note(BrushNote::ChapterSkipped { chapter: ch })] + rest.1;
    assert forall|k: int| 0 <= k < mid.len() implies !(#[trigger] mid[k] is LoadPoints) by {
        if k > 0 {
            assert(mid[k] == rest.1[k - 1]);
        }
    }
    assert forall|k: int| 0 <= k < out.1.len() implies !(#[trigger] out.1[k] is LoadPoints) by {
        if k > 0 {
            assert(out.1[k] == mid[k - 1]);
        }
    }
}

/// Whether the positions a note carries are in range: chapter `index` of
/// `total` and point `point_index` of `point_total`, each counted from 1.
pub open spec fn note_in_range(n: BrushNote) -> bool {
    match n {
        BrushNote::StoppedAtChapter { index, total, .. } => 1 <= index <= total,
        BrushNote::ChapterBegin { index, total, .. } => 1 <= index <= total,
        BrushNote::StoppedAtPoint { index, total, point_index, point_total, .. } => 1 <= index <= total
            && 1 <= point_index <= point_total,
        BrushNote::PointRunning { index, total, point_index, point_total, .. } => 1 <= index <= total
            && 1 <= point_index <= point_total,
        BrushNote::PointHandled { index, total, point_index, point_total, .. } => 1 <= index <= total
            && 1 <= point_index <= point_total,
        BrushNote::PointStopped { index, total, point_index, point_total, .. } => 1 <= index <= total
            && 1 <= point_index <= point_total,
        BrushNote::PointFailed { index, total, point_index, point_total, .. } => 1 <= index <= total
            && 1 <= point_index <= point_total,
        _ => true,
    }
}

/// Whether an action, if it is a note, carries positions in range.
pub open spec fn action_in_range(a: BrushAction) -> bool {
    match a {
        BrushAction::Note(n) => note_in_range(n),
        _ => true,
    }
}

/// Whether every note among the actions carries positions in range.
pub open spec fn notes_in_range(acts: Seq<BrushAction>) -> bool {
    forall|k: int| 0 <= k < acts.len() ==> action_in_range(#[trigger] acts[k])
}

/// An event as the UI knows them: its kind is one of `log`, `point`,
/// `chapter`, `done`, `stopped` and `wait`; its point status, if any, one
/// of `running`, `done`, `skipped` and `failed`; and in a `chapter`,
/// `point` or `stopped` event the chapter and point positions given lie
/// between 1 and their totals.
pub open spec fn listed_event(ev: EventView) -> bool {
    &&& ev.kind == "log"@ || ev.kind == "point"@ || ev.kind == "chapter"@ || ev.kind == "done"@
        || ev.kind == "stopped"@ || ev.kind == "wait"@
    &&& ev.point_status is None || ev.point_status == Some("running"@) || ev.point_status == Some(
        "done"@,
    ) || ev.point_status == Some("skipped"@) || ev.point_status == Some("failed"@)
    &&& (ev.kind == "chapter"@ || ev.kind == "point"@ || ev.kind == "stopped"@) ==> {
        &&& ev.chapter_index is Some && ev.chapter_total is Some ==> 1 <= ev.chapter_index->0
            <= ev.chapter_total->0
        &&& ev.point_index is Some && ev.point_total is Some ==> 1 <= ev.point_index->0
            <= ev.point_total->0
    }
}

proof fn lemma_kinds_differ()
    ensures
        "done"@ != "chapter"@,
        "done"@ != "point"@,
        "done"@ != "stopped"@,
        "log"@ != "chapter"@,
        "log"@ != "point"@,
        "log"@ != "stopped"@,
        "wait"@ != "chapter"@,
        "wait"@ != "point"@,
        "wait"@ != "stopped"@,
{
    reveal_strlit("done");
    reveal_strlit("chapter");
    reveal_strlit("point");
    reveal_strlit("stopped");
    reveal_strlit("log");
    reveal_strlit("wait");
    assert("done"@[0] != "chapter"@[0] && "done"@[0] != "point"@[0] && "done"@[0] != "stopped"@[0]);
    assert("log"@[0] != "chapter"@[0] && "log"@[0] != "point"@[0] && "log"@[0] != "stopped"@[0]);
    assert("wait"@[0] != "chapter"@[0] && "wait"@[0] != "point"@[0] && "wait"@[0] != "stopped"@[0]);
}

/// A note whose positions are in range becomes an event the UI knows.
pub proof fn lemma_note_event_listed(n: BrushNote, course: CourseInfo)
    requires
        note_in_range(n),
    ensures
        listed_event(note_event(n, course)),
{
    lemma_kinds_differ();
    match n {
        BrushNote::PointHandled { status, .. } => {
            assert(point_status_text(status) == "done"@ || point_status_text(status) == "skipped"@);
        },
        _ => {},
    }
}

/// The progress event of a playing video is one the UI knows.
pub proof fn lemma_video_progress_listed(playing: i64, duration: i64, title: Seq<char>)
    ensures
        listed_event(video_progress_view(playing, duration, title)),
{
}

proof fn lemma_then_in_range(a: BrushAction, rest: (BrushRun, Seq<BrushAction>))
    requires
        action_in_range(a),
        notes_in_range(rest.1),
    ensures
        notes_in_range(then(a, rest).1),
{
    let acts = then(a, rest).1;
    assert forall|k: int| 0 <= k < acts.len() implies action_in_range(#[trigger] acts[k]) by {
        if k > 0 {
            assert(acts[k] == rest.1[k - 1]);
        }
    }
}

proof fn lemma_next_chapter_in_range(r: BrushRun)
    ensures
        notes_in_range(next_chapter(r).1),
        notes_in_range(next_point(r).1),
{
}

proof fn lemma_point_result_in_range(r: BrushRun, outcome: Result<(PointMessage, PointStatus), PointError>)
    requires
        r.chapter < r.chapters@.len(),
        r.point < r.points@.len(),
    ensures
        notes_in_range(point_result(r, outcome).1),
        action_in_range(point_result(r, outcome).1[0]),
{
    assert(r.chapters.len() == r.chapters@.len());
    assert(r.points.len() == r.points@.len());
}

/// Every event a step of the scheduler asks for is one the UI knows: from
/// a well-formed run (which every step keeps well-formed), each note among
/// the actions becomes an event of a listed kind and status, with its
/// chapter and point positions between 1 and their totals.
pub proof fn lemma_brush_events_listed(r: BrushRun, input: BrushInput)
    requires
        brush_wf(r),
    ensures
        notes_in_range(brush_next(r, input).1),
        forall|k: int|
            0 <= k < brush_next(r, input).1.len() ==> (#[trigger] brush_next(r, input).1[k] matches BrushAction::Note(
                n,
            ) ==> listed_event(note_event(n, r.course))),
{
    assert(r.chapters.len() == r.chapters@.len());
    assert(r.points.len() == r.points@.len());
    lemma_next_chapter_in_range(r);
    match (r.phase, input) {
        (BrushPhase::CheckChapterStop, BrushInput::StopFlag(stop)) => {
            if !stop {
                let ch = r.chapters@[r.chapter as int];
                let index = (r.chapter + 1) as usize;
                let total = r.chapters@.len() as usize;
                let begin = BrushAction::Note(BrushNote::ChapterBegin { chapter: ch, index, total });
                let skipped = BrushAction::Note(BrushNote::ChapterSkipped { chapter: ch });
                lemma_then_in_range(skipped, next_chapter(r));
                lemma_then_in_range(begin, then(skipped, next_chapter(r)));
                lemma_then_in_range(begin, next_chapter(r));
            }
        },
        (BrushPhase::AwaitPoints, BrushInput::Points(Err(e))) => {
            lemma_then_in_range(
                BrushAction::Note(BrushNote::PointsFailed { chapter: r.chapters@[r.chapter as int], error: e }),
                next_chapter(r),
            );
        },
        (BrushPhase::CheckPointStop, BrushInput::StopFlag(stop)) => {
            if !stop {
                let ch = r.chapters@[r.chapter as int];
                let p = r.points@[r.point as int];
                let index = (r.chapter + 1) as usize;
                let total = r.chapters@.len() as usize;
                let point_index = (r.point + 1) as usize;
                let point_total = r.points@.len() as usize;
                let running = BrushAction::Note(
                    BrushNote::PointRunning { chapter: ch, point: p, index, total, point_index, point_total },
                );
                let skip = Ok((PointMessage::NonBrushType, PointStatus::Skipped));
                lemma_point_result_in_range(r, skip);
                lemma_then_in_range(running, point_result(r, skip));
            }
        },
        (BrushPhase::AwaitProbe, BrushInput::Probed(res)) => {
            lemma_point_result_in_range(r, Err(PointError::Locked));
            let r2 = BrushRun { refresh_once: true, ..r };
            match res {
                Err(e) => lemma_point_result_in_range(r2, Err(PointError::Client(e))),
                Ok(()) => {
                    let p = r2.points@[r2.point as int];
                    lemma_point_result_in_range(r2, Err(PointError::MissingObjectId(p.kind@ == "video"@)));
                },
            }
        },
        (BrushPhase::AwaitRefresh, BrushInput::Refreshed) => {
            let ok = Ok((PointMessage::LockedRefreshed, PointStatus::Skipped));
            lemma_point_result_in_range(r, ok);
            lemma_then_in_range(BrushAction::Note(BrushNote::RefreshTried), point_result(r, ok));
        },
        (BrushPhase::AwaitCompletion, BrushInput::Completed(res)) => {
            match res {
                Ok((msg, ok)) => {
                    let st = if ok {
                        PointStatus::Done
                    } else {
                        PointStatus::Skipped
                    };
                    lemma_point_result_in_range(r, Ok((PointMessage::Text(msg), st)));
                },
                Err(e) => lemma_point_result_in_range(r, Err(PointError::Client(e))),
            }
        },
        _ => {},
    }
    let acts = brush_next(r, input).1;
    assert forall|k: int|
        0 <= k < acts.len() implies (#[trigger] acts[k] matches BrushAction::Note(n) ==> listed_event(
        note_event(n, r.course),
    )) by {
        assert(action_in_range(acts[k]));
        match acts[k] {
            BrushAction::Note(n) => lemma_note_event_listed(n, r.course),
            _ => {},
        }
    }
}

/// A completed point is reported as its completion said: when a video or
/// document completes with `Ok((message, ok))`, the first action is the
/// note of the current point (chapter and point numbered from 1) with that
/// message, status `Done` when `ok` and `Skipped` otherwise, so the event
/// the UI gets has point status `done` or `skipped` accordingly; then the
/// run cools down (with a wait set) or pauses 800 ms.
pub proof fn lemma_brush_completion_status(r: BrushRun, msg: String, ok: bool)
    requires
        brush_wf(r),
        r.phase is AwaitCompletion,
    ensures
        ({
            let out = brush_next(r, BrushInput::Completed(Ok((msg, ok))));
            &&& out.1.len() == 2
            &&& out.1[0] matches BrushAction::Note(n) && n == BrushNote::PointHandled {
                chapter: r.chapters@[r.chapter as int],
                point: r.points@[r.point as int],
                index: (r.chapter + 1) as usize,
                total: r.chapters@.len() as usize,
                point_index: (r.point + 1) as usize,
                point_total: r.points@.len() as usize,
                message: PointMessage::Text(msg),
                status: if ok {
                    PointStatus::Done
                } else {
                    PointStatus::Skipped
                },
            } && note_event(n, r.course).point_status == Some(
                if ok {
                    "done"@
                } else {
                    "skipped"@
                },
            ) && note_event(n, r.course).kind == "point"@
            &&& r.wait_seconds == 0 ==> out.0.phase is AwaitPause && out.1[1] == BrushAction::Pause {
                millis: 800,
            }
            &&& r.wait_seconds > 0 ==> out.0.phase is AwaitCooldown && out.1[1] == BrushAction::Pause {
                millis: 1000,
            }
        }),
{
}

/// A point whose completion failed is reported as failed, or, when the
/// failure says the run was stopped, ends the run.
pub proof fn lemma_brush_completion_failed(r: BrushRun, e: ClientError)
    requires
        brush_wf(r),
        r.phase is AwaitCompletion,
    ensures
        ({
            let out = brush_next(r, BrushInput::Completed(Err(e)));
            &&& is_stop_error(PointError::Client(e)) ==> out.0.phase is Ended && out.1.last()
                == BrushAction::Finish(Ok(()))
            &&& !is_stop_error(PointError::Client(e)) ==> out.0.phase is AwaitPause && (out.1[0] matches BrushAction::Note(
                n,
            ) && note_event(n, r.course).point_status == Some("failed"@))
        }),
{
}

/// The walk goes through the points of a chapter in order, then through
/// the chapters in order: after the pause that follows a point, the next
/// point of the chapter is checked, or, after its last point, the next
/// chapter, or, after the last chapter, the run ends with the `done` note
/// over all its chapters and `Finish(Ok)`.
pub proof fn lemma_brush_walks_in_order(r: BrushRun)
    requires
        brush_wf(r),
        r.phase is AwaitPause,
    ensures
        ({
            let out = brush_next(r, BrushInput::Paused);
            &&& r.point + 1 < r.points@.len() ==> out.0.phase is CheckPointStop && out.0.point == r.point
                + 1 && out.0.chapter == r.chapter && out.0.points == r.points && out.1 == seq![
                BrushAction::ReadStop,
            ]
            &&& r.point + 1 >= r.points@.len() && r.chapter + 1 < r.chapters@.len() ==> out.0.phase is CheckChapterStop
                && out.0.chapter == r.chapter + 1 && out.0.chapters == r.chapters && out.1 == seq![
                BrushAction::ReadStop,
            ]
            &&& r.point + 1 >= r.points@.len() && r.chapter + 1 >= r.chapters@.len() ==> out.0.phase is Ended
                && out.1 == seq![
                BrushAction::Note(BrushNote::AllDone { total: r.chapters@.len() as usize }),
                BrushAction::Finish(Ok(())),
            ]
        }),
{
    assert(r.points.len() == r.points@.len());
    assert(r.chapters.len() == r.chapters@.len());
}

/// A chapter that is worked on has its points loaded, and a non-empty list
/// of points is walked from its first point.
pub proof fn lemma_brush_loads_points(r: BrushRun, ps: Vec<TaskPointInfo>)
    requires
        brush_wf(r),
    ensures
        ({
            let ch = r.chapters@[r.chapter as int];
            let out = brush_next(r, BrushInput::StopFlag(false));
            r.phase is CheckChapterStop && !(r.unfinished_only && chapter_finished(ch)) && !(ch.jobs
                == 0 && ch.point_total == 0) ==> out.0.phase is AwaitPoints && out.1.last()
                == BrushAction::LoadPoints { chapter: r.chapter }
        }),
        ({
            let out = brush_next(r, BrushInput::Points(Ok(ps)));
            r.phase is AwaitPoints && ps@.len() > 0 ==> out.0.phase is CheckPointStop && out.0.point == 0
                && out.0.points == ps && out.0.chapter == r.chapter && out.1 == seq![BrushAction::ReadStop]
        }),
{
}

/// The cooldown after a completed point lasts `wait_seconds` seconds: each
/// pause during it adds one second and tells the listener how many have
/// passed of how many; after the last one the usual 800 ms pause follows.
pub proof fn lemma_brush_cooldown_counts(r: BrushRun)
    requires
        brush_wf(r),
        r.phase is AwaitCooldown,
    ensures
        ({
            let out = brush_next(r, BrushInput::Paused);
            &&& out.1.len() == 2
            &&& out.1[0] == BrushAction::Note(BrushNote::Cooldown { elapsed: (r.waited + 1) as u64, total: r.wait_seconds })
            &&& out.0.waited == r.waited + 1
            &&& r.waited + 1 < r.wait_seconds ==> out.0.phase is AwaitCooldown && out.1[1] == BrushAction::Pause {
                millis: 1000,
            }
            &&& r.waited + 1 >= r.wait_seconds ==> out.0.phase is AwaitPause && out.1[1] == BrushAction::Pause {
                millis: 800,
            }
        }),
{
}
} // verus!
