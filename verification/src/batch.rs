//! A background run over the chosen courses, taken one after the other:
//! the decisions between courses as a state machine. The driver runs each
//! course, reads the stop flag, and performs the actions it is handed.
use vstd::prelude::*;
use crate::brush::{
    course_event, course_event_view, event_view, failure_event, next_course, plain_event,
    BrushProgressEvent, EventView,
};
use crate::client::{ClientError, error_text};
use crate::courses::CourseInfo;

verus! {

/// A run over several courses: the courses, the one being run, and whether
/// the run is over.
pub struct BatchRun {
    pub courses: Vec<CourseInfo>,
    pub index: usize,
    pub ended: bool,
}

/// What the driver hands the machine.
pub enum BatchInput {
    /// The run begins.
    Start,
    /// The current course ended with this outcome; the flag tells whether a
    /// stop was asked meanwhile.
    CourseEnded(Result<(), ClientError>, bool),
}

/// What the machine asks the driver to do, in order.
pub enum BatchAction {
    /// Lower the stop flag (each course starts unstopped).
    ClearStop,
    /// Send an event to the UI.
    Emit(BrushProgressEvent),
    /// Run the course of this index, then report `CourseEnded`.
    RunCourse(usize),
    /// Lower the shared "running" flag.
    ClearRunning,
    /// The run is over.
    Done,
}

/// An action as a plain value.
pub enum BatchStep {
    ClearStop,
    Emit(EventView),
    RunCourse(usize),
    ClearRunning,
    Done,
}

/// The plain value of an action.
pub open spec fn batch_action_view(a: BatchAction) -> BatchStep {
    match a {
        BatchAction::ClearStop => BatchStep::ClearStop,
        BatchAction::Emit(ev) => BatchStep::Emit(event_view(ev)),
        BatchAction::RunCourse(i) => BatchStep::RunCourse(i),
        BatchAction::ClearRunning => BatchStep::ClearRunning,
        BatchAction::Done => BatchStep::Done,
    }
}

/// The plain values of a list of actions.
pub open spec fn batch_actions_view(v: Seq<BatchAction>) -> Seq<BatchStep> {
    v.map_values(|a: BatchAction| batch_action_view(a))
}

/// Opening course `i` of `courses`: lower the stop flag, announce the
/// course (numbered from 1), run it.
pub open spec fn open_course(courses: Seq<CourseInfo>, i: int) -> Seq<BatchStep> {
    seq![
        BatchStep::ClearStop,
        BatchStep::Emit(course_event_view(courses[i], (i + 1) as usize, courses.len() as usize)),
        BatchStep::RunCourse(i as usize),
    ]
}

/// The `error` event of a run that ended in failure.
pub open spec fn failure_view(e: ClientError) -> EventView {
    plain_event("error"@, "刷课异常结束: "@ + error_text(e))
}

/// Closing the run: lower the running flag, then report the failure if
/// there was one, then finish.
pub open spec fn close_run(failure: Option<ClientError>) -> Seq<BatchStep> {
    match failure {
        Some(e) => seq![BatchStep::ClearRunning, BatchStep::Emit(failure_view(e)), BatchStep::Done],
        None => seq![BatchStep::ClearRunning, BatchStep::Done],
    }
}

/// The error of an outcome, if it failed.
pub open spec fn failure_of(r: Result<(), ClientError>) -> Option<ClientError> {
    match r {
        Ok(_) => None,
        Err(e) => Some(e),
    }
}

/// One step: from (courses, current index, ended) and an input, the new
/// index, whether the run is over, and the actions. A run that is over
/// stays over and asks nothing; the next course is opened only after one
/// that ended without failure and without a stop request.
pub open spec fn batch_next(courses: Seq<CourseInfo>, index: int, ended: bool, input: BatchInput) -> (
    int,
    bool,
    Seq<BatchStep>,
) {
    if ended {
        (index, true, Seq::empty())
    } else {
        match input {
            BatchInput::Start => if 0 <= index < courses.len() {
                (index, false, open_course(courses, index))
            } else {
                (index, true, close_run(None))
            },
            BatchInput::CourseEnded(result, stopped) => if result is Ok && !stopped && 0 <= index
                && index + 1 < courses.len() {
                (index + 1, false, open_course(courses, index + 1))
            } else {
                (index, true, close_run(failure_of(result)))
            },
        }
    }
}

/// A run at its start.
pub fn batch_run_new(courses: Vec<CourseInfo>) -> (r: BatchRun)
    ensures
        r.courses@ == courses@,
        r.index == 0,
        !r.ended,
{
    BatchRun { courses, index: 0, ended: false }
}

/// Opens course `i`.
fn open_course_exec(courses: &Vec<CourseInfo>, i: usize) -> (acts: Vec<BatchAction>)
    requires
        i < courses.len(),
    ensures
        batch_actions_view(acts@) == open_course(courses@, i as int),
{
    let mut acts: Vec<BatchAction> = Vec::new();
    acts.push(BatchAction::ClearStop);
    acts.push(BatchAction::Emit(course_event(&courses[i], i + 1, courses.len())));
    acts.push(BatchAction::RunCourse(i));
    assert(batch_actions_view(acts@) =~= open_course(courses@, i as int));
    acts
}

/// Closes the run.
fn close_run_exec(result: &Result<(), ClientError>) -> (acts: Vec<BatchAction>)
    ensures
        batch_actions_view(acts@) == close_run(failure_of(*result)),
{
    let mut acts: Vec<BatchAction> = Vec::new();
    acts.push(BatchAction::ClearRunning);
    if let Err(e) = result {
        acts.push(BatchAction::Emit(failure_event(e)));
    }
    acts.push(BatchAction::Done);
    assert(batch_actions_view(acts@) =~= close_run(failure_of(*result)));
    acts
}

/// One step of the run (`batch_next`).
pub fn batch_step(run: BatchRun, input: BatchInput) -> (r: (BatchRun, Vec<BatchAction>))
    ensures
        r.0.courses@ == run.courses@,
        (r.0.index as int, r.0.ended, batch_actions_view(r.1@)) == batch_next(
            run.courses@,
            run.index as int,
            run.ended,
            input,
        ),
{
    let BatchRun { courses, index, ended } = run;
    if ended {
        let acts: Vec<BatchAction> = Vec::new();
        assert(batch_actions_view(acts@) =~= Seq::<BatchStep>::empty());
        return (BatchRun { courses, index, ended: true }, acts);
    }
    match input {
        BatchInput::Start => {
            if index < courses.len() {
                let acts = open_course_exec(&courses, index);
                (BatchRun { courses, index, ended: false }, acts)
            } else {
                let none: Result<(), ClientError> = Ok(());
                let acts = close_run_exec(&none);
                (BatchRun { courses, index, ended: true }, acts)
            }
        },
        BatchInput::CourseEnded(result, stopped) => {
            match next_course(result.is_err(), stopped, index, courses.len()) {
                Some(next) => {
                    let acts = open_course_exec(&courses, next);
                    (BatchRun { courses, index: next, ended: false }, acts)
                },
                None => {
                    let acts = close_run_exec(&result);
                    (BatchRun { courses, index, ended: true }, acts)
                },
            }
        },
    }
}

/// Whether an action sends an `error` event.
pub open spec fn is_error_event(a: BatchStep) -> bool {
    a matches BatchStep::Emit(ev) && ev.kind == "error"@
}

/// The `error` event owed for an input: one for a course that failed.
pub open spec fn failure_report(input: BatchInput) -> Option<BatchStep> {
    match input {
        BatchInput::CourseEnded(Err(e), _) => Some(BatchStep::Emit(failure_view(e))),
        _ => None,
    }
}

/// How a background run ends. From a run that is not over, a step ends it
/// exactly when it asks to lower the running flag: then that comes first
/// and `Done` last, and an `error` event, between the two, is sent exactly
/// when the course that ended failed (and carries its error). A step that
/// does not end the run lowers no flag, sends no `error` event and does
/// not finish. A run that is over asks nothing more.
pub proof fn lemma_batch_end(courses: Seq<CourseInfo>, index: int, ended: bool, input: BatchInput)
    ensures
        ({
            let (i2, e2, acts) = batch_next(courses, index, ended, input);
            &&& ended ==> e2 && acts.len() == 0
            &&& !ended && e2 ==> {
                &&& acts.len() >= 2
                &&& acts[0] is ClearRunning
                &&& acts.last() is Done
                &&& forall|k: int| 0 < k < acts.len() ==> !(#[trigger] acts[k] is ClearRunning)
                &&& forall|k: int| 0 <= k < acts.len() - 1 ==> !(#[trigger] acts[k] is Done)
                &&& (exists|k: int| 0 <= k < acts.len() && #[trigger] is_error_event(acts[k]))
                    <==> failure_report(input) is Some
                &&& forall|k: int|
                    0 <= k < acts.len() && #[trigger] is_error_event(acts[k]) ==> 0 < k < acts.len()
                        - 1 && failure_report(input) == Some(acts[k])
            }
            &&& !ended && !e2 ==> forall|k: int|
                0 <= k < acts.len() ==> !(#[trigger] acts[k] is ClearRunning) && !(acts[k] is Done)
                    && !is_error_event(acts[k])
        }),
{
    reveal_strlit("course");
    reveal_strlit("error");
    let (i2, e2, acts) = batch_next(courses, index, ended, input);
    if !ended && !e2 {
        let i = i2;
        assert(acts == open_course(courses, i));
        let ev = course_event_view(courses[i], (i + 1) as usize, courses.len() as usize);
        assert(ev.kind == "course"@);
        assert("course"@ != "error"@) by {
            assert("course"@[0] != "error"@[0]);
        }
        assert(!is_error_event(acts[1]));
    }
    if !ended && e2 {
        match input {
            BatchInput::CourseEnded(Err(e), _) => {
                assert(acts == close_run(Some(e)));
                assert(is_error_event(acts[1]));
            },
            _ => {
                assert(acts == close_run(None));
            },
        }
    }
}

/// Whether an event of the run over several courses is one the UI knows:
/// a `course` event, whose course position lies between 1 and the number
/// of courses, or the `error` event.
pub open spec fn listed_batch_event(ev: EventView) -> bool {
    &&& ev.kind == "course"@ || ev.kind == "error"@
    &&& ev.kind == "course"@ ==> ev.course_index is Some && ev.course_total is Some && 1
        <= ev.course_index->0 <= ev.course_total->0
}

/// Every event a step of the run over several courses sends is a `course`
/// event with its position in range, or the `error` event.
pub proof fn lemma_batch_events_listed(courses: Seq<CourseInfo>, index: int, ended: bool, input: BatchInput)
    requires
        courses.len() <= usize::MAX,
    ensures
        forall|k: int|
            0 <= k < batch_next(courses, index, ended, input).2.len() ==> (#[trigger] batch_next(
                courses,
                index,
                ended,
                input,
            ).2[k] matches BatchStep::Emit(ev) ==> listed_batch_event(ev)),
{
    reveal_strlit("course");
    reveal_strlit("error");
    assert("course"@ != "error"@) by {
        assert("course"@[0] != "error"@[0]);
    }
}

} // verus!
