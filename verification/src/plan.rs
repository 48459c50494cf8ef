//! Steps that change the root file system.

use crate::message::{MessageView, Notice, NoticeView, OnError, OnErrorView, SetupMessage};
use vstd::prelude::*;

verus! {

/// What a step does. Paths are relative to the root file system, unless they are absolute.
#[derive(Debug)]
pub enum StepOp {
    /// Send a message to the user.
    Send(SetupMessage),
    /// Create a directory and those above it.
    CreateDir { path: String },
    /// Run the command `chmod` with this mode.
    Chmod { mode: String, path: String },
    /// Set the permission bits.
    SetMode { bits: u32, path: String },
    /// Write a file.
    Write { path: String, content: String },
}

/// The contents of a `StepOp`.
pub enum StepOpView {
    Send(MessageView),
    CreateDir { path: Seq<char> },
    Chmod { mode: Seq<char>, path: Seq<char> },
    SetMode { bits: u32, path: Seq<char> },
    Write { path: Seq<char>, content: Seq<char> },
}

impl View for StepOp {
    type V = StepOpView;

    open spec fn view(&self) -> StepOpView {
        match self {
            StepOp::Send(message) => StepOpView::Send(message@),
            StepOp::CreateDir { path } => StepOpView::CreateDir { path: path@ },
            StepOp::Chmod { mode, path } => StepOpView::Chmod { mode: mode@, path: path@ },
            StepOp::SetMode { bits, path } => StepOpView::SetMode { bits: *bits, path: path@ },
            StepOp::Write { path, content } => StepOpView::Write {
                path: path@,
                content: content@,
            },
        }
    }
}

/// One step of a stage, and what becomes of the stage when it fails.
#[derive(Debug)]
pub struct Step {
    pub op: StepOp,
    pub on_error: OnError,
}

/// The contents of a `Step`.
pub struct StepView {
    pub op: StepOpView,
    pub on_error: OnErrorView,
}

impl View for Step {
    type V = StepView;

    open spec fn view(&self) -> StepView {
        StepView { op: self.op@, on_error: self.on_error@ }
    }
}

/// The contents of a list of steps.
pub open spec fn step_views(steps: Seq<Step>) -> Seq<StepView> {
    steps.map_values(|s: Step| s@)
}

/// What there is to say and to do for a stage.
pub struct StagePlan {
    pub notice: Notice,
    pub steps: Vec<Step>,
}

/// The contents of a `StagePlan`.
pub struct StagePlanView {
    pub notice: NoticeView,
    pub steps: Seq<StepView>,
}

impl View for StagePlan {
    type V = StagePlanView;

    open spec fn view(&self) -> StagePlanView {
        StagePlanView { notice: self.notice@, steps: step_views(self.steps@) }
    }
}

/// The contents of an optional plan.
pub open spec fn opt_plan(p: Option<StagePlan>) -> Option<StagePlanView> {
    match p {
        Some(q) => Some(q@),
        None => None,
    }
}

/// The step that sends a message.
pub open spec fn notify(notice: NoticeView) -> StepView {
    StepView { op: StepOpView::Send(notice.message), on_error: notice.on_lost }
}

/// The step that creates a directory, which may fail.
pub open spec fn try_create_dir(path: Seq<char>) -> StepView {
    StepView { op: StepOpView::CreateDir { path }, on_error: OnErrorView::Ignore }
}

/// The step that creates a directory, or stops the stage with `failure`.
pub open spec fn create_dir_or(path: Seq<char>, failure: Seq<char>) -> StepView {
    StepView { op: StepOpView::CreateDir { path }, on_error: OnErrorView::Abort(failure) }
}

/// The step that runs `chmod`, which may fail.
pub open spec fn try_chmod(mode: Seq<char>, path: Seq<char>) -> StepView {
    StepView { op: StepOpView::Chmod { mode, path }, on_error: OnErrorView::Ignore }
}

/// The step that sets the permission bits, which may fail.
pub open spec fn try_set_mode(bits: u32, path: Seq<char>) -> StepView {
    StepView { op: StepOpView::SetMode { bits, path }, on_error: OnErrorView::Ignore }
}

/// The step that writes a file, which may fail.
pub open spec fn try_write(path: Seq<char>, content: Seq<char>) -> StepView {
    StepView { op: StepOpView::Write { path, content }, on_error: OnErrorView::Ignore }
}

/// The step that writes a file, or stops the stage with `failure`.
pub open spec fn write_or(path: Seq<char>, content: Seq<char>, failure: Seq<char>) -> StepView {
    StepView { op: StepOpView::Write { path, content }, on_error: OnErrorView::Abort(failure) }
}

/// The paths that exist after a step that did not fail.
pub open spec fn after_step(paths: Set<Seq<char>>, step: StepView) -> Set<Seq<char>> {
    match step.op {
        StepOpView::CreateDir { path } => paths.insert(path),
        StepOpView::Write { path, .. } => paths.insert(path),
        _ => paths,
    }
}

/// The paths that exist after steps of which none failed.
pub open spec fn after_steps(paths: Set<Seq<char>>, steps: Seq<StepView>) -> Set<Seq<char>>
    decreases steps.len(),
{
    if steps.len() == 0 {
        paths
    } else {
        after_step(after_steps(paths, steps.drop_last()), steps.last())
    }
}

/// A file that one of the steps writes exists after the steps.
pub proof fn lemma_written(
    paths: Set<Seq<char>>,
    steps: Seq<StepView>,
    i: int,
    path: Seq<char>,
)
    requires
        0 <= i < steps.len(),
        steps[i].op matches StepOpView::Write { path: p, .. } && p == path,
    ensures
        after_steps(paths, steps).contains(path),
    decreases steps.len(),
{
    if i < steps.len() - 1 {
        lemma_written(paths, steps.drop_last(), i, path);
    }
}

/// Appends the step that sends a message.
pub fn push_notify(steps: &mut Vec<Step>, notice: Notice)
    ensures
        step_views(final(steps)@) == step_views(old(steps)@).push(notify(notice@)),
{
    steps.push(Step { op: StepOp::Send(notice.message), on_error: notice.on_lost });
    assert(step_views(steps@) =~= step_views(old(steps)@).push(notify(notice@)));
}

/// Appends the step that creates a directory, which may fail.
pub fn push_try_create_dir(steps: &mut Vec<Step>, path: &str)
    ensures
        step_views(final(steps)@) == step_views(old(steps)@).push(try_create_dir(path@)),
{
    steps.push(
        Step { op: StepOp::CreateDir { path: path.to_owned() }, on_error: OnError::Ignore },
    );
    assert(step_views(steps@) =~= step_views(old(steps)@).push(try_create_dir(path@)));
}

/// Appends the step that creates a directory, or stops the stage.
pub fn push_create_dir_or(steps: &mut Vec<Step>, path: &str, failure: &str)
    ensures
        step_views(final(steps)@) == step_views(old(steps)@).push(create_dir_or(path@, failure@)),
{
    steps.push(
        Step {
            op: StepOp::CreateDir { path: path.to_owned() },
            on_error: OnError::Abort(failure.to_owned()),
        },
    );
    assert(step_views(steps@) =~= step_views(old(steps)@).push(create_dir_or(path@, failure@)));
}

/// Appends the step that runs `chmod`, which may fail.
pub fn push_try_chmod(steps: &mut Vec<Step>, mode: &str, path: &str)
    ensures
        step_views(final(steps)@) == step_views(old(steps)@).push(try_chmod(mode@, path@)),
{
    steps.push(
        Step {
            op: StepOp::Chmod { mode: mode.to_owned(), path: path.to_owned() },
            on_error: OnError::Ignore,
        },
    );
    assert(step_views(steps@) =~= step_views(old(steps)@).push(try_chmod(mode@, path@)));
}

/// Appends the step that sets the permission bits, which may fail.
pub fn push_try_set_mode(steps: &mut Vec<Step>, bits: u32, path: &str)
    ensures
        step_views(final(steps)@) == step_views(old(steps)@).push(try_set_mode(bits, path@)),
{
    steps.push(
        Step { op: StepOp::SetMode { bits, path: path.to_owned() }, on_error: OnError::Ignore },
    );
    assert(step_views(steps@) =~= step_views(old(steps)@).push(try_set_mode(bits, path@)));
}

/// Appends the step that writes a file, which may fail.
pub fn push_try_write(steps: &mut Vec<Step>, path: &str, content: &str)
    ensures
        step_views(final(steps)@) == step_views(old(steps)@).push(try_write(path@, content@)),
{
    steps.push(
        Step {
            op: StepOp::Write { path: path.to_owned(), content: content.to_owned() },
            on_error: OnError::Ignore,
        },
    );
    assert(step_views(steps@) =~= step_views(old(steps)@).push(try_write(path@, content@)));
}

/// Appends the step that writes a file, or stops the stage.
pub fn push_write_or(steps: &mut Vec<Step>, path: &str, content: &str, failure: &str)
    ensures
        step_views(final(steps)@) == step_views(old(steps)@).push(
            write_or(path@, content@, failure@),
        ),
{
    steps.push(
        Step {
            op: StepOp::Write { path: path.to_owned(), content: content.to_owned() },
            on_error: OnError::Abort(failure.to_owned()),
        },
    );
    assert(step_views(steps@) =~= step_views(old(steps)@).push(
        write_or(path@, content@, failure@),
    ));
}

} // verus!
