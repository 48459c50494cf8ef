//! Running the stages of the setup one after the other.

use crate::message;
use crate::message::{Notice, NoticeView};
use vstd::prelude::*;

verus! {

/// A stage of the setup.
#[derive(Debug, Clone, Copy, PartialEq, Eq, Structural)]
pub enum SetupStage {
    /// Brings the root file system.
    ArchFs,
    /// Simulates the system data of Linux.
    LinuxSysdata,
    /// Patches the root file system.
    PatchRootfs,
    /// Writes the configuration of Firefox.
    FirefoxConfig,
}

/// The stages in the order in which they are run.
pub open spec fn all_stages() -> Seq<SetupStage> {
    seq![
        SetupStage::ArchFs,
        SetupStage::LinuxSysdata,
        SetupStage::PatchRootfs,
        SetupStage::FirefoxConfig,
    ]
}

/// The position of a stage among all stages.
pub open spec fn position(stage: SetupStage) -> int {
    match stage {
        SetupStage::ArchFs => 0,
        SetupStage::LinuxSysdata => 1,
        SetupStage::PatchRootfs => 2,
        SetupStage::FirefoxConfig => 3,
    }
}

/// The progress in percent when the first `done` stages are done.
pub open spec fn progress_of(done: int) -> u16 {
    (done * 100 / all_stages().len() as int) as u16
}

/// How far the setup is.
#[derive(Debug, Clone, Copy, PartialEq, Eq, Structural)]
pub enum SetupState {
    Start,
    /// The stage looks whether its task was done previously, while nothing is shown yet.
    Foreground(SetupStage),
    /// The first stage that had something to do runs.
    FirstTask(SetupStage),
    /// The stage looks whether its task was done previously, while the progress is shown.
    Background(SetupStage),
    /// A later stage that has something to do runs.
    LaterTask(SetupStage),
    Finished,
}

/// What happened.
#[derive(Debug)]
pub enum SetupEvent {
    /// It was found out whether the device is supported.
    Checked { supported: bool },
    /// The task of the stage is done.
    StageDone,
    /// The task of the stage was started.
    TaskStarted,
    /// The task of the stage has ended.
    TaskJoined,
    /// The task of the stage has failed, with a reason where it gave one in words.
    TaskFailed { reason: Option<String> },
}

/// The contents of a `SetupEvent`.
pub enum SetupEventView {
    Checked { supported: bool },
    StageDone,
    TaskStarted,
    TaskJoined,
    TaskFailed { reason: Option<Seq<char>> },
}

impl View for SetupEvent {
    type V = SetupEventView;

    open spec fn view(&self) -> SetupEventView {
        match self {
            SetupEvent::Checked { supported } => SetupEventView::Checked { supported: *supported },
            SetupEvent::StageDone => SetupEventView::StageDone,
            SetupEvent::TaskStarted => SetupEventView::TaskStarted,
            SetupEvent::TaskJoined => SetupEventView::TaskJoined,
            SetupEvent::TaskFailed { reason } => SetupEventView::TaskFailed {
                reason: match reason {
                    Some(text) => Some(text@),
                    None => None,
                },
            },
        }
    }
}

/// What to do next.
#[derive(Debug)]
pub enum SetupAction {
    /// Send a message to the user.
    Notify(Notice),
    /// Run a stage until it says that its task is done, or has started it.
    RunStage(SetupStage),
    /// Show the progress to the user, and go on in the background.
    ShowProgress,
    /// Set the progress in percent.
    SetProgress(u16),
    /// Wait for the task of the stage.
    Join,
    /// Show the desktop to the user.
    ShowDesktop,
    /// Show the user that the device is not supported.
    ShowUnsupported,
}

/// The contents of a `SetupAction`.
pub enum SetupActionView {
    Notify(NoticeView),
    RunStage(SetupStage),
    ShowProgress,
    SetProgress(u16),
    Join,
    ShowDesktop,
    ShowUnsupported,
}

impl View for SetupAction {
    type V = SetupActionView;

    open spec fn view(&self) -> SetupActionView {
        match self {
            SetupAction::Notify(notice) => SetupActionView::Notify(notice@),
            SetupAction::RunStage(stage) => SetupActionView::RunStage(*stage),
            SetupAction::ShowProgress => SetupActionView::ShowProgress,
            SetupAction::SetProgress(percent) => SetupActionView::SetProgress(*percent),
            SetupAction::Join => SetupActionView::Join,
            SetupAction::ShowDesktop => SetupActionView::ShowDesktop,
            SetupAction::ShowUnsupported => SetupActionView::ShowUnsupported,
        }
    }
}

/// The contents of a list of actions.
pub open spec fn action_views(actions: Seq<SetupAction>) -> Seq<SetupActionView> {
    actions.map_values(|a: SetupAction| a@)
}

/// What the user is told where the device is supported.
pub open spec fn supported_notice() -> NoticeView {
    message::progress("✅ Your device is supported!"@)
}

/// What the user is told at the end.
pub open spec fn finished_notice() -> NoticeView {
    message::progress_or(
        "Installation finished, please restart the app"@,
        "Failed to send installation finished message"@,
    )
}

/// What the user is told when the task of a stage fails.
pub open spec fn failed_notice(reason: Option<Seq<char>>) -> NoticeView {
    message::error(
        "Stage execution failed: "@ + match reason {
            Some(text) => text,
            None => "Unknown error"@,
        },
    )
}

/// Goes on in the foreground when the first `done` stages are done.
pub open spec fn foreground_after(done: int) -> (SetupState, Seq<SetupActionView>) {
    if done < all_stages().len() {
        let stage = all_stages()[done];
        (SetupState::Foreground(stage), seq![SetupActionView::RunStage(stage)])
    } else {
        (SetupState::Finished, seq![SetupActionView::ShowDesktop])
    }
}

/// Goes on in the background when the first `done` stages are done.
pub open spec fn background_after(done: int) -> (SetupState, Seq<SetupActionView>) {
    if done < all_stages().len() {
        let stage = all_stages()[done];
        (
            SetupState::Background(stage),
            seq![SetupActionView::SetProgress(progress_of(done)), SetupActionView::RunStage(stage)],
        )
    } else {
        (
            SetupState::Finished,
            seq![SetupActionView::SetProgress(100), SetupActionView::Notify(finished_notice())],
        )
    }
}

/// The next state and actions. An event that the state does not expect changes nothing.
pub open spec fn setup_next(state: SetupState, event: SetupEventView) -> (
    SetupState,
    Seq<SetupActionView>,
) {
    match (state, event) {
        (SetupState::Start, SetupEventView::Checked { supported }) => if supported {
            let (next, actions) = foreground_after(0);
            (next, seq![SetupActionView::Notify(supported_notice())] + actions)
        } else {
            (SetupState::Finished, seq![SetupActionView::ShowUnsupported])
        },
        (SetupState::Foreground(stage), SetupEventView::StageDone) => foreground_after(
            position(stage) + 1,
        ),
        (SetupState::Foreground(stage), SetupEventView::TaskStarted) => (
            SetupState::FirstTask(stage),
            seq![
                SetupActionView::ShowProgress,
                SetupActionView::SetProgress(progress_of(position(stage))),
                SetupActionView::Join,
            ],
        ),
        (SetupState::FirstTask(stage), SetupEventView::TaskJoined) => background_after(
            position(stage) + 1,
        ),
        (SetupState::Background(stage), SetupEventView::StageDone) => background_after(
            position(stage) + 1,
        ),
        (SetupState::Background(stage), SetupEventView::TaskStarted) => (
            SetupState::LaterTask(stage),
            seq![SetupActionView::Join],
        ),
        (SetupState::LaterTask(stage), SetupEventView::TaskJoined) => {
            let (next, actions) = background_after(position(stage) + 1);
            (
                next,
                seq![SetupActionView::SetProgress(progress_of(position(stage) + 1))] + actions,
            )
        },
        (
            SetupState::FirstTask(_) | SetupState::LaterTask(_),
            SetupEventView::TaskFailed { reason },
        ) => (SetupState::Finished, seq![SetupActionView::Notify(failed_notice(reason))]),
        _ => (state, Seq::empty()),
    }
}

/// How many stages there are.
pub const STAGE_COUNT: u16 = 4;

/// The number of stages that are done when this one is.
fn done_with(stage: SetupStage) -> (r: u16)
    ensures
        r == position(stage) + 1,
        r <= STAGE_COUNT,
{
    match stage {
        SetupStage::ArchFs => 1,
        SetupStage::LinuxSysdata => 2,
        SetupStage::PatchRootfs => 3,
        SetupStage::FirefoxConfig => 4,
    }
}

/// The stage that comes when `done` stages are done.
fn stage_after(done: u16) -> (r: Option<SetupStage>)
    ensures
        match r {
            Some(stage) => done < all_stages().len() && stage == all_stages()[done as int],
            None => done >= all_stages().len(),
        },
{
    if done == 0 {
        Some(SetupStage::ArchFs)
    } else if done == 1 {
        Some(SetupStage::LinuxSysdata)
    } else if done == 2 {
        Some(SetupStage::PatchRootfs)
    } else if done == 3 {
        Some(SetupStage::FirefoxConfig)
    } else {
        None
    }
}

/// The progress in percent when `done` stages are done.
fn progress_value(done: u16) -> (r: u16)
    requires
        done <= STAGE_COUNT,
    ensures
        r == progress_of(done as int),
        r <= 100,
{
    done * 100 / STAGE_COUNT
}

/// Appends an action.
fn push_action(actions: &mut Vec<SetupAction>, action: SetupAction)
    ensures
        action_views(final(actions)@) == action_views(old(actions)@).push(action@),
{
    actions.push(action);
    assert(action_views(actions@) =~= action_views(old(actions)@).push(action@));
}

/// Goes on in the foreground.
fn go_on_in_foreground(done: u16, actions: Vec<SetupAction>) -> (r: (SetupState, Vec<SetupAction>))
    ensures
        r.0 == foreground_after(done as int).0,
        action_views(r.1@) == action_views(actions@) + foreground_after(done as int).1,
{
    let mut out = actions;
    match stage_after(done) {
        Some(stage) => {
            push_action(&mut out, SetupAction::RunStage(stage));
            assert(action_views(out@) =~= action_views(actions@) + foreground_after(
                done as int,
            ).1);
            (SetupState::Foreground(stage), out)
        },
        None => {
            push_action(&mut out, SetupAction::ShowDesktop);
            assert(action_views(out@) =~= action_views(actions@) + foreground_after(
                done as int,
            ).1);
            (SetupState::Finished, out)
        },
    }
}

/// Goes on in the background.
fn go_on_in_background(done: u16, actions: Vec<SetupAction>) -> (r: (SetupState, Vec<SetupAction>))
    requires
        done <= STAGE_COUNT,
    ensures
        r.0 == background_after(done as int).0,
        action_views(r.1@) == action_views(actions@) + background_after(done as int).1,
{
    let mut out = actions;
    match stage_after(done) {
        Some(stage) => {
            push_action(&mut out, SetupAction::SetProgress(progress_value(done)));
            push_action(&mut out, SetupAction::RunStage(stage));
            assert(action_views(out@) =~= action_views(actions@) + background_after(
                done as int,
            ).1);
            (SetupState::Background(stage), out)
        },
        None => {
            push_action(&mut out, SetupAction::SetProgress(100));
            push_action(
                &mut out,
                SetupAction::Notify(
                    message::emit_progress_or(
                        "Installation finished, please restart the app".to_owned(),
                        "Failed to send installation finished message",
                    ),
                ),
            );
            assert(action_views(out@) =~= action_views(actions@) + background_after(
                done as int,
            ).1);
            (SetupState::Finished, out)
        },
    }
}

/// Stops because the task of a stage has failed.
fn stop(reason: Option<String>) -> (r: (SetupState, Vec<SetupAction>))
    ensures
        r.0 == SetupState::Finished,
        action_views(r.1@) == seq![
            SetupActionView::Notify(
                failed_notice(
                    match reason {
                        Some(text) => Some(text@),
                        None => None,
                    },
                ),
            ),
        ],
{
    let mut text = "Stage execution failed: ".to_owned();
    match reason {
        Some(reason) => text.append(reason.as_str()),
        None => text.append("Unknown error"),
    }
    let mut actions: Vec<SetupAction> = Vec::new();
    push_action(&mut actions, SetupAction::Notify(message::emit_setup_error(text)));
    assert(action_views(actions@) =~= seq![actions@[0]@]);
    (SetupState::Finished, actions)
}

/// Decides how the setup goes on. Each stage is asked in turn whether its task was done previously.
/// Where all were, the desktop is shown. Else the progress is shown from the first stage that has
/// something to do, and the remaining stages are run in the background.
pub fn setup(state: SetupState, event: SetupEvent) -> (r: (SetupState, Vec<SetupAction>))
    ensures
        (r.0, action_views(r.1@)) == setup_next(state, event@),
{
    let mut actions: Vec<SetupAction> = Vec::new();
    assert(action_views(actions@) =~= Seq::<SetupActionView>::empty());
    let ghost wanted = setup_next(state, event@);
    match state {
        SetupState::Start => match event {
            SetupEvent::Checked { supported } => {
                if supported {
                    push_action(
                        &mut actions,
                        SetupAction::Notify(
                            message::emit_progress("✅ Your device is supported!".to_owned()),
                        ),
                    );
                    let r = go_on_in_foreground(0, actions);
                    assert(action_views(r.1@) =~= wanted.1);
                    r
                } else {
                    push_action(&mut actions, SetupAction::ShowUnsupported);
                    assert(action_views(actions@) =~= wanted.1);
                    (SetupState::Finished, actions)
                }
            },
            _ => (state, actions),
        },
        SetupState::Foreground(stage) => match event {
            SetupEvent::StageDone => {
                let r = go_on_in_foreground(done_with(stage), actions);
                assert(action_views(r.1@) =~= wanted.1);
                r
            },
            SetupEvent::TaskStarted => {
                push_action(&mut actions, SetupAction::ShowProgress);
                push_action(
                    &mut actions,
                    SetupAction::SetProgress(progress_value(done_with(stage) - 1)),
                );
                push_action(&mut actions, SetupAction::Join);
                assert(action_views(actions@) =~= wanted.1);
                (SetupState::FirstTask(stage), actions)
            },
            _ => (state, actions),
        },
        SetupState::FirstTask(stage) => match event {
            SetupEvent::TaskJoined => {
                let r = go_on_in_background(done_with(stage), actions);
                assert(action_views(r.1@) =~= wanted.1);
                r
            },
            SetupEvent::TaskFailed { reason } => stop(reason),
            _ => (state, actions),
        },
        SetupState::Background(stage) => match event {
            SetupEvent::StageDone => {
                let r = go_on_in_background(done_with(stage), actions);
                assert(action_views(r.1@) =~= wanted.1);
                r
            },
            SetupEvent::TaskStarted => {
                push_action(&mut actions, SetupAction::Join);
                assert(action_views(actions@) =~= wanted.1);
                (SetupState::LaterTask(stage), actions)
            },
            _ => (state, actions),
        },
        SetupState::LaterTask(stage) => match event {
            SetupEvent::TaskJoined => {
                push_action(
                    &mut actions,
                    SetupAction::SetProgress(progress_value(done_with(stage))),
                );
                let r = go_on_in_background(done_with(stage), actions);
                assert(action_views(r.1@) =~= wanted.1);
                r
            },
            SetupEvent::TaskFailed { reason } => stop(reason),
            _ => (state, actions),
        },
        SetupState::Finished => (state, actions),
    }
}

/// The state after these events.
pub open spec fn state_after(events: Seq<SetupEventView>) -> SetupState
    decreases events.len(),
{
    if events.len() == 0 {
        SetupState::Start
    } else {
        setup_next(state_after(events.drop_last()), events.last()).0
    }
}

/// All actions that these events lead to.
pub open spec fn actions_of(events: Seq<SetupEventView>) -> Seq<SetupActionView>
    decreases events.len(),
{
    if events.len() == 0 {
        Seq::empty()
    } else {
        actions_of(events.drop_last()) + setup_next(
            state_after(events.drop_last()),
            events.last(),
        ).1
    }
}

/// The stages that these actions run.
pub open spec fn stages_run(actions: Seq<SetupActionView>) -> Seq<SetupStage>
    decreases actions.len(),
{
    if actions.len() == 0 {
        Seq::empty()
    } else {
        let before = stages_run(actions.drop_last());
        match actions.last() {
            SetupActionView::RunStage(stage) => before.push(stage),
            _ => before,
        }
    }
}

/// Something is shown to the user.
pub open spec fn is_show(action: SetupActionView) -> bool {
    action is ShowProgress || action is ShowDesktop || action is ShowUnsupported
}

/// How often something is shown to the user.
pub open spec fn shows(actions: Seq<SetupActionView>) -> nat
    decreases actions.len(),
{
    if actions.len() == 0 {
        0
    } else {
        shows(actions.drop_last()) + if is_show(actions.last()) {
            1nat
        } else {
            0nat
        }
    }
}

/// The stages run and the pages shown by two lists of actions in a row.
proof fn lemma_append(a: Seq<SetupActionView>, b: Seq<SetupActionView>)
    ensures
        stages_run(a + b) == stages_run(a) + stages_run(b),
        shows(a + b) == shows(a) + shows(b),
    decreases b.len(),
{
    if b.len() == 0 {
        assert(a + b =~= a);
        assert(stages_run(a) + stages_run(b) =~= stages_run(a));
    } else {
        lemma_append(a, b.drop_last());
        assert((a + b).drop_last() =~= a + b.drop_last());
        assert(stages_run(a + b) =~= stages_run(a) + stages_run(b));
    }
}

/// How many stages have been run in a state, where the setup has not finished.
pub open spec fn run_so_far(state: SetupState) -> int {
    match state {
        SetupState::Foreground(stage)
        | SetupState::FirstTask(stage)
        | SetupState::Background(stage)
        | SetupState::LaterTask(stage) => position(stage) + 1,
        _ => 0,
    }
}

/// The user sees the progress.
pub open spec fn progress_shown(state: SetupState) -> bool {
    state is FirstTask || state is Background || state is LaterTask
}

/// What one step runs and shows.
proof fn lemma_step(state: SetupState, event: SetupEventView)
    ensures
        ({
            let (next, actions) = setup_next(state, event);
            let run = all_stages().take(run_so_far(state)) + stages_run(actions);
            &&& next !is Finished ==> run == all_stages().take(run_so_far(next)) && shows(actions)
                == (if progress_shown(next) && !progress_shown(state) {
                1nat
            } else {
                0nat
            })
            &&& next !is Finished ==> (progress_shown(state) ==> progress_shown(next))
            &&& next is Finished && state !is Finished ==> run == all_stages().take(
                run_so_far(state),
            ) && shows(actions) == (if progress_shown(state) {
                0nat
            } else {
                1nat
            })
            &&& state is Finished ==> next is Finished && actions.len() == 0
        }),
{
    let (next, actions) = setup_next(state, event);
    let run = all_stages().take(run_so_far(state)) + stages_run(actions);
    reveal_with_fuel(stages_run, 5);
    reveal_with_fuel(shows, 5);
    if next is Finished {
        assert(run =~= all_stages().take(run_so_far(state)));
    } else {
        assert(run =~= all_stages().take(run_so_far(next)));
    }
}

/// What the state tells of the actions so far.
proof fn lemma_history(events: Seq<SetupEventView>)
    ensures
        ({
            let state = state_after(events);
            let actions = actions_of(events);
            &&& state !is Finished ==> stages_run(actions) == all_stages().take(run_so_far(state))
                && shows(actions) == (if progress_shown(state) {
                1nat
            } else {
                0nat
            })
            &&& state is Finished ==> shows(actions) == 1 && exists|n: int|
                0 <= n <= all_stages().len() && stages_run(actions) == #[trigger] all_stages().take(
                    n,
                )
        }),
    decreases events.len(),
{
    if events.len() == 0 {
        assert(stages_run(actions_of(events)) =~= all_stages().take(0));
    } else {
        let before = events.drop_last();
        lemma_history(before);
        let state = state_after(before);
        let (next, actions) = setup_next(state, events.last());
        lemma_step(state, events.last());
        lemma_append(actions_of(before), actions);
        if state is Finished {
            assert(actions =~= Seq::empty());
            assert(actions_of(events) =~= actions_of(before));
        }
    }
}

/// Whatever happens, each stage is run at most once, and the stages are run in their order.
pub proof fn law_stages_in_order(events: Seq<SetupEventView>)
    ensures
        stages_run(actions_of(events)).is_prefix_of(all_stages()),
{
    lemma_history(events);
}

/// Whatever happens, the user is shown one thing only: the progress, the desktop, or that the
/// device is not supported. When the setup has finished, one of them was shown.
pub proof fn law_one_page(events: Seq<SetupEventView>)
    ensures
        shows(actions_of(events)) <= 1,
        state_after(events) is Finished ==> shows(actions_of(events)) == 1,
{
    lemma_history(events);
}

/// Where the setup ends well, every stage was run, and the last one is done: the desktop is shown
/// only in the foreground, and the message that the installation is finished is sent only in the
/// background.
pub proof fn law_end_means_all_stages(events: Seq<SetupEventView>, event: SetupEventView, i: int)
    requires
        ({
            let actions = setup_next(state_after(events), event).1;
            &&& 0 <= i < actions.len()
            &&& actions[i] is ShowDesktop || actions[i] == SetupActionView::Notify(
                finished_notice(),
            )
        }),
    ensures
        stages_run(actions_of(events)) == all_stages(),
        event is StageDone || event is TaskJoined,
        setup_next(state_after(events), event).1[i] is ShowDesktop ==> event is StageDone && shows(
            actions_of(events),
        ) == 0,
        setup_next(state_after(events), event).1[i] is Notify ==> shows(actions_of(events)) == 1,
{
    lemma_history(events);
    reveal_strlit("✅ Your device is supported!");
    reveal_strlit("Installation finished, please restart the app");
    assert("✅ Your device is supported!"@.len() != "Installation finished, please restart the app"@.len());
    assert(all_stages().take(4) =~= all_stages());
}

/// A stage is run only at the beginning, or when the one before it is done.
pub proof fn law_stage_after_stage(events: Seq<SetupEventView>, event: SetupEventView, i: int)
    requires
        ({
            let actions = setup_next(state_after(events), event).1;
            0 <= i < actions.len() && actions[i] is RunStage
        }),
    ensures
        event == (SetupEventView::Checked { supported: true }) || event is StageDone
            || event is TaskJoined,
{
}

/// Once the setup has finished, as it does when the task of a stage fails, nothing more is done.
pub proof fn law_finished_stays(
    events: Seq<SetupEventView>,
    more: Seq<SetupEventView>,
)
    requires
        state_after(events) is Finished,
    ensures
        state_after(events + more) is Finished,
        actions_of(events + more) == actions_of(events),
    decreases more.len(),
{
    if more.len() == 0 {
        assert(events + more =~= events);
    } else {
        law_finished_stays(events, more.drop_last());
        assert((events + more).drop_last() =~= events + more.drop_last());
        assert(actions_of(events + more) =~= actions_of(events));
    }
}

/// A task that fails ends the setup.
pub proof fn law_failure_stops(state: SetupState, reason: Option<Seq<char>>)
    requires
        state is FirstTask || state is LaterTask,
    ensures
        setup_next(state, SetupEventView::TaskFailed { reason }) == (
            SetupState::Finished,
            seq![SetupActionView::Notify(failed_notice(reason))],
        ),
{
}

/// The progress that a state allows at most.
pub open spec fn ceiling(state: SetupState) -> u16 {
    match state {
        SetupState::FirstTask(stage)
        | SetupState::Background(stage)
        | SetupState::LaterTask(stage) => progress_of(position(stage)),
        SetupState::Finished => 100,
        _ => 0,
    }
}

/// Every progress that the actions set lies between the two bounds, and none is lower than an
/// earlier one.
pub open spec fn rising(actions: Seq<SetupActionView>, low: u16, high: u16) -> bool {
    &&& forall|i: int|
        0 <= i < actions.len() ==> (#[trigger] actions[i] matches SetupActionView::SetProgress(p)
            ==> low <= p <= high)
    &&& forall|i: int, j: int|
        0 <= i < j < actions.len() ==> (#[trigger] actions[i] matches SetupActionView::SetProgress(p)
            ==> (#[trigger] actions[j] matches SetupActionView::SetProgress(q) ==> p <= q))
}

/// Whatever happens, the progress never falls, and never exceeds 100 percent.
pub proof fn law_progress_rises(events: Seq<SetupEventView>)
    ensures
        rising(actions_of(events), 0, 100),
{
    lemma_rising(events);
}

/// The progress that one step sets lies between the ceilings of the two states.
proof fn lemma_step_rises(state: SetupState, event: SetupEventView)
    ensures
        rising(setup_next(state, event).1, ceiling(state), ceiling(setup_next(state, event).0)),
        ceiling(state) <= ceiling(setup_next(state, event).0) <= 100,
{
    let (next, actions) = setup_next(state, event);
    assert(progress_of(0) == 0);
    assert(progress_of(1) == 25);
    assert(progress_of(2) == 50);
    assert(progress_of(3) == 75);
    assert(progress_of(4) == 100);
    assert forall|i: int|
        0 <= i < actions.len() implies (#[trigger] actions[i] matches SetupActionView::SetProgress(p)
        ==> ceiling(state) <= p <= ceiling(next)) by {
        assert(i == 0 || i == 1 || i == 2);
    }
}

/// The progress never falls, and stays below the ceiling of the state.
proof fn lemma_rising(events: Seq<SetupEventView>)
    ensures
        rising(actions_of(events), 0, ceiling(state_after(events))),
        ceiling(state_after(events)) <= 100,
    decreases events.len(),
{
    if events.len() > 0 {
        let before = events.drop_last();
        lemma_rising(before);
        let state = state_after(before);
        lemma_step_rises(state, events.last());
    }
}

} // verus!
