//! What the setup as a whole is for: every stage gets its turn, the progress is the share of the
//! stages that are done, and the user is told how it ended.

use crate::message::{MessageView, NoticeView, OnErrorView};
use crate::stages;
use crate::stages::{SetupActionView, SetupEventView, SetupStage, SetupState};
use vstd::prelude::*;

verus! {

/// The stages by number.
pub open spec fn stage_at(k: int) -> SetupStage {
    if k == 0 {
        SetupStage::ArchFs
    } else if k == 1 {
        SetupStage::LinuxSysdata
    } else if k == 2 {
        SetupStage::PatchRootfs
    } else {
        SetupStage::FirefoxConfig
    }
}

/// What happens when the stages get their turn one after the other: a stage that has something to do
/// starts its task, which ends; any other is done at once.
pub open spec fn reports(had_task: Seq<bool>) -> Seq<SetupEventView>
    decreases had_task.len(),
{
    if had_task.len() == 0 {
        seq![SetupEventView::Checked { supported: true }]
    } else if had_task.last() {
        reports(had_task.drop_last()).push(SetupEventView::TaskStarted).push(
            SetupEventView::TaskJoined,
        )
    } else {
        reports(had_task.drop_last()).push(SetupEventView::StageDone)
    }
}

/// The progress that was set last.
pub open spec fn last_progress(actions: Seq<SetupActionView>) -> Option<u16>
    decreases actions.len(),
{
    if actions.len() == 0 {
        None
    } else {
        match actions.last() {
            SetupActionView::SetProgress(percent) => Some(percent),
            _ => last_progress(actions.drop_last()),
        }
    }
}

/// The message at the start.
pub open spec fn supported_action() -> SetupActionView {
    SetupActionView::Notify(
        NoticeView {
            message: MessageView::Progress("✅ Your device is supported!"@),
            on_lost: OnErrorView::Ignore,
        },
    )
}

/// The message at the end.
pub open spec fn finished_action() -> SetupActionView {
    SetupActionView::Notify(
        NoticeView {
            message: MessageView::Progress("Installation finished, please restart the app"@),
            on_lost: OnErrorView::Abort("Failed to send installation finished message"@),
        },
    )
}

/// The share of the stages that are done, in percent.
proof fn lemma_share(done: int)
    requires
        0 <= done <= 4,
    ensures
        stages::progress_of(done) == 25 * done,
{
    assert(stages::all_stages().len() == 4);
    assert(done == 0 || done == 1 || done == 2 || done == 3 || done == 4);
}

/// What one more event adds to the history.
proof fn lemma_push(events: Seq<SetupEventView>, event: SetupEventView)
    ensures
        stages::state_after(events.push(event)) == stages::setup_next(
            stages::state_after(events),
            event,
        ).0,
        stages::actions_of(events.push(event)) == stages::actions_of(events) + stages::setup_next(
            stages::state_after(events),
            event,
        ).1,
{
    assert(events.push(event).drop_last() =~= events);
}

/// A stage whose task was done before is passed over: in the foreground the next stage is run, and
/// behind the last one the desktop is shown.
pub proof fn law_passed_over_in_foreground(k: int)
    requires
        0 <= k < 4,
    ensures
        stages::setup_next(SetupState::Foreground(stage_at(k)), SetupEventView::StageDone) == (
        if k < 3 {
            (
                SetupState::Foreground(stage_at(k + 1)),
                seq![SetupActionView::RunStage(stage_at(k + 1))],
            )
        } else {
            (SetupState::Finished, seq![SetupActionView::ShowDesktop])
        }),
{
}

/// A stage whose task was done before is passed over: in the background the next stage is run, and
/// behind the last one the installation is finished. The progress is the share of the stages that
/// are done.
pub proof fn law_passed_over_in_background(k: int)
    requires
        0 <= k < 4,
    ensures
        stages::setup_next(SetupState::Background(stage_at(k)), SetupEventView::StageDone) == (
        if k < 3 {
            (
                SetupState::Background(stage_at(k + 1)),
                seq![
                    SetupActionView::SetProgress((25 * (k + 1)) as u16),
                    SetupActionView::RunStage(stage_at(k + 1)),
                ],
            )
        } else {
            (SetupState::Finished, seq![SetupActionView::SetProgress(100), finished_action()])
        }),
{
    lemma_share(k + 1);
}

/// The first task that is started brings the progress before the user, at the share of the stages
/// that are done; any task is waited for.
pub proof fn law_task_is_waited_for(k: int)
    requires
        0 <= k < 4,
    ensures
        stages::setup_next(SetupState::Foreground(stage_at(k)), SetupEventView::TaskStarted) == (
            SetupState::FirstTask(stage_at(k)),
            seq![
                SetupActionView::ShowProgress,
                SetupActionView::SetProgress((25 * k) as u16),
                SetupActionView::Join,
            ],
        ),
        stages::setup_next(SetupState::Background(stage_at(k)), SetupEventView::TaskStarted) == (
            SetupState::LaterTask(stage_at(k)),
            seq![SetupActionView::Join],
        ),
{
    lemma_share(k);
}

/// When a task ends, the setup goes on as when the task was done before; a later task sets the
/// progress once more.
pub proof fn law_task_ends(k: int)
    requires
        0 <= k < 4,
    ensures
        stages::setup_next(SetupState::FirstTask(stage_at(k)), SetupEventView::TaskJoined)
            == stages::setup_next(SetupState::Background(stage_at(k)), SetupEventView::StageDone),
        ({
            let (next, actions) = stages::setup_next(
                SetupState::Background(stage_at(k)),
                SetupEventView::StageDone,
            );
            stages::setup_next(SetupState::LaterTask(stage_at(k)), SetupEventView::TaskJoined) == (
                next,
                seq![SetupActionView::SetProgress((25 * (k + 1)) as u16)] + actions,
            )
        }),
{
    lemma_share(k + 1);
}

/// A task that fails stops the setup, and the user is told the reason.
pub proof fn law_task_fails(k: int, reason: Seq<char>)
    requires
        0 <= k < 4,
    ensures
        forall|state: SetupState|
            state == SetupState::FirstTask(stage_at(k)) || state == SetupState::LaterTask(
                stage_at(k),
            ) ==> (#[trigger] stages::setup_next(
                state,
                SetupEventView::TaskFailed { reason: Some(reason) },
            )) == (
                SetupState::Finished,
                seq![
                    SetupActionView::Notify(
                        NoticeView {
                            message: MessageView::Error("Stage execution failed: "@ + reason),
                            on_lost: OnErrorView::Ignore,
                        },
                    ),
                ],
            ),
        forall|state: SetupState|
            state == SetupState::FirstTask(stage_at(k)) || state == SetupState::LaterTask(
                stage_at(k),
            ) ==> (#[trigger] stages::setup_next(state, SetupEventView::TaskFailed { reason: None }))
                == (
                SetupState::Finished,
                seq![
                    SetupActionView::Notify(
                        NoticeView {
                            message: MessageView::Error(
                                "Stage execution failed: "@ + "Unknown error"@,
                            ),
                            on_lost: OnErrorView::Ignore,
                        },
                    ),
                ],
            ),
{
}

/// The setup begins with the first stage where the device is supported, and not at all where it is
/// not.
pub proof fn law_setup_begins()
    ensures
        stages::state_after(Seq::empty()) == SetupState::Start,
        stages::setup_next(SetupState::Start, SetupEventView::Checked { supported: true }) == (
            SetupState::Foreground(SetupStage::ArchFs),
            seq![supported_action(), SetupActionView::RunStage(SetupStage::ArchFs)],
        ),
        stages::setup_next(SetupState::Start, SetupEventView::Checked { supported: false }) == (
            SetupState::Finished,
            seq![SetupActionView::ShowUnsupported],
        ),
{
    let r = stages::setup_next(SetupState::Start, SetupEventView::Checked { supported: true });
    assert(r.1 =~= seq![supported_action(), SetupActionView::RunStage(SetupStage::ArchFs)]);
}

/// The contents of a list of actions are those of each in turn.
pub proof fn law_action_contents(actions: Seq<stages::SetupAction>, i: int)
    ensures
        stages::action_views(actions).len() == actions.len(),
        0 <= i < actions.len() ==> stages::action_views(actions)[i] == actions[i]@,
{
}

/// Every event that fits the state moves the setup on, and any other changes nothing.
pub proof fn law_only_fitting_events_count(state: SetupState, event: SetupEventView)
    ensures
        ({
            let fits = match state {
                SetupState::Start => event is Checked,
                SetupState::Foreground(_) | SetupState::Background(_) => event is StageDone
                    || event is TaskStarted,
                SetupState::FirstTask(_) | SetupState::LaterTask(_) => event is TaskJoined
                    || event is TaskFailed,
                SetupState::Finished => false,
            };
            let (next, actions) = stages::setup_next(state, event);
            &&& fits ==> next != state && actions.len() > 0
            &&& !fits ==> next == state && actions.len() == 0
        }),
{
}

/// The stages run and the progress set by two lists of actions in a row.
proof fn lemma_append(a: Seq<SetupActionView>, b: Seq<SetupActionView>)
    ensures
        stages::stages_run(a + b) == stages::stages_run(a) + stages::stages_run(b),
        last_progress(a + b) == (match last_progress(b) {
            Some(p) => Some(p),
            None => last_progress(a),
        }),
    decreases b.len(),
{
    if b.len() == 0 {
        assert(a + b =~= a);
        assert(stages::stages_run(a) + stages::stages_run(b) =~= stages::stages_run(a));
    } else {
        lemma_append(a, b.drop_last());
        assert((a + b).drop_last() =~= a + b.drop_last());
        assert(stages::stages_run(a + b) =~= stages::stages_run(a) + stages::stages_run(b));
    }
}

/// The state, the stages run and the progress after the first stages had their turn.
spec fn as_reported(had_task: Seq<bool>) -> bool {
    let events = reports(had_task);
    let actions = stages::actions_of(events);
    let k = had_task.len() as int;
    &&& stages::state_after(events) == if k == 4 {
        SetupState::Finished
    } else if had_task.contains(true) {
        SetupState::Background(stage_at(k))
    } else {
        SetupState::Foreground(stage_at(k))
    }
    &&& stages::stages_run(actions) == Seq::new(
        if k < 4 {
            (k + 1) as nat
        } else {
            4
        },
        |i: int| stage_at(i),
    )
    &&& last_progress(actions) == if had_task.contains(true) {
        Some((25 * k) as u16)
    } else {
        None
    }
}

/// One more stage without a task.
proof fn lemma_reported_done(had_task: Seq<bool>)
    requires
        had_task.len() < 4,
        as_reported(had_task),
    ensures
        as_reported(had_task.push(false)),
{
    let events = reports(had_task);
    let more = had_task.push(false);
    let k = had_task.len() as int;
    let state = stages::state_after(events);
    let (next, actions) = stages::setup_next(state, SetupEventView::StageDone);
    assert(more.drop_last() =~= had_task);
    assert(more.contains(true) == had_task.contains(true)) by {
        if had_task.contains(true) {
            let i = choose|i: int| 0 <= i < had_task.len() && had_task[i];
            assert(more[i]);
        }
    }
    lemma_push(events, SetupEventView::StageDone);
    lemma_append(stages::actions_of(events), actions);
    law_passed_over_in_foreground(k);
    law_passed_over_in_background(k);
    reveal_with_fuel(stages::stages_run, 3);
    reveal_with_fuel(last_progress, 3);
    assert(stages::stages_run(stages::actions_of(reports(more))) =~= Seq::new(
        if k + 1 < 4 {
            (k + 2) as nat
        } else {
            4
        },
        |i: int| stage_at(i),
    ));
}

/// What a stage with a task leads to, from its start to its end.
proof fn lemma_task_effect(k: int, state: SetupState)
    requires
        0 <= k < 4,
        state == SetupState::Foreground(stage_at(k)) || state == SetupState::Background(
            stage_at(k),
        ),
    ensures
        ({
            let (mid, first) = stages::setup_next(state, SetupEventView::TaskStarted);
            let (next, second) = stages::setup_next(mid, SetupEventView::TaskJoined);
            &&& next == if k < 3 {
                SetupState::Background(stage_at(k + 1))
            } else {
                SetupState::Finished
            }
            &&& stages::stages_run(first) == Seq::<SetupStage>::empty()
            &&& stages::stages_run(second) == if k < 3 {
                seq![stage_at(k + 1)]
            } else {
                Seq::empty()
            }
            &&& last_progress(second) == Some((25 * (k + 1)) as u16)
        }),
{
    law_task_is_waited_for(k);
    law_task_ends(k);
    law_passed_over_in_background(k);
    reveal_with_fuel(stages::stages_run, 4);
    reveal_with_fuel(last_progress, 4);
    let (mid, first) = stages::setup_next(state, SetupEventView::TaskStarted);
    let (next, second) = stages::setup_next(mid, SetupEventView::TaskJoined);
    assert(stages::stages_run(first) =~= Seq::<SetupStage>::empty());
    if k < 3 {
        assert(stages::stages_run(second) =~= seq![stage_at(k + 1)]);
    } else {
        assert(stages::stages_run(second) =~= Seq::<SetupStage>::empty());
    }
}

/// One more stage with a task.
proof fn lemma_reported_task(had_task: Seq<bool>)
    requires
        had_task.len() < 4,
        as_reported(had_task),
    ensures
        as_reported(had_task.push(true)),
{
    let events = reports(had_task);
    let more = had_task.push(true);
    let k = had_task.len() as int;
    let state = stages::state_after(events);
    let (mid, first) = stages::setup_next(state, SetupEventView::TaskStarted);
    let (next, second) = stages::setup_next(mid, SetupEventView::TaskJoined);
    let started = events.push(SetupEventView::TaskStarted);
    assert(more.drop_last() =~= had_task);
    assert(more[k]);
    lemma_push(events, SetupEventView::TaskStarted);
    lemma_push(started, SetupEventView::TaskJoined);
    lemma_append(stages::actions_of(events), first);
    lemma_append(stages::actions_of(started), second);
    lemma_task_effect(k, state);
    assert(stages::stages_run(stages::actions_of(reports(more))) =~= Seq::new(
        if k + 1 < 4 {
            (k + 2) as nat
        } else {
            4
        },
        |i: int| stage_at(i),
    ));
}

/// After any number of stages had their turn.
proof fn lemma_reported(had_task: Seq<bool>)
    requires
        had_task.len() <= 4,
    ensures
        as_reported(had_task),
    decreases had_task.len(),
{
    if had_task.len() == 0 {
        law_setup_begins();
        let none = Seq::<SetupEventView>::empty();
        let events = reports(had_task);
        assert(events =~= none.push(SetupEventView::Checked { supported: true }));
        lemma_push(none, SetupEventView::Checked { supported: true });
        reveal_with_fuel(stages::stages_run, 3);
        reveal_with_fuel(last_progress, 3);
        assert(stages::actions_of(events) =~= seq![
            supported_action(),
            SetupActionView::RunStage(SetupStage::ArchFs),
        ]);
        assert(stages::stages_run(stages::actions_of(events)) =~= Seq::new(
            1,
            |i: int| stage_at(i),
        ));
    } else {
        let before = had_task.drop_last();
        lemma_reported(before);
        if had_task.last() {
            assert(before.push(true) =~= had_task);
            lemma_reported_task(before);
        } else {
            assert(before.push(false) =~= had_task);
            lemma_reported_done(before);
        }
    }
}

/// Whichever stages have something to do, the setup gets through all of them: each is run once, in
/// order, and when `n` of them had their turn the progress that the user sees is `25 * n` percent.
pub proof fn law_setup_gets_through(had_task: Seq<bool>)
    requires
        had_task.len() <= 4,
    ensures
        ({
            let events = reports(had_task);
            let actions = stages::actions_of(events);
            let n = had_task.len();
            &&& n == 4 <==> stages::state_after(events) is Finished
            &&& n == 4 ==> stages::stages_run(actions) == seq![
                SetupStage::ArchFs,
                SetupStage::LinuxSysdata,
                SetupStage::PatchRootfs,
                SetupStage::FirefoxConfig,
            ]
            &&& n < 4 ==> stages::stages_run(actions).len() == n + 1
            &&& had_task.contains(true) ==> last_progress(actions) == Some((25 * n) as u16)
        }),
{
    lemma_reported(had_task);
    if had_task.len() == 4 {
        assert(stages::stages_run(stages::actions_of(reports(had_task))) =~= seq![
            SetupStage::ArchFs,
            SetupStage::LinuxSysdata,
            SetupStage::PatchRootfs,
            SetupStage::FirefoxConfig,
        ]);
    }
}

/// How a setup in which every stage gets through ends: where all tasks were done before, with the
/// desktop, and nothing else is shown; else with the message that the installation is finished, at
/// 100 percent.
pub proof fn law_setup_ends(had_task: Seq<bool>)
    requires
        had_task.len() == 4,
    ensures
        ({
            let actions = stages::actions_of(reports(had_task));
            &&& had_task.contains(true) ==> actions.last() == finished_action() && last_progress(
                actions,
            ) == Some(100u16)
            &&& !had_task.contains(true) ==> actions.last() == SetupActionView::ShowDesktop
                && last_progress(actions) is None
        }),
{
    lemma_reported(had_task);
    let before = had_task.drop_last();
    lemma_reported(before);
    let events = reports(before);
    let state = stages::state_after(events);
    law_passed_over_in_foreground(3);
    law_passed_over_in_background(3);
    law_task_is_waited_for(3);
    law_task_ends(3);
    if had_task.last() {
        assert(had_task[3]);
        lemma_push(events, SetupEventView::TaskStarted);
        lemma_push(events.push(SetupEventView::TaskStarted), SetupEventView::TaskJoined);
    } else {
        assert(had_task.contains(true) == before.contains(true)) by {
            if had_task.contains(true) {
                let i = choose|i: int| 0 <= i < had_task.len() && had_task[i];
                assert(before[i]);
            }
            if before.contains(true) {
                let i = choose|i: int| 0 <= i < before.len() && before[i];
                assert(had_task[i]);
            }
        }
        lemma_push(events, SetupEventView::StageDone);
    }
}

} // verus!
