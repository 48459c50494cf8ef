//! What launching the desktop is for: from the first command to the outcome, whatever the desktop
//! prints and however it ends.

use crate::launch;
use crate::launch::{LaunchAction, LaunchEvent, LaunchOutcome, LaunchState};
use vstd::prelude::*;

verus! {

/// The actions that the events lead to, one for each.
pub open spec fn actions_of(events: Seq<LaunchEvent>) -> Seq<LaunchAction> {
    Seq::new(events.len(), |i: int| launch::action_at(events, i))
}

/// The lines that a run prints; each is told to hold an ENOSYS error or not.
pub open spec fn printed(lines: Seq<bool>) -> Seq<LaunchEvent> {
    lines.map_values(|b: bool| LaunchEvent::Output { execve_enosys: b })
}

/// The same action again and again.
pub open spec fn waits(n: nat) -> Seq<LaunchAction> {
    Seq::new(n, |i: int| LaunchAction::Wait)
}

/// The start of a launch, up to the end of what the first run prints.
pub open spec fn first_run(lines: Seq<bool>) -> Seq<LaunchEvent> {
    seq![LaunchEvent::Next, LaunchEvent::Next, LaunchEvent::Next] + printed(lines)
}

/// What the start of a launch leads to: old files are removed, the desktop is run and waited for.
pub open spec fn first_actions(lines: Seq<bool>) -> Seq<LaunchAction> {
    seq![LaunchAction::RemoveLock, LaunchAction::RemoveSocket, LaunchAction::RunDesktop] + waits(
        lines.len(),
    )
}

/// A launch that failed with an ENOSYS error and is retried, up to the end of what the second run
/// prints.
pub open spec fn second_run(lines: Seq<bool>, more: Seq<bool>) -> Seq<LaunchEvent> {
    first_run(lines).push(LaunchEvent::Exited { success: false, no_seccomp: false }).push(
        LaunchEvent::Next,
    ) + printed(more)
}

/// What such a launch leads to.
pub open spec fn second_actions(lines: Seq<bool>, more: Seq<bool>) -> Seq<LaunchAction> {
    first_actions(lines).push(LaunchAction::EnableFallback).push(LaunchAction::RunDesktop) + waits(
        more.len(),
    )
}

/// What one more event adds.
proof fn lemma_push(events: Seq<LaunchEvent>, event: LaunchEvent)
    ensures
        launch::state_after(events.push(event)) == launch::launch_next(
            launch::state_after(events),
            event,
        ).0,
        actions_of(events.push(event)) == actions_of(events).push(
            launch::launch_next(launch::state_after(events), event).1,
        ),
{
    let all = events.push(event);
    let n = events.len() as int;
    assert(all.drop_last() =~= events);
    assert(all.take(n) =~= events);
    assert forall|i: int| 0 <= i < n implies launch::action_at(all, i) == launch::action_at(
        events,
        i,
    ) by {
        assert(all.take(i) =~= events.take(i));
    }
    assert(actions_of(all) =~= actions_of(events).push(launch::action_at(all, n)));
}

/// One more printed line.
proof fn lemma_printed(lines: Seq<bool>)
    requires
        lines.len() > 0,
    ensures
        printed(lines) == printed(lines.drop_last()).push(
            LaunchEvent::Output { execve_enosys: lines.last() },
        ),
        lines.contains(true) == (lines.drop_last().contains(true) || lines.last()),
        waits(lines.len()) == waits(lines.drop_last().len()).push(LaunchAction::Wait),
{
    let rest = lines.drop_last();
    assert(printed(lines) =~= printed(rest).push(
        LaunchEvent::Output { execve_enosys: lines.last() },
    ));
    assert(waits(lines.len()) =~= waits(rest.len()).push(LaunchAction::Wait));
    if lines.contains(true) {
        let i = choose|i: int| 0 <= i < lines.len() && lines[i];
        if i < rest.len() {
            assert(rest[i]);
        }
    }
    if rest.contains(true) {
        let i = choose|i: int| 0 <= i < rest.len() && rest[i];
        assert(lines[i]);
    }
    if lines.last() {
        assert(lines[lines.len() - 1]);
    }
}

/// Up to the end of what the first run prints.
proof fn lemma_first_run(lines: Seq<bool>)
    ensures
        launch::state_after(first_run(lines)) == (LaunchState::Running {
            saw_execve_enosys: lines.contains(true),
        }),
        actions_of(first_run(lines)) == first_actions(lines),
    decreases lines.len(),
{
    if lines.len() == 0 {
        let e = Seq::<LaunchEvent>::empty();
        let n1 = e.push(LaunchEvent::Next);
        let n2 = n1.push(LaunchEvent::Next);
        lemma_push(e, LaunchEvent::Next);
        lemma_push(n1, LaunchEvent::Next);
        lemma_push(n2, LaunchEvent::Next);
        assert(first_run(lines) =~= n2.push(LaunchEvent::Next));
        assert(actions_of(first_run(lines)) =~= first_actions(lines));
    } else {
        let rest = lines.drop_last();
        lemma_first_run(rest);
        lemma_printed(lines);
        let event = LaunchEvent::Output { execve_enosys: lines.last() };
        assert(first_run(lines) =~= first_run(rest).push(event));
        lemma_push(first_run(rest), event);
        assert(first_actions(rest).push(LaunchAction::Wait) =~= first_actions(lines));
    }
}

/// However the first run of the desktop ends: with success, the launch has succeeded; where it could
/// not be run, that is the outcome; and where it fails, it is retried without seccomp if, and only
/// if, one of the lines that it printed told of an ENOSYS error and seccomp was not off already.
pub proof fn law_first_run(lines: Seq<bool>, success: bool, no_seccomp: bool)
    ensures
        actions_of(first_run(lines).push(LaunchEvent::Exited { success, no_seccomp }))
            == first_actions(lines).push(
            if success {
                LaunchAction::Finish(LaunchOutcome::Succeeded)
            } else if (exists|i: int| 0 <= i < lines.len() && #[trigger] lines[i]) && !no_seccomp {
                LaunchAction::EnableFallback
            } else {
                LaunchAction::Finish(LaunchOutcome::Exited)
            },
        ),
        actions_of(first_run(lines).push(LaunchEvent::Failed)) == first_actions(lines).push(
            LaunchAction::Finish(LaunchOutcome::NotRun),
        ),
{
    lemma_first_run(lines);
    lemma_push(first_run(lines), LaunchEvent::Exited { success, no_seccomp });
    lemma_push(first_run(lines), LaunchEvent::Failed);
    if exists|i: int| 0 <= i < lines.len() && #[trigger] lines[i] {
        let i = choose|i: int| 0 <= i < lines.len() && #[trigger] lines[i];
        assert(lines.contains(true));
    }
}

/// Up to the end of what the second run prints.
proof fn lemma_second_run(lines: Seq<bool>, more: Seq<bool>)
    requires
        lines.contains(true),
    ensures
        launch::state_after(second_run(lines, more)) == LaunchState::Retrying,
        actions_of(second_run(lines, more)) == second_actions(lines, more),
    decreases more.len(),
{
    if more.len() == 0 {
        let exit = LaunchEvent::Exited { success: false, no_seccomp: false };
        lemma_first_run(lines);
        lemma_push(first_run(lines), exit);
        lemma_push(first_run(lines).push(exit), LaunchEvent::Next);
        assert(second_run(lines, more) =~= first_run(lines).push(exit).push(LaunchEvent::Next));
        assert(actions_of(second_run(lines, more)) =~= second_actions(lines, more));
    } else {
        let rest = more.drop_last();
        lemma_second_run(lines, rest);
        lemma_printed(more);
        let event = LaunchEvent::Output { execve_enosys: more.last() };
        assert(second_run(lines, more) =~= second_run(lines, rest).push(event));
        lemma_push(second_run(lines, rest), event);
        assert(second_actions(lines, rest).push(LaunchAction::Wait) =~= second_actions(
            lines,
            more,
        ));
    }
}

/// A launch that failed with an ENOSYS error is retried once, and however the second run ends, that
/// is the outcome.
pub proof fn law_second_run(
    lines: Seq<bool>,
    i: int,
    more: Seq<bool>,
    success: bool,
    no_seccomp: bool,
)
    requires
        0 <= i < lines.len(),
        lines[i],
    ensures
        actions_of(second_run(lines, more).push(LaunchEvent::Exited { success, no_seccomp }))
            == second_actions(lines, more).push(
            LaunchAction::Finish(
                if success {
                    LaunchOutcome::RetrySucceeded
                } else {
                    LaunchOutcome::RetryExited
                },
            ),
        ),
        actions_of(second_run(lines, more).push(LaunchEvent::Failed)) == second_actions(
            lines,
            more,
        ).push(LaunchAction::Finish(LaunchOutcome::RetryNotRun)),
{
    assert(lines.contains(true));
    lemma_second_run(lines, more);
    lemma_push(second_run(lines, more), LaunchEvent::Exited { success, no_seccomp });
    lemma_push(second_run(lines, more), LaunchEvent::Failed);
}

/// An ENOSYS error of the first run is not forgotten.
proof fn lemma_enosys_kept(events: Seq<LaunchEvent>, i: int)
    requires
        launch::is_enosys(events, i),
    ensures
        match launch::state_after(events) {
            LaunchState::Running { saw_execve_enosys } => saw_execve_enosys,
            LaunchState::EnablingFallback | LaunchState::Retrying | LaunchState::Finished => true,
            _ => false,
        },
    decreases events.len(),
{
    let before = events.drop_last();
    if i < before.len() {
        assert(before.take(i) =~= events.take(i));
        lemma_enosys_kept(before, i);
    } else {
        assert(events.take(i) =~= before);
    }
}

/// Whatever else happens, where a line of the first run told of an ENOSYS error and that run then
/// fails with seccomp on, the fallback is enabled, and next the desktop is run once more.
pub proof fn law_enosys_is_retried(events: Seq<LaunchEvent>, i: int, n: int)
    requires
        0 <= i < n < events.len(),
        launch::is_enosys(events, i),
        launch::state_after(events.take(n)) is Running,
        events[n] == (LaunchEvent::Exited { success: false, no_seccomp: false }),
    ensures
        launch::action_at(events, n) == LaunchAction::EnableFallback,
        n + 1 < events.len() && events[n + 1] == LaunchEvent::Next ==> launch::action_at(
            events,
            n + 1,
        ) == LaunchAction::RunDesktop,
{
    let before = events.take(n);
    assert(before.take(i) =~= events.take(i));
    assert(launch::is_enosys(before, i));
    lemma_enosys_kept(before, i);
    if n + 1 < events.len() {
        assert(events.take(n + 1).drop_last() =~= before);
    }
}

/// An event that does not fit the state changes nothing.
pub proof fn law_only_fitting_events_count(state: LaunchState, event: LaunchEvent)
    ensures
        ({
            let fits = match state {
                LaunchState::Start
                | LaunchState::RemovingLock
                | LaunchState::RemovingSocket
                | LaunchState::EnablingFallback => event == LaunchEvent::Next,
                LaunchState::Running { .. } => event != LaunchEvent::Next,
                LaunchState::Retrying => event is Exited || event is Failed,
                LaunchState::Finished => false,
            };
            !fits ==> launch::launch_next(state, event) == (state, LaunchAction::Wait)
        }),
{
}

/// The commands that remove what an earlier display left behind; no other action has a command of
/// its own.
pub proof fn law_commands(action: LaunchAction)
    ensures
        launch::action_command(action) == (match action {
            LaunchAction::RemoveLock => Some("rm -f /tmp/.X1-lock"@),
            LaunchAction::RemoveSocket => Some("rm -f /tmp/.X11-unix/X1"@),
            _ => None,
        }),
        launch::FALLBACK_REASON@ == "desktop launch execve ENOSYS"@,
{
}

} // verus!
