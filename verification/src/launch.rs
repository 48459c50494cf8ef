//! Launching the desktop.

use vstd::prelude::*;

verus! {

/// How far the launch is.
#[derive(Debug, Clone, Copy, PartialEq, Eq, Structural)]
pub enum LaunchState {
    Start,
    RemovingLock,
    RemovingSocket,
    /// The desktop runs; `saw_execve_enosys` tells whether its output held an ENOSYS error.
    Running { saw_execve_enosys: bool },
    EnablingFallback,
    Retrying,
    Finished,
}

/// What happened.
#[derive(Debug, Clone, Copy, PartialEq, Eq, Structural)]
pub enum LaunchEvent {
    /// The launch begins, or the last action was performed.
    Next,
    /// The desktop printed a line.
    Output { execve_enosys: bool },
    /// The desktop ended; `no_seccomp` tells whether the fallback is enabled already.
    Exited { success: bool, no_seccomp: bool },
    /// The desktop could not be run.
    Failed,
}

/// How the launch ended.
#[derive(Debug, Clone, Copy, PartialEq, Eq, Structural)]
pub enum LaunchOutcome {
    Succeeded,
    Exited,
    NotRun,
    RetrySucceeded,
    RetryExited,
    RetryNotRun,
}

/// What to do next.
#[derive(Debug, Clone, Copy, PartialEq, Eq, Structural)]
pub enum LaunchAction {
    /// Remove the lock file of the display.
    RemoveLock,
    /// Remove the socket of the display.
    RemoveSocket,
    /// Run the launch command as the user.
    RunDesktop,
    /// Wait for the next event.
    Wait,
    /// Run without seccomp from now on, for the reason `FALLBACK_REASON`.
    EnableFallback,
    /// Stop.
    Finish(LaunchOutcome),
}

/// Why the launch enables the fallback.
pub const FALLBACK_REASON: &'static str = "desktop launch execve ENOSYS";

/// The next state and action. An event that the state does not expect changes nothing.
pub open spec fn launch_next(state: LaunchState, event: LaunchEvent) -> (
    LaunchState,
    LaunchAction,
) {
    match (state, event) {
        (LaunchState::Start, LaunchEvent::Next) => (
            LaunchState::RemovingLock,
            LaunchAction::RemoveLock,
        ),
        (LaunchState::RemovingLock, LaunchEvent::Next) => (
            LaunchState::RemovingSocket,
            LaunchAction::RemoveSocket,
        ),
        (LaunchState::RemovingSocket, LaunchEvent::Next) => (
            LaunchState::Running { saw_execve_enosys: false },
            LaunchAction::RunDesktop,
        ),
        (LaunchState::Running { saw_execve_enosys }, LaunchEvent::Output { execve_enosys }) => (
            LaunchState::Running { saw_execve_enosys: saw_execve_enosys || execve_enosys },
            LaunchAction::Wait,
        ),
        (
            LaunchState::Running { saw_execve_enosys },
            LaunchEvent::Exited { success, no_seccomp },
        ) => if success {
            (LaunchState::Finished, LaunchAction::Finish(LaunchOutcome::Succeeded))
        } else if saw_execve_enosys && !no_seccomp {
            (LaunchState::EnablingFallback, LaunchAction::EnableFallback)
        } else {
            (LaunchState::Finished, LaunchAction::Finish(LaunchOutcome::Exited))
        },
        (LaunchState::Running { .. }, LaunchEvent::Failed) => (
            LaunchState::Finished,
            LaunchAction::Finish(LaunchOutcome::NotRun),
        ),
        (LaunchState::EnablingFallback, LaunchEvent::Next) => (
            LaunchState::Retrying,
            LaunchAction::RunDesktop,
        ),
        (LaunchState::Retrying, LaunchEvent::Exited { success, .. }) => (
            LaunchState::Finished,
            LaunchAction::Finish(
                if success {
                    LaunchOutcome::RetrySucceeded
                } else {
                    LaunchOutcome::RetryExited
                },
            ),
        ),
        (LaunchState::Retrying, LaunchEvent::Failed) => (
            LaunchState::Finished,
            LaunchAction::Finish(LaunchOutcome::RetryNotRun),
        ),
        _ => (state, LaunchAction::Wait),
    }
}

/// Decides how the launch goes on. The files that an earlier display left behind are removed, and
/// the desktop is run. Where it fails with an ENOSYS error in its output, and the fallback is not
/// enabled yet, the fallback is enabled and the desktop is run once more.
pub fn launch(state: LaunchState, event: LaunchEvent) -> (r: (LaunchState, LaunchAction))
    ensures
        r == launch_next(state, event),
{
    match state {
        LaunchState::Start => match event {
            LaunchEvent::Next => (LaunchState::RemovingLock, LaunchAction::RemoveLock),
            _ => (state, LaunchAction::Wait),
        },
        LaunchState::RemovingLock => match event {
            LaunchEvent::Next => (LaunchState::RemovingSocket, LaunchAction::RemoveSocket),
            _ => (state, LaunchAction::Wait),
        },
        LaunchState::RemovingSocket => match event {
            LaunchEvent::Next => (
                LaunchState::Running { saw_execve_enosys: false },
                LaunchAction::RunDesktop,
            ),
            _ => (state, LaunchAction::Wait),
        },
        LaunchState::Running { saw_execve_enosys } => match event {
            LaunchEvent::Output { execve_enosys } => (
                LaunchState::Running { saw_execve_enosys: saw_execve_enosys || execve_enosys },
                LaunchAction::Wait,
            ),
            LaunchEvent::Exited { success, no_seccomp } => {
                if success {
                    (LaunchState::Finished, LaunchAction::Finish(LaunchOutcome::Succeeded))
                } else if saw_execve_enosys && !no_seccomp {
                    (LaunchState::EnablingFallback, LaunchAction::EnableFallback)
                } else {
                    (LaunchState::Finished, LaunchAction::Finish(LaunchOutcome::Exited))
                }
            },
            LaunchEvent::Failed => (
                LaunchState::Finished,
                LaunchAction::Finish(LaunchOutcome::NotRun),
            ),
            LaunchEvent::Next => (state, LaunchAction::Wait),
        },
        LaunchState::EnablingFallback => match event {
            LaunchEvent::Next => (LaunchState::Retrying, LaunchAction::RunDesktop),
            _ => (state, LaunchAction::Wait),
        },
        LaunchState::Retrying => match event {
            LaunchEvent::Exited { success, .. } => {
                let outcome = if success {
                    LaunchOutcome::RetrySucceeded
                } else {
                    LaunchOutcome::RetryExited
                };
                (LaunchState::Finished, LaunchAction::Finish(outcome))
            },
            LaunchEvent::Failed => (
                LaunchState::Finished,
                LaunchAction::Finish(LaunchOutcome::RetryNotRun),
            ),
            _ => (state, LaunchAction::Wait),
        },
        LaunchState::Finished => (state, LaunchAction::Wait),
    }
}

/// The command that an action runs in the container.
pub open spec fn action_command(action: LaunchAction) -> Option<Seq<char>> {
    match action {
        LaunchAction::RemoveLock => Some("rm -f /tmp/.X1-lock"@),
        LaunchAction::RemoveSocket => Some("rm -f /tmp/.X11-unix/X1"@),
        _ => None,
    }
}

/// The command that an action runs in the container. The launch command itself comes from the
/// configuration.
pub fn container_command(action: LaunchAction) -> (r: Option<&'static str>)
    ensures
        match r {
            Some(command) => action_command(action) == Some(command@),
            None => action_command(action) is None,
        },
{
    match action {
        LaunchAction::RemoveLock => Some("rm -f /tmp/.X1-lock"),
        LaunchAction::RemoveSocket => Some("rm -f /tmp/.X11-unix/X1"),
        _ => None,
    }
}

/// The state after these events.
pub open spec fn state_after(events: Seq<LaunchEvent>) -> LaunchState
    decreases events.len(),
{
    if events.len() == 0 {
        LaunchState::Start
    } else {
        launch_next(state_after(events.drop_last()), events.last()).0
    }
}

/// The action that the event `i` leads to.
pub open spec fn action_at(events: Seq<LaunchEvent>, i: int) -> LaunchAction {
    launch_next(state_after(events.take(i)), events[i]).1
}

/// How often an action was taken.
pub open spec fn count(events: Seq<LaunchEvent>, action: LaunchAction) -> nat
    decreases events.len(),
{
    if events.len() == 0 {
        0
    } else {
        count(events.drop_last(), action) + if launch_next(
            state_after(events.drop_last()),
            events.last(),
        ).1 == action {
            1nat
        } else {
            0nat
        }
    }
}

/// The event `i` is a line of the first run of the desktop, and tells of an ENOSYS error.
pub open spec fn is_enosys(events: Seq<LaunchEvent>, i: int) -> bool {
    &&& 0 <= i < events.len()
    &&& events[i] == (LaunchEvent::Output { execve_enosys: true })
    &&& state_after(events.take(i)) is Running
}

/// What the state tells of the removal of old files.
proof fn lemma_cleanup(events: Seq<LaunchEvent>)
    ensures
        ({
            let locks = count(events, LaunchAction::RemoveLock);
            let sockets = count(events, LaunchAction::RemoveSocket);
            match state_after(events) {
                LaunchState::Start => locks == 0 && sockets == 0,
                LaunchState::RemovingLock => locks == 1 && sockets == 0,
                _ => locks == 1 && sockets == 1,
            }
        }),
    decreases events.len(),
{
    if events.len() > 0 {
        lemma_cleanup(events.drop_last());
    }
}

/// What the state tells of the events so far.
proof fn lemma_history(events: Seq<LaunchEvent>)
    ensures
        ({
            let runs = count(events, LaunchAction::RunDesktop);
            let fallbacks = count(events, LaunchAction::EnableFallback);
            match state_after(events) {
                LaunchState::Start
                | LaunchState::RemovingLock
                | LaunchState::RemovingSocket => runs == 0 && fallbacks == 0,
                LaunchState::Running { saw_execve_enosys } => runs == 1 && fallbacks == 0 && (
                saw_execve_enosys ==> exists|i: int| #[trigger] is_enosys(events, i)),
                LaunchState::EnablingFallback => runs == 1 && fallbacks == 1,
                LaunchState::Retrying => runs == 2 && fallbacks == 1,
                LaunchState::Finished => fallbacks + 1 == runs && 1 <= runs <= 2,
            }
        }),
    decreases events.len(),
{
    if events.len() > 0 {
        let before = events.drop_last();
        lemma_history(before);
        if let LaunchState::Running { saw_execve_enosys } = state_after(events) {
            if saw_execve_enosys {
                let n = before.len() as int;
                if events.last() == (LaunchEvent::Output { execve_enosys: true }) {
                    assert(events.take(n) =~= before);
                    assert(is_enosys(events, n));
                } else {
                    let i = choose|i: int| #[trigger] is_enosys(before, i);
                    assert(events.take(i) =~= before.take(i));
                    assert(is_enosys(events, i));
                }
            }
        }
    }
}

/// Whatever happens, the desktop is run at most twice, and a second time only where the fallback
/// was enabled.
pub proof fn law_one_retry(events: Seq<LaunchEvent>)
    ensures
        count(events, LaunchAction::RunDesktop) <= 2,
        count(events, LaunchAction::EnableFallback) <= 1,
        count(events, LaunchAction::RunDesktop) == 2 ==> count(events, LaunchAction::EnableFallback)
            == 1,
{
    lemma_history(events);
}

/// When the desktop is run, the lock file and the socket of the display have been removed, once
/// each.
pub proof fn law_cleanup_first(events: Seq<LaunchEvent>, n: int)
    requires
        0 <= n < events.len(),
        action_at(events, n) == LaunchAction::RunDesktop,
    ensures
        count(events.take(n), LaunchAction::RemoveLock) == 1,
        count(events.take(n), LaunchAction::RemoveSocket) == 1,
{
    lemma_cleanup(events.take(n));
}

/// The fallback is enabled only when the first run of the desktop has failed, its output has held
/// an ENOSYS error, and the fallback was not enabled before.
pub proof fn law_fallback_only_for_enosys(events: Seq<LaunchEvent>, n: int)
    requires
        0 <= n < events.len(),
        action_at(events, n) == LaunchAction::EnableFallback,
    ensures
        events[n] == (LaunchEvent::Exited { success: false, no_seccomp: false }),
        exists|i: int| i < n && #[trigger] is_enosys(events, i),
{
    let before = events.take(n);
    lemma_history(before);
    let i = choose|i: int| #[trigger] is_enosys(before, i);
    assert(before.take(i) =~= events.take(i));
    assert(is_enosys(events, i));
}

/// Once the launch has finished nothing more is done.
pub proof fn law_finished_stays(events: Seq<LaunchEvent>, n: int, m: int)
    requires
        0 <= n <= m < events.len(),
        state_after(events.take(n)) == LaunchState::Finished,
    ensures
        state_after(events.take(m)) == LaunchState::Finished,
        action_at(events, m) == LaunchAction::Wait,
    decreases m - n,
{
    if n < m {
        law_finished_stays(events, n, m - 1);
        assert(events.take(m).drop_last() =~= events.take(m - 1));
    }
}

} // verus!
