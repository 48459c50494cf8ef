//! Installing the packages of the desktop.

use crate::decimal;
use crate::message;
use crate::message::{Notice, NoticeView};
use vstd::prelude::*;

verus! {

/// How often the installation is tried.
pub const MAX_INSTALL_ATTEMPTS: u32 = 10;

/// How far the installation is.
#[derive(Debug, Clone, Copy, PartialEq, Eq, Structural)]
pub enum InstallState {
    /// Nobody knows yet whether everything is installed.
    Start,
    /// The install command runs; `saw_execve_enosys` tells whether its output held an ENOSYS
    /// error.
    Installing { attempt: u32, saw_execve_enosys: bool },
    /// The install command has ended.
    Checking { attempt: u32 },
    Installed,
    GivenUp,
}

/// What happened.
#[derive(Debug)]
pub enum InstallEvent {
    /// The check command told whether everything is installed.
    Checked { installed: bool },
    /// The install command printed a line.
    Output { line: String, execve_enosys: bool },
    /// The install command ended; `no_seccomp` tells whether the fallback is enabled already.
    Exited { success: bool, no_seccomp: bool },
}

/// The contents of an `InstallEvent`.
pub enum InstallEventView {
    Checked { installed: bool },
    Output { line: Seq<char>, execve_enosys: bool },
    Exited { success: bool, no_seccomp: bool },
}

impl View for InstallEvent {
    type V = InstallEventView;

    open spec fn view(&self) -> InstallEventView {
        match self {
            InstallEvent::Checked { installed } => InstallEventView::Checked {
                installed: *installed,
            },
            InstallEvent::Output { line, execve_enosys } => InstallEventView::Output {
                line: line@,
                execve_enosys: *execve_enosys,
            },
            InstallEvent::Exited { success, no_seccomp } => InstallEventView::Exited {
                success: *success,
                no_seccomp: *no_seccomp,
            },
        }
    }
}

/// What to do next.
#[derive(Debug)]
pub enum InstallAction {
    /// Send a message to the user.
    Notify(Notice),
    /// Run a command in the container; the stage stops when it fails.
    Exec(String),
    /// Run a command in the container, and report its output and how it ended.
    Run(String),
    /// Run without seccomp from now on, for this reason.
    EnableFallback(String),
    /// Run the check command.
    Check,
    /// Stop: everything is installed.
    Finish,
    /// Stop the stage with this message.
    Abort(String),
}

/// The contents of an `InstallAction`.
pub enum InstallActionView {
    Notify(NoticeView),
    Exec(Seq<char>),
    Run(Seq<char>),
    EnableFallback(Seq<char>),
    Check,
    Finish,
    Abort(Seq<char>),
}

impl View for InstallAction {
    type V = InstallActionView;

    open spec fn view(&self) -> InstallActionView {
        match self {
            InstallAction::Notify(notice) => InstallActionView::Notify(notice@),
            InstallAction::Exec(command) => InstallActionView::Exec(command@),
            InstallAction::Run(command) => InstallActionView::Run(command@),
            InstallAction::EnableFallback(reason) => InstallActionView::EnableFallback(reason@),
            InstallAction::Check => InstallActionView::Check,
            InstallAction::Finish => InstallActionView::Finish,
            InstallAction::Abort(text) => InstallActionView::Abort(text@),
        }
    }
}

/// The contents of a list of actions.
pub open spec fn action_views(actions: Seq<InstallAction>) -> Seq<InstallActionView> {
    actions.map_values(|a: InstallAction| a@)
}

/// What the user is told at the start of an attempt.
pub open spec fn attempt_text(attempt: int) -> Seq<char> {
    "Installing desktop dependencies (attempt "@ + decimal::decimal(attempt) + "/"@
        + decimal::decimal(MAX_INSTALL_ATTEMPTS as int) + ")..."@
}

/// What the user is told after the last attempt.
pub open spec fn failure_text() -> Seq<char> {
    "Failed to install desktop dependencies after "@ + decimal::decimal(
        MAX_INSTALL_ATTEMPTS as int,
    ) + " attempts. Check network/repo health and package availability."@
}

/// The command of an attempt: the install command, with its errors among its output.
pub open spec fn install_command(install: Seq<char>) -> Seq<char> {
    "("@ + install + ") 2>&1"@
}

/// What an attempt begins with.
pub open spec fn attempt_actions(attempt: int, install: Seq<char>) -> Seq<InstallActionView> {
    seq![
        InstallActionView::Notify(
            message::progress_or(
                attempt_text(attempt),
                "Failed to send dependency install progress"@,
            ),
        ),
        InstallActionView::Exec("rm -f /var/lib/pacman/db.lck"@),
        InstallActionView::Run(install_command(install)),
    ]
}

/// What enables the fallback.
pub open spec fn fallback_actions() -> Seq<InstallActionView> {
    seq![
        InstallActionView::EnableFallback("dependency install execve ENOSYS"@),
        InstallActionView::Notify(
            message::progress(
                "Detected device PRoot ENOSYS issue, enabling compatibility fallback..."@,
            ),
        ),
    ]
}

/// What follows a check that found something missing after `done` attempts.
pub open spec fn after_failed_check(done: u32, install: Seq<char>) -> (
    InstallState,
    Seq<InstallActionView>,
) {
    if done < MAX_INSTALL_ATTEMPTS {
        (
            InstallState::Installing { attempt: (done + 1) as u32, saw_execve_enosys: false },
            attempt_actions(done + 1, install),
        )
    } else {
        (
            InstallState::GivenUp,
            seq![
                InstallActionView::Notify(message::error(failure_text())),
                InstallActionView::Abort(failure_text()),
            ],
        )
    }
}

/// The next state and actions. An event that the state does not expect changes nothing.
pub open spec fn install_next(state: InstallState, event: InstallEventView, install: Seq<char>) -> (
    InstallState,
    Seq<InstallActionView>,
) {
    match (state, event) {
        (InstallState::Start, InstallEventView::Checked { installed }) => if installed {
            (InstallState::Installed, seq![InstallActionView::Finish])
        } else {
            after_failed_check(0, install)
        },
        (
            InstallState::Installing { attempt, saw_execve_enosys },
            InstallEventView::Output { line, execve_enosys },
        ) => (
            InstallState::Installing {
                attempt,
                saw_execve_enosys: saw_execve_enosys || execve_enosys,
            },
            seq![
                InstallActionView::Notify(
                    message::progress_or(line, "Failed to send log message"@),
                ),
            ],
        ),
        (
            InstallState::Installing { attempt, saw_execve_enosys },
            InstallEventView::Exited { success, no_seccomp },
        ) => (
            InstallState::Checking { attempt },
            if !success && saw_execve_enosys && !no_seccomp {
                fallback_actions().push(InstallActionView::Check)
            } else {
                seq![InstallActionView::Check]
            },
        ),
        (InstallState::Checking { attempt }, InstallEventView::Checked { installed }) => if installed {
            (InstallState::Installed, seq![InstallActionView::Finish])
        } else {
            after_failed_check(attempt, install)
        },
        _ => (state, Seq::empty()),
    }
}

/// Appends an action.
fn push_action(actions: &mut Vec<InstallAction>, action: InstallAction)
    ensures
        action_views(final(actions)@) == action_views(old(actions)@).push(action@),
{
    actions.push(action);
    assert(action_views(actions@) =~= action_views(old(actions)@).push(action@));
}

/// What the user is told at the start of an attempt.
fn attempt_message(attempt: u32) -> (r: String)
    ensures
        r@ == attempt_text(attempt as int),
{
    let mut r = String::new();
    r.append("Installing desktop dependencies (attempt ");
    decimal::push_unsigned(&mut r, attempt as u64);
    r.append("/");
    decimal::push_unsigned(&mut r, MAX_INSTALL_ATTEMPTS as u64);
    r.append(")...");
    assert(r@ =~= attempt_text(attempt as int));
    r
}

/// What the user is told after the last attempt.
fn failure_message() -> (r: String)
    ensures
        r@ == failure_text(),
{
    let mut r = String::new();
    r.append("Failed to install desktop dependencies after ");
    decimal::push_unsigned(&mut r, MAX_INSTALL_ATTEMPTS as u64);
    r.append(" attempts. Check network/repo health and package availability.");
    assert(r@ =~= failure_text());
    r
}

/// What follows a check that found something missing.
fn go_on(done: u32, install: &str) -> (r: (InstallState, Vec<InstallAction>))
    ensures
        (r.0, action_views(r.1@)) == after_failed_check(done, install@),
{
    let mut actions: Vec<InstallAction> = Vec::new();
    assert(action_views(actions@) =~= Seq::<InstallActionView>::empty());
    if done < MAX_INSTALL_ATTEMPTS {
        let attempt: u32 = done + 1;
        let mut command = String::new();
        command.append("(");
        command.append(install);
        command.append(") 2>&1");
        assert(command@ =~= install_command(install@));
        push_action(
            &mut actions,
            InstallAction::Notify(
                message::emit_progress_or(
                    attempt_message(attempt),
                    "Failed to send dependency install progress",
                ),
            ),
        );
        push_action(
            &mut actions,
            InstallAction::Exec("rm -f /var/lib/pacman/db.lck".to_owned()),
        );
        push_action(&mut actions, InstallAction::Run(command));
        assert(action_views(actions@) =~= attempt_actions(attempt as int, install@));
        (InstallState::Installing { attempt, saw_execve_enosys: false }, actions)
    } else {
        push_action(
            &mut actions,
            InstallAction::Notify(message::emit_setup_error(failure_message())),
        );
        push_action(&mut actions, InstallAction::Abort(failure_message()));
        assert(action_views(actions@) =~= after_failed_check(done, install@).1);
        (InstallState::GivenUp, actions)
    }
}

/// Decides how the installation goes on. The install command is run until the check succeeds, but
/// not more often than `MAX_INSTALL_ATTEMPTS`. Where it fails with an ENOSYS error in its output,
/// and the fallback is not enabled yet, the fallback is enabled.
pub fn install_dependencies(state: InstallState, event: InstallEvent, install: &str) -> (r: (
    InstallState,
    Vec<InstallAction>,
))
    ensures
        (r.0, action_views(r.1@)) == install_next(state, event@, install@),
{
    let mut actions: Vec<InstallAction> = Vec::new();
    assert(action_views(actions@) =~= Seq::<InstallActionView>::empty());
    match event {
        InstallEvent::Checked { installed } => {
            let done: u32 = match state {
                InstallState::Start => 0,
                InstallState::Checking { attempt } => attempt,
                _ => {
                    return (state, actions);
                },
            };
            if installed {
                push_action(&mut actions, InstallAction::Finish);
                assert(action_views(actions@) =~= seq![InstallActionView::Finish]);
                (InstallState::Installed, actions)
            } else {
                go_on(done, install)
            }
        },
        InstallEvent::Output { line, execve_enosys } => match state {
            InstallState::Installing { attempt, saw_execve_enosys } => {
                push_action(
                    &mut actions,
                    InstallAction::Notify(
                        message::emit_progress_or(line, "Failed to send log message"),
                    ),
                );
                assert(action_views(actions@) =~= install_next(state, event@, install@).1);
                (
                    InstallState::Installing {
                        attempt,
                        saw_execve_enosys: saw_execve_enosys || execve_enosys,
                    },
                    actions,
                )
            },
            _ => (state, actions),
        },
        InstallEvent::Exited { success, no_seccomp } => match state {
            InstallState::Installing { attempt, saw_execve_enosys } => {
                if !success && saw_execve_enosys && !no_seccomp {
                    push_action(
                        &mut actions,
                        InstallAction::EnableFallback(
                            "dependency install execve ENOSYS".to_owned(),
                        ),
                    );
                    push_action(
                        &mut actions,
                        InstallAction::Notify(
                            message::emit_progress(
                                "Detected device PRoot ENOSYS issue, enabling compatibility fallback...".to_owned(),
                            ),
                        ),
                    );
                }
                push_action(&mut actions, InstallAction::Check);
                assert(action_views(actions@) =~= install_next(state, event@, install@).1);
                (InstallState::Checking { attempt }, actions)
            },
            _ => (state, actions),
        },
    }
}

/// The state after these events.
pub open spec fn state_after(events: Seq<InstallEventView>, install: Seq<char>) -> InstallState
    decreases events.len(),
{
    if events.len() == 0 {
        InstallState::Start
    } else {
        install_next(state_after(events.drop_last(), install), events.last(), install).0
    }
}

/// All actions that the events lead to.
pub open spec fn actions_after(events: Seq<InstallEventView>, install: Seq<char>) -> Seq<
    InstallActionView,
>
    decreases events.len(),
{
    if events.len() == 0 {
        Seq::empty()
    } else {
        actions_after(events.drop_last(), install) + install_next(
            state_after(events.drop_last(), install),
            events.last(),
            install,
        ).1
    }
}

/// How often the install command was run.
pub open spec fn runs(actions: Seq<InstallActionView>) -> nat
    decreases actions.len(),
{
    if actions.len() == 0 {
        0
    } else {
        runs(actions.drop_last()) + if actions.last() is Run {
            1nat
        } else {
            0nat
        }
    }
}

/// The install commands run by two lists of actions in a row.
proof fn lemma_runs_add(a: Seq<InstallActionView>, b: Seq<InstallActionView>)
    ensures
        runs(a + b) == runs(a) + runs(b),
    decreases b.len(),
{
    if b.len() > 0 {
        assert((a + b).drop_last() =~= a + b.drop_last());
        lemma_runs_add(a, b.drop_last());
    } else {
        assert(a + b =~= a);
    }
}

/// How often each step runs the install command.
proof fn lemma_runs_step(state: InstallState, event: InstallEventView, install: Seq<char>)
    ensures
        ({
            let (next, actions) = install_next(state, event, install);
            runs(actions) == if next is Installing && !(state is Installing) {
                1nat
            } else {
                0nat
            }
        }),
{
    reveal_with_fuel(runs, 4);
    assert(fallback_actions().push(InstallActionView::Check).drop_last()
        =~= fallback_actions());
}

/// What the state tells of the events so far.
proof fn lemma_history(events: Seq<InstallEventView>, install: Seq<char>)
    ensures
        ({
            let n = runs(actions_after(events, install));
            match state_after(events, install) {
                InstallState::Start => n == 0,
                InstallState::Installing { attempt, .. } => n == attempt && 1 <= attempt
                    <= MAX_INSTALL_ATTEMPTS,
                InstallState::Checking { attempt } => n == attempt && 1 <= attempt
                    <= MAX_INSTALL_ATTEMPTS,
                InstallState::Installed => n <= MAX_INSTALL_ATTEMPTS,
                InstallState::GivenUp => n == MAX_INSTALL_ATTEMPTS,
            }
        }),
    decreases events.len(),
{
    if events.len() > 0 {
        let before = events.drop_last();
        let state = state_after(before, install);
        lemma_history(before, install);
        lemma_runs_step(state, events.last(), install);
        lemma_runs_add(
            actions_after(before, install),
            install_next(state, events.last(), install).1,
        );
    }
}

/// Whatever happens, the install command is run at most `MAX_INSTALL_ATTEMPTS` times, and the
/// installation is given up only after all of these attempts.
pub proof fn law_bounded_attempts(events: Seq<InstallEventView>, install: Seq<char>)
    ensures
        runs(actions_after(events, install)) <= MAX_INSTALL_ATTEMPTS,
        state_after(events, install) is GivenUp ==> runs(actions_after(events, install))
            == MAX_INSTALL_ATTEMPTS,
{
    lemma_history(events, install);
}

/// Before each run of the install command the lock file of the package manager is removed, so that
/// an attempt that was interrupted does not stand in the way.
pub proof fn law_lock_removed_first(
    state: InstallState,
    event: InstallEventView,
    install: Seq<char>,
    i: int,
)
    requires
        ({
            let actions = install_next(state, event, install).1;
            0 <= i < actions.len() && actions[i] is Run
        }),
    ensures
        ({
            let actions = install_next(state, event, install).1;
            &&& i > 0
            &&& actions[i - 1] == InstallActionView::Exec("rm -f /var/lib/pacman/db.lck"@)
            &&& actions[i] == InstallActionView::Run(install_command(install))
        }),
{
}

/// The event is a line of output that tells of an ENOSYS error.
pub open spec fn is_enosys(event: InstallEventView) -> bool {
    event matches InstallEventView::Output { execve_enosys, .. } && execve_enosys
}

/// The event is one that the state expects; any other changes nothing.
pub open spec fn expects(state: InstallState, event: InstallEventView) -> bool {
    match state {
        InstallState::Start | InstallState::Checking { .. } => event is Checked,
        InstallState::Installing { .. } => event is Output || event is Exited,
        InstallState::Installed | InstallState::GivenUp => false,
    }
}

/// The install command runs in both states, and for the same attempt.
pub open spec fn same_attempt(a: InstallState, b: InstallState) -> bool {
    &&& a matches InstallState::Installing { attempt: x, .. }
    &&& b matches InstallState::Installing { attempt: y, .. }
    &&& x == y
}

/// The event `j` is a line of the attempt that is still running, and tells of an ENOSYS error: since
/// then the install command has not ended, and no check was taken.
pub open spec fn own_enosys(events: Seq<InstallEventView>, install: Seq<char>, j: int) -> bool {
    &&& 0 <= j < events.len()
    &&& is_enosys(events[j])
    &&& forall|m: int|
        j <= m <= events.len() ==> same_attempt(
            #[trigger] state_after(events.take(m), install),
            state_after(events, install),
        )
    &&& forall|m: int|
        j < m < events.len() ==> !(#[trigger] events[m] is Exited) && (events[m] is Checked
            ==> !expects(state_after(events.take(m), install), events[m]))
}

/// One more event of the same attempt leaves an ENOSYS line of it in place.
proof fn lemma_own_enosys_push(events: Seq<InstallEventView>, install: Seq<char>, j: int)
    requires
        events.len() > 0,
        own_enosys(events.drop_last(), install, j),
        same_attempt(state_after(events.drop_last(), install), state_after(events, install)),
    ensures
        own_enosys(events, install, j),
{
    let before = events.drop_last();
    let n = before.len() as int;
    assert(before.take(n) =~= before);
    assert(events.take(n) =~= before);
    assert(events.take(n + 1) =~= events);
    assert(before[j] == events[j]);
    assert forall|m: int| j <= m <= events.len() implies same_attempt(
        #[trigger] state_after(events.take(m), install),
        state_after(events, install),
    ) by {
        if m <= n {
            assert(events.take(m) =~= before.take(m));
            assert(same_attempt(
                state_after(before.take(m), install),
                state_after(before, install),
            ));
        }
    }
    assert forall|m: int| j < m < events.len() implies !(#[trigger] events[m] is Exited) && (
    events[m] is Checked ==> !expects(state_after(events.take(m), install), events[m])) by {
        if m < n {
            assert(events.take(m) =~= before.take(m));
            assert(before[m] == events[m]);
        }
    }
}

/// Where an ENOSYS error is remembered, the running attempt has printed it.
proof fn lemma_enosys_history(events: Seq<InstallEventView>, install: Seq<char>)
    ensures
        state_after(events, install) matches InstallState::Installing { saw_execve_enosys, .. }
            ==> saw_execve_enosys ==> exists|j: int| #[trigger] own_enosys(events, install, j),
    decreases events.len(),
{
    if events.len() > 0 {
        let before = events.drop_last();
        let n = before.len() as int;
        lemma_enosys_history(before, install);
        if let InstallState::Installing { saw_execve_enosys, .. } = state_after(events, install) {
            if saw_execve_enosys {
                if is_enosys(events.last()) {
                    assert(events.take(n) =~= before);
                    assert(events.take(n + 1) =~= events);
                    assert(own_enosys(events, install, n));
                } else {
                    let j = choose|j: int| #[trigger] own_enosys(before, install, j);
                    lemma_own_enosys_push(events, install, j);
                }
            }
        }
    }
}

/// The fallback is enabled only when the install command has failed, its output has held an
/// ENOSYS error in this very attempt, and the fallback was not enabled before.
pub proof fn law_fallback_only_for_enosys(
    events: Seq<InstallEventView>,
    event: InstallEventView,
    install: Seq<char>,
    i: int,
)
    requires
        ({
            let actions = install_next(state_after(events, install), event, install).1;
            0 <= i < actions.len() && actions[i] is EnableFallback
        }),
    ensures
        event == (InstallEventView::Exited { success: false, no_seccomp: false }),
        exists|j: int| #[trigger] own_enosys(events, install, j),
{
    lemma_enosys_history(events, install);
}

/// The installation is complete only when the last check said so, and it is given up only when
/// the last check found something missing.
pub proof fn law_check_decides(
    events: Seq<InstallEventView>,
    event: InstallEventView,
    install: Seq<char>,
)
    ensures
        ({
            let before = state_after(events, install);
            let after = state_after(events.push(event), install);
            &&& after is Installed && !(before is Installed) ==> event == (
            InstallEventView::Checked { installed: true })
            &&& after is GivenUp && !(before is GivenUp) ==> event == (InstallEventView::Checked {
                installed: false,
            })
            &&& (before is Start || before is Checking) && event == (InstallEventView::Checked {
                installed: true,
            }) ==> after is Installed
        }),
{
    assert(events.push(event).drop_last() =~= events);
}

} // verus!
