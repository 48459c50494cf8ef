//! What installing the packages is for: an attempt from its start to its check, and the attempts one
//! after the other.

use crate::decimal;
use crate::install;
use crate::install::{InstallActionView, InstallEventView, InstallState};
use crate::message::{MessageView, NoticeView, OnErrorView};
use vstd::prelude::*;

verus! {

/// The state after these events, from a given one on.
pub open spec fn state_from(
    state: InstallState,
    events: Seq<InstallEventView>,
    install: Seq<char>,
) -> InstallState
    decreases events.len(),
{
    if events.len() == 0 {
        state
    } else {
        install::install_next(
            state_from(state, events.drop_last(), install),
            events.last(),
            install,
        ).0
    }
}

/// All actions that these events lead to, from a given state on.
pub open spec fn actions_from(
    state: InstallState,
    events: Seq<InstallEventView>,
    install: Seq<char>,
) -> Seq<InstallActionView>
    decreases events.len(),
{
    if events.len() == 0 {
        Seq::empty()
    } else {
        actions_from(state, events.drop_last(), install) + install::install_next(
            state_from(state, events.drop_last(), install),
            events.last(),
            install,
        ).1
    }
}

/// How an attempt went: the lines that were printed, each with whether it told of an ENOSYS error,
/// and how the install command ended.
pub struct Attempt {
    pub lines: Seq<(Seq<char>, bool)>,
    pub success: bool,
    pub no_seccomp: bool,
}

/// The lines of an attempt.
pub open spec fn printed(lines: Seq<(Seq<char>, bool)>) -> Seq<InstallEventView> {
    lines.map_values(
        |l: (Seq<char>, bool)| InstallEventView::Output { line: l.0, execve_enosys: l.1 },
    )
}

/// An attempt up to its end.
pub open spec fn attempt_events(attempt: Attempt) -> Seq<InstallEventView> {
    printed(attempt.lines).push(
        InstallEventView::Exited { success: attempt.success, no_seccomp: attempt.no_seccomp },
    )
}

/// A progress message that has to arrive.
pub open spec fn told(text: Seq<char>, failure: Seq<char>) -> InstallActionView {
    InstallActionView::Notify(
        NoticeView {
            message: MessageView::Progress(text),
            on_lost: OnErrorView::Abort(failure),
        },
    )
}

/// The user reads each line that is printed, in turn.
pub open spec fn told_lines(lines: Seq<(Seq<char>, bool)>) -> Seq<InstallActionView> {
    lines.map_values(|l: (Seq<char>, bool)| told(l.0, "Failed to send log message"@))
}

/// Some line of the attempt told of an ENOSYS error.
pub open spec fn has_enosys(lines: Seq<(Seq<char>, bool)>) -> bool {
    exists|i: int| 0 <= i < lines.len() && (#[trigger] lines[i]).1
}

/// How attempt number `k` begins: the user is told, the lock file of the package manager is removed,
/// and the install command is run, with its errors among its output.
pub open spec fn attempt_begins(k: int, install: Seq<char>) -> Seq<InstallActionView> {
    seq![
        told(
            "Installing desktop dependencies (attempt "@ + decimal::decimal(k) + "/10)..."@,
            "Failed to send dependency install progress"@,
        ),
        InstallActionView::Exec("rm -f /var/lib/pacman/db.lck"@),
        InstallActionView::Run("("@ + install + ") 2>&1"@),
    ]
}

/// How an attempt ends: without seccomp from then on where the install command failed, some line told
/// of an ENOSYS error and seccomp was not off already; and with the check in any case.
pub open spec fn attempt_ends(attempt: Attempt) -> Seq<InstallActionView> {
    if !attempt.success && has_enosys(attempt.lines) && !attempt.no_seccomp {
        seq![
            InstallActionView::EnableFallback("dependency install execve ENOSYS"@),
            InstallActionView::Notify(
                NoticeView {
                    message: MessageView::Progress(
                        "Detected device PRoot ENOSYS issue, enabling compatibility fallback..."@,
                    ),
                    on_lost: OnErrorView::Ignore,
                },
            ),
            InstallActionView::Check,
        ]
    } else {
        seq![InstallActionView::Check]
    }
}

/// How the installation is given up: the user is told, and the stage stops.
pub open spec fn giving_up() -> Seq<InstallActionView> {
    let text =
        "Failed to install desktop dependencies after 10 attempts. Check network/repo health and package availability."@;
    seq![
        InstallActionView::Notify(
            NoticeView { message: MessageView::Error(text), on_lost: OnErrorView::Ignore },
        ),
        InstallActionView::Abort(text),
    ]
}

/// What one more event adds.
proof fn lemma_push(
    state: InstallState,
    events: Seq<InstallEventView>,
    event: InstallEventView,
    install: Seq<char>,
)
    ensures
        state_from(state, events.push(event), install) == install::install_next(
            state_from(state, events, install),
            event,
            install,
        ).0,
        actions_from(state, events.push(event), install) == actions_from(state, events, install)
            + install::install_next(state_from(state, events, install), event, install).1,
{
    assert(events.push(event).drop_last() =~= events);
}

/// Ten in decimal notation, within the messages.
proof fn lemma_messages(k: int)
    ensures
        install::attempt_text(k) == "Installing desktop dependencies (attempt "@
            + decimal::decimal(k) + "/10)..."@,
        install::failure_text()
            == "Failed to install desktop dependencies after 10 attempts. Check network/repo health and package availability."@,
{
    reveal_strlit("/10)...");
    reveal_strlit("/");
    reveal_strlit(")...");
    reveal_strlit("Failed to install desktop dependencies after ");
    reveal_strlit(" attempts. Check network/repo health and package availability.");
    reveal_strlit(
        "Failed to install desktop dependencies after 10 attempts. Check network/repo health and package availability.",
    );
    reveal_with_fuel(decimal::digits, 2);
    assert(decimal::decimal(10) =~= seq!['1', '0']);
    assert(install::attempt_text(k) =~= "Installing desktop dependencies (attempt "@
        + decimal::decimal(k) + "/10)..."@);
    assert(install::failure_text()
        =~= "Failed to install desktop dependencies after 10 attempts. Check network/repo health and package availability."@);
}

/// A check decides what follows `done` attempts: where everything is installed nothing more is done;
/// else the next attempt begins, or the installation is given up after ten.
pub proof fn law_check(done: u32, installed: bool, install: Seq<char>)
    ensures
        ({
            let state = if done == 0 {
                InstallState::Start
            } else {
                InstallState::Checking { attempt: done }
            };
            install::install_next(state, InstallEventView::Checked { installed }, install) == (
            if installed {
                (InstallState::Installed, seq![InstallActionView::Finish])
            } else if done < 10 {
                (
                    InstallState::Installing {
                        attempt: (done + 1) as u32,
                        saw_execve_enosys: false,
                    },
                    attempt_begins(done + 1, install),
                )
            } else {
                (InstallState::GivenUp, giving_up())
            })
        }),
{
    lemma_messages(done + 1);
    assert(install::attempt_actions(done + 1, install) =~= attempt_begins(done + 1, install));
}

/// Up to the end of what an attempt prints.
proof fn lemma_printed(attempt: u32, lines: Seq<(Seq<char>, bool)>, install: Seq<char>)
    ensures
        ({
            let start = InstallState::Installing { attempt, saw_execve_enosys: false };
            &&& state_from(start, printed(lines), install) == (InstallState::Installing {
                attempt,
                saw_execve_enosys: has_enosys(lines),
            })
            &&& actions_from(start, printed(lines), install) == told_lines(lines)
        }),
    decreases lines.len(),
{
    let start = InstallState::Installing { attempt, saw_execve_enosys: false };
    if lines.len() > 0 {
        let rest = lines.drop_last();
        let l = lines.last();
        let event = InstallEventView::Output { line: l.0, execve_enosys: l.1 };
        lemma_printed(attempt, rest, install);
        lemma_push(start, printed(rest), event, install);
        assert(printed(lines) =~= printed(rest).push(event));
        assert(told_lines(lines) =~= told_lines(rest) + seq![
            told(l.0, "Failed to send log message"@),
        ]);
        assert(has_enosys(lines) == (has_enosys(rest) || l.1)) by {
            if has_enosys(lines) {
                let i = choose|i: int| 0 <= i < lines.len() && (#[trigger] lines[i]).1;
                if i < rest.len() {
                    assert(rest[i].1);
                }
            }
            if has_enosys(rest) {
                let i = choose|i: int| 0 <= i < rest.len() && (#[trigger] rest[i]).1;
                assert(lines[i].1);
            }
            if l.1 {
                assert(lines[lines.len() - 1].1);
            }
        }
    } else {
        assert(told_lines(lines) =~= Seq::<InstallActionView>::empty());
    }
}

/// An attempt from its start to its end, whatever is printed and however the install command ends:
/// the user reads every line, the fallback is enabled where it is called for and nowhere else, and
/// the check follows.
pub proof fn law_attempt(k: u32, attempt: Attempt, install: Seq<char>)
    ensures
        ({
            let start = InstallState::Installing { attempt: k, saw_execve_enosys: false };
            let events = attempt_events(attempt);
            &&& state_from(start, events, install) == (InstallState::Checking { attempt: k })
            &&& actions_from(start, events, install) == told_lines(attempt.lines) + attempt_ends(
                attempt,
            )
        }),
{
    let start = InstallState::Installing { attempt: k, saw_execve_enosys: false };
    lemma_printed(k, attempt.lines, install);
    lemma_push(
        start,
        printed(attempt.lines),
        InstallEventView::Exited { success: attempt.success, no_seccomp: attempt.no_seccomp },
        install,
    );
    let last = install::install_next(
        state_from(start, printed(attempt.lines), install),
        InstallEventView::Exited { success: attempt.success, no_seccomp: attempt.no_seccomp },
        install,
    ).1;
    assert(last =~= attempt_ends(attempt));
}

/// A first check and then these attempts, each with a check behind it, where no check finds
/// everything installed.
pub open spec fn vain_attempts(attempts: Seq<Attempt>) -> Seq<InstallEventView>
    decreases attempts.len(),
{
    if attempts.len() == 0 {
        seq![InstallEventView::Checked { installed: false }]
    } else {
        (vain_attempts(attempts.drop_last()) + attempt_events(attempts.last())).push(
            InstallEventView::Checked { installed: false },
        )
    }
}

/// What such attempts lead to.
pub open spec fn vain_actions(attempts: Seq<Attempt>, install: Seq<char>) -> Seq<InstallActionView>
    decreases attempts.len(),
{
    if attempts.len() == 0 {
        attempt_begins(1, install)
    } else {
        vain_actions(attempts.drop_last(), install) + told_lines(attempts.last().lines)
            + attempt_ends(attempts.last()) + (if attempts.len() < 10 {
            attempt_begins(attempts.len() as int + 1, install)
        } else {
            giving_up()
        })
    }
}

/// Events in a row.
proof fn lemma_append(
    state: InstallState,
    a: Seq<InstallEventView>,
    b: Seq<InstallEventView>,
    install: Seq<char>,
)
    ensures
        state_from(state, a + b, install) == state_from(
            state_from(state, a, install),
            b,
            install,
        ),
        actions_from(state, a + b, install) == actions_from(state, a, install) + actions_from(
            state_from(state, a, install),
            b,
            install,
        ),
    decreases b.len(),
{
    if b.len() == 0 {
        assert(a + b =~= a);
        assert(actions_from(state, a, install) + Seq::<InstallActionView>::empty()
            =~= actions_from(state, a, install));
    } else {
        let c = b.drop_last();
        lemma_append(state, a, c, install);
        assert((a + b).drop_last() =~= a + c);
        assert((a + b).last() == b.last());
        assert(actions_from(state, a + b, install) =~= actions_from(state, a, install)
            + actions_from(state_from(state, a, install), b, install));
    }
}

/// Packages are installed until the check succeeds: as long as it does not, there is one attempt
/// after the other, and after ten the installation is given up.
pub proof fn law_attempts(attempts: Seq<Attempt>, install: Seq<char>)
    requires
        attempts.len() <= 10,
    ensures
        state_from(InstallState::Start, vain_attempts(attempts), install) == (if attempts.len()
            < 10 {
            InstallState::Installing {
                attempt: (attempts.len() + 1) as u32,
                saw_execve_enosys: false,
            }
        } else {
            InstallState::GivenUp
        }),
        actions_from(InstallState::Start, vain_attempts(attempts), install) == vain_actions(
            attempts,
            install,
        ),
    decreases attempts.len(),
{
    let no = InstallEventView::Checked { installed: false };
    let start = InstallState::Start;
    law_check(attempts.len() as u32, false, install);
    if attempts.len() == 0 {
        let e = Seq::<InstallEventView>::empty();
        assert(vain_attempts(attempts) =~= e.push(no));
        lemma_push(start, e, no, install);
        assert(actions_from(start, vain_attempts(attempts), install) =~= vain_actions(
            attempts,
            install,
        ));
    } else {
        let rest = attempts.drop_last();
        let last = attempts.last();
        law_attempts(rest, install);
        let before = vain_attempts(rest);
        lemma_append(start, before, attempt_events(last), install);
        law_attempt(attempts.len() as u32, last, install);
        lemma_push(start, before + attempt_events(last), no, install);
        assert(actions_from(start, vain_attempts(attempts), install) =~= vain_actions(
            attempts,
            install,
        ));
    }
}

/// An ENOSYS error of the running attempt is not forgotten.
proof fn lemma_enosys_kept(events: Seq<InstallEventView>, install: Seq<char>, j: int, m: int)
    requires
        install::own_enosys(events, install, j),
        j < m <= events.len(),
    ensures
        install::state_after(events.take(m), install) matches InstallState::Installing {
            saw_execve_enosys,
            ..
        } && saw_execve_enosys,
    decreases m,
{
    let before = events.take(m - 1);
    assert(events.take(m).drop_last() =~= before);
    assert(events.take(m).last() == events[m - 1]);
    assert(install::same_attempt(
        install::state_after(before, install),
        install::state_after(events, install),
    ));
    assert(install::same_attempt(
        install::state_after(events.take(m), install),
        install::state_after(events, install),
    ));
    if m - 1 > j {
        lemma_enosys_kept(events, install, j, m - 1);
    }
}

/// Whatever else happens, where a line of the running attempt told of an ENOSYS error and the install
/// command then fails with seccomp on, the fallback is enabled.
pub proof fn law_enosys_enables_fallback(
    events: Seq<InstallEventView>,
    install: Seq<char>,
    j: int,
)
    requires
        install::own_enosys(events, install, j),
    ensures
        install::install_next(
            install::state_after(events, install),
            InstallEventView::Exited { success: false, no_seccomp: false },
            install,
        ).1[0] == InstallActionView::EnableFallback("dependency install execve ENOSYS"@),
{
    lemma_enosys_kept(events, install, j, events.len() as int);
    assert(events.take(events.len() as int) =~= events);
}

/// The contents of a list of actions are those of each in turn.
pub proof fn law_action_contents(actions: Seq<install::InstallAction>, i: int)
    ensures
        install::action_views(actions).len() == actions.len(),
        0 <= i < actions.len() ==> install::action_views(actions)[i] == actions[i]@,
{
}

/// An event that does not fit the state changes nothing.
pub proof fn law_only_fitting_events_count(
    state: InstallState,
    event: InstallEventView,
    install: Seq<char>,
)
    ensures
        ({
            let fits = match state {
                InstallState::Start | InstallState::Checking { .. } => event is Checked,
                InstallState::Installing { .. } => event is Output || event is Exited,
                InstallState::Installed | InstallState::GivenUp => false,
            };
            !fits ==> install::install_next(state, event, install) == (
                state,
                Seq::<InstallActionView>::empty(),
            )
        }),
{
}

} // verus!
