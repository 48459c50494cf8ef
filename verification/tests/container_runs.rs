use localdesktop::install::{self, InstallAction, InstallEvent, InstallState};
use localdesktop::launch::{self, LaunchAction, LaunchEvent, LaunchOutcome, LaunchState};

fn launch_all(events: &[LaunchEvent]) -> Vec<LaunchAction> {
    let mut state = LaunchState::Start;
    let mut actions = Vec::new();
    for event in events {
        let (next, action) = launch::launch(state, *event);
        state = next;
        actions.push(action);
    }
    actions
}

fn launch_end(exit: &[LaunchEvent]) -> Vec<LaunchAction> {
    let mut events = vec![LaunchEvent::Next, LaunchEvent::Next, LaunchEvent::Next];
    events.extend_from_slice(exit);
    launch_all(&events)[3..].to_vec()
}

const ENOSYS: LaunchEvent = LaunchEvent::Output { execve_enosys: true };
const LINE: LaunchEvent = LaunchEvent::Output { execve_enosys: false };
const FAILED: LaunchEvent = LaunchEvent::Exited { success: false, no_seccomp: false };
const SUCCEEDED: LaunchEvent = LaunchEvent::Exited { success: true, no_seccomp: false };

#[test]
fn old_files_are_removed_before_the_launch() {
    let actions = launch_all(&[LaunchEvent::Next, LaunchEvent::Next, LaunchEvent::Next]);
    assert_eq!(
        actions,
        vec![LaunchAction::RemoveLock, LaunchAction::RemoveSocket, LaunchAction::RunDesktop]
    );
    let commands: Vec<Option<&str>> = actions.iter().map(|a| launch::container_command(*a)).collect();
    assert_eq!(
        commands,
        vec![Some("rm -f /tmp/.X1-lock"), Some("rm -f /tmp/.X11-unix/X1"), None]
    );
}

#[test]
fn a_launch_that_succeeds() {
    assert_eq!(
        launch_end(&[LINE, ENOSYS, SUCCEEDED]),
        vec![LaunchAction::Wait, LaunchAction::Wait, LaunchAction::Finish(LaunchOutcome::Succeeded)]
    );
}

#[test]
fn a_launch_that_cannot_be_run() {
    assert_eq!(
        launch_end(&[ENOSYS, LaunchEvent::Failed]),
        vec![LaunchAction::Wait, LaunchAction::Finish(LaunchOutcome::NotRun)]
    );
}

#[test]
fn a_launch_that_fails_for_another_reason_is_not_retried() {
    assert_eq!(
        launch_end(&[LINE, FAILED]),
        vec![LaunchAction::Wait, LaunchAction::Finish(LaunchOutcome::Exited)]
    );
    assert_eq!(
        launch_end(&[ENOSYS, LaunchEvent::Exited { success: false, no_seccomp: true }]),
        vec![LaunchAction::Wait, LaunchAction::Finish(LaunchOutcome::Exited)]
    );
}

#[test]
fn an_enosys_failure_is_retried_once() {
    for (last, outcome) in [
        (SUCCEEDED, LaunchOutcome::RetrySucceeded),
        (FAILED, LaunchOutcome::RetryExited),
        (LaunchEvent::Failed, LaunchOutcome::RetryNotRun),
    ] {
        assert_eq!(
            launch_end(&[ENOSYS, LINE, FAILED, LaunchEvent::Next, ENOSYS, last, LaunchEvent::Next]),
            vec![
                LaunchAction::Wait,
                LaunchAction::Wait,
                LaunchAction::EnableFallback,
                LaunchAction::RunDesktop,
                LaunchAction::Wait,
                LaunchAction::Finish(outcome),
                LaunchAction::Wait,
            ]
        );
    }
    assert_eq!(launch::FALLBACK_REASON, "desktop launch execve ENOSYS");
}

fn run_install(events: Vec<InstallEvent>) -> (InstallState, Vec<String>) {
    let mut state = InstallState::Start;
    let mut actions = Vec::new();
    for event in events {
        let (next, more) = install::install_dependencies(state, event, "pacman -S lxqt");
        state = next;
        actions.extend(more.iter().map(|a| format!("{:?}", a)));
    }
    (state, actions)
}

fn checked(installed: bool) -> InstallEvent {
    InstallEvent::Checked { installed }
}

fn line(text: &str, execve_enosys: bool) -> InstallEvent {
    InstallEvent::Output { line: text.to_string(), execve_enosys }
}

fn exited(success: bool, no_seccomp: bool) -> InstallEvent {
    InstallEvent::Exited { success, no_seccomp }
}

fn attempt(n: u32) -> Vec<String> {
    vec![
        format!(
            "Notify(Notice {{ message: Progress(\"Installing desktop dependencies (attempt {}/10)...\"), on_lost: Abort(\"Failed to send dependency install progress\") }})",
            n
        ),
        "Exec(\"rm -f /var/lib/pacman/db.lck\")".to_string(),
        "Run(\"(pacman -S lxqt) 2>&1\")".to_string(),
    ]
}

#[test]
fn nothing_is_installed_twice() {
    let (state, actions) = run_install(vec![checked(true)]);
    assert_eq!(state, InstallState::Installed);
    assert_eq!(actions, vec!["Finish"]);
}

#[test]
fn one_attempt_is_enough() {
    let (state, actions) = run_install(vec![
        checked(false),
        line("downloading", false),
        exited(true, false),
        checked(true),
    ]);
    assert_eq!(state, InstallState::Installed);
    let mut expected = attempt(1);
    expected.push("Notify(Notice { message: Progress(\"downloading\"), on_lost: Abort(\"Failed to send log message\") })".to_string());
    expected.push("Check".to_string());
    expected.push("Finish".to_string());
    assert_eq!(actions, expected);
}

#[test]
fn an_enosys_failure_enables_the_fallback() {
    let fallback = vec![
        "EnableFallback(\"dependency install execve ENOSYS\")",
        "Notify(Notice { message: Progress(\"Detected device PRoot ENOSYS issue, enabling compatibility fallback...\"), on_lost: Ignore })",
        "Check",
    ];
    let (_, actions) =
        run_install(vec![checked(false), line("a", true), line("b", false), exited(false, false)]);
    assert_eq!(actions[5..], fallback);
    let no_fallback = [
        vec![checked(false), line("a", false), exited(false, false)],
        vec![checked(false), line("a", true), exited(true, false)],
        vec![checked(false), line("a", true), exited(false, true)],
    ];
    for events in no_fallback {
        let (state, actions) = run_install(events);
        assert_eq!(state, InstallState::Checking { attempt: 1 });
        assert_eq!(actions[4..], ["Check"]);
    }
}

#[test]
fn an_enosys_error_counts_for_its_attempt_only() {
    let (_, actions) = run_install(vec![
        checked(false),
        line("a", true),
        exited(false, true),
        checked(false),
        exited(false, false),
    ]);
    assert_eq!(actions.last().map(|a| a.as_str()), Some("Check"));
    assert!(!actions.iter().any(|a| a.starts_with("EnableFallback")));
}

#[test]
fn the_installation_is_given_up_after_ten_attempts() {
    let mut events = vec![checked(false)];
    let mut expected = Vec::new();
    for n in 1..=install::MAX_INSTALL_ATTEMPTS {
        events.push(exited(false, false));
        events.push(checked(false));
        expected.extend(attempt(n));
        expected.push("Check".to_string());
    }
    let failure = "Failed to install desktop dependencies after 10 attempts. Check network/repo health and package availability.";
    expected.push(format!("Notify(Notice {{ message: Error({:?}), on_lost: Ignore }})", failure));
    expected.push(format!("Abort({:?})", failure));
    let (state, actions) = run_install(events);
    assert_eq!(state, InstallState::GivenUp);
    assert_eq!(actions, expected);
    assert_eq!(actions.iter().filter(|a| a.starts_with("Run(")).count(), 10);
}

#[test]
fn an_unexpected_event_changes_nothing() {
    let (state, actions) = run_install(vec![exited(true, true), line("a", true)]);
    assert_eq!(state, InstallState::Start);
    assert!(actions.is_empty());
    let (state, actions) = install::install_dependencies(InstallState::Installed, checked(false), "x");
    assert_eq!(state, InstallState::Installed);
    let none: Vec<InstallAction> = actions;
    assert!(none.is_empty());
    assert_eq!(
        launch::launch(LaunchState::Start, FAILED),
        (LaunchState::Start, LaunchAction::Wait)
    );
}
