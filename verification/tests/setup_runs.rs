use localdesktop::rootfs::{self, Download, RootDir, RootfsEvent, RootfsState};
use localdesktop::stages::{self, SetupEvent, SetupState};

fn run_rootfs(events: Vec<RootfsEvent>) -> (RootfsState, Vec<String>) {
    let mut state = RootfsState::Start;
    let mut actions = Vec::new();
    for event in events {
        assert!(rootfs::check_counts(state));
        let (next, more) = rootfs::setup_arch_fs(state, event);
        state = next;
        actions.extend(more.iter().map(|a| format!("{:?}", a)));
    }
    (state, actions)
}

fn say(text: &str) -> String {
    format!(
        "Notify(Notice {{ message: Progress({:?}), on_lost: Abort(\"Failed to send log message\") }})",
        text
    )
}

fn complain(text: &str) -> String {
    format!("Notify(Notice {{ message: Error({:?}), on_lost: Ignore }})", text)
}

fn plain(words: &[&str]) -> Vec<String> {
    words.iter().map(|w| w.to_string()).collect()
}

fn extraction() -> Vec<String> {
    let mut r = vec![say("Extracting Ubuntu FS...")];
    r.extend(plain(&["RemoveRoot", "CreateRoot(\"Failed to create target directory\")", "Extract"]));
    r
}

fn archives(local_exists: bool, temp_exists: bool) -> RootfsEvent {
    RootfsEvent::Archives { local_exists, temp_exists }
}

fn temp(exists: bool) -> RootfsEvent {
    RootfsEvent::Temp { exists }
}

#[test]
fn only_a_missing_or_empty_root_is_set_up() {
    assert!(rootfs::needs_rootfs(RootDir::Unreadable));
    assert!(rootfs::needs_rootfs(RootDir::Empty));
    assert!(!rootfs::needs_rootfs(RootDir::Populated));
}

#[test]
fn an_archive_on_the_device_is_copied() {
    let (state, actions) = run_rootfs(vec![
        archives(true, false),
        RootfsEvent::Copied,
        temp(true),
        RootfsEvent::Extracted { usr: true, bin: true },
    ]);
    assert_eq!(state, RootfsState::Finished);
    let mut expected = vec![say("Using local Ubuntu FS from /data/local/tmp...")];
    expected.extend(plain(&["CopyLocal", "CheckTemp"]));
    expected.extend(extraction());
    expected.extend(plain(&["RemoveTemp", "Finish"]));
    assert_eq!(actions, expected);
}

#[test]
fn an_archive_that_is_there_is_not_copied_over() {
    for local_exists in [true, false] {
        let (state, actions) = run_rootfs(vec![archives(local_exists, true), temp(true)]);
        assert_eq!(state, RootfsState::Extracting);
        let mut expected = plain(&["CheckTemp"]);
        expected.extend(extraction());
        assert_eq!(actions, expected);
    }
}

#[test]
fn a_copy_that_fails_leads_to_the_download() {
    let (state, actions) = run_rootfs(vec![
        archives(true, false),
        RootfsEvent::CopyFailed("no space".to_string()),
        temp(false),
    ]);
    assert_eq!(state, RootfsState::Requesting);
    assert_eq!(
        actions[2..],
        [
            complain("Failed to copy local file: no space. Will try download..."),
            "CheckTemp".to_string(),
            say("Downloading Ubuntu FS..."),
            "Request".to_string(),
        ]
    );
}

fn downloading(total: Option<u64>, mut rest: Vec<RootfsEvent>) -> (RootfsState, Vec<String>) {
    let mut events = vec![
        archives(false, false),
        temp(false),
        RootfsEvent::Responded { content_length: total },
        RootfsEvent::TempCreated,
    ];
    events.append(&mut rest);
    let (state, actions) = run_rootfs(events);
    let mut start = plain(&["CheckTemp"]);
    start.push(say("Downloading Ubuntu FS..."));
    start.extend(plain(&["Request", "CreateTemp", "ReadChunk"]));
    assert_eq!(actions[..5], start);
    (state, actions[5..].to_vec())
}

#[test]
fn a_download_reports_each_new_percentage() {
    let (state, actions) = downloading(
        Some(1000),
        vec![
            RootfsEvent::Read { bytes: 9 },
            RootfsEvent::Written,
            RootfsEvent::Read { bytes: 1 },
            RootfsEvent::Written,
            RootfsEvent::Read { bytes: 5 },
            RootfsEvent::Written,
            RootfsEvent::Read { bytes: 984 },
            RootfsEvent::Written,
            RootfsEvent::Read { bytes: 500 },
            RootfsEvent::Written,
            RootfsEvent::Read { bytes: 500 },
            RootfsEvent::Written,
            RootfsEvent::Read { bytes: 0 },
        ],
    );
    assert_eq!(state, RootfsState::Extracting);
    let mut expected = plain(&[
        "WriteChunk",
        "ReadChunk",
        "WriteChunk",
        "ReportDownload { percent: 1, downloaded: 10, total: 1000 }",
        "ReadChunk",
        "WriteChunk",
        "ReadChunk",
        "WriteChunk",
        "ReportDownload { percent: 99, downloaded: 999, total: 1000 }",
        "ReadChunk",
        "WriteChunk",
        "ReportDownload { percent: 100, downloaded: 1499, total: 1000 }",
        "ReadChunk",
        "WriteChunk",
        "ReadChunk",
    ]);
    expected.extend(extraction());
    assert_eq!(actions, expected);
}

#[test]
fn a_download_of_unknown_size_reports_nothing() {
    let (state, actions) = downloading(
        None,
        vec![RootfsEvent::Read { bytes: 8192 }, RootfsEvent::Written],
    );
    assert_eq!(
        state,
        RootfsState::Reading(Download { downloaded: 8192, total: 0, last_percent: 0 })
    );
    assert_eq!(actions, plain(&["WriteChunk", "ReadChunk"]));
}

#[test]
fn a_download_that_fails_midway_is_removed() {
    let (state, actions) = downloading(Some(10), vec![RootfsEvent::ReadFailed("reset".to_string())]);
    assert_eq!(state, RootfsState::CheckingTemp);
    let mut expected = vec![complain("Failed to read from response: reset. Retrying...")];
    expected.extend(plain(&["RemoveTemp", "CheckTemp"]));
    assert_eq!(actions, expected);

    let (state, actions) = downloading(
        Some(10),
        vec![RootfsEvent::Read { bytes: 3 }, RootfsEvent::WriteFailed("full".to_string())],
    );
    assert_eq!(state, RootfsState::CheckingTemp);
    let mut expected = plain(&["WriteChunk"]);
    expected.push(complain("Failed to write to file: full. Retrying..."));
    expected.extend(plain(&["RemoveTemp", "CheckTemp"]));
    assert_eq!(actions, expected);
}

#[test]
fn a_download_that_does_not_begin_is_tried_again() {
    let (state, actions) = run_rootfs(vec![
        archives(false, false),
        temp(false),
        RootfsEvent::RequestFailed("offline".to_string()),
    ]);
    assert_eq!(state, RootfsState::CheckingTemp);
    assert_eq!(
        actions[3..],
        [complain("Failed to download Ubuntu FS: offline. Retrying..."), "CheckTemp".to_string()]
    );
    let (state, actions) = run_rootfs(vec![
        archives(false, false),
        temp(false),
        RootfsEvent::Responded { content_length: Some(5) },
        RootfsEvent::CreateFailed("denied".to_string()),
    ]);
    assert_eq!(state, RootfsState::CheckingTemp);
    assert_eq!(
        actions[4..],
        [
            complain("Failed to create temp file for Arch Linux FS: denied. Retrying..."),
            "CheckTemp".to_string(),
        ]
    );
}

#[test]
fn an_extraction_that_fails_starts_over() {
    for (usr, bin) in [(false, false), (true, false), (false, true)] {
        let (state, actions) = run_rootfs(vec![
            archives(false, true),
            temp(true),
            RootfsEvent::Extracted { usr, bin },
        ]);
        assert_eq!(state, RootfsState::CheckingTemp);
        let mut expected = plain(&["RemoveRoot", "RemoveTemp"]);
        expected.push(complain("Rootfs extraction incomplete"));
        expected.push("CheckTemp".to_string());
        assert_eq!(actions[5..], expected);
    }
    let (state, actions) = run_rootfs(vec![
        archives(false, true),
        temp(true),
        RootfsEvent::ExtractFailed("no tar".to_string()),
    ]);
    assert_eq!(state, RootfsState::CheckingTemp);
    assert_eq!(actions[7], complain("Failed to execute extraction command: no tar"));
}

#[test]
fn counts_that_do_not_fit_are_found() {
    let writing = |downloaded, total, chunk| RootfsState::Writing {
        download: Download { downloaded, total, last_percent: 0 },
        chunk,
    };
    assert!(rootfs::check_counts(writing(u64::MAX - 1, 0, 1)));
    assert!(!rootfs::check_counts(writing(u64::MAX, 0, 1)));
    assert!(rootfs::check_counts(writing(u64::MAX / 100 - 1, 1, 1)));
    assert!(!rootfs::check_counts(writing(u64::MAX / 100, 1, 1)));
    assert!(rootfs::check_counts(RootfsState::Start));
}

#[test]
fn what_the_user_reads_during_the_download() {
    assert_eq!(
        format!("{:?}", rootfs::report_download(7, "1.50", "21.00")),
        "Notice { message: Progress(\"Downloading Ubuntu FS... 7% (1.50 MB / 21.00 MB)\"), on_lost: Ignore }"
    );
}

fn run_stages(events: Vec<SetupEvent>) -> (SetupState, Vec<String>) {
    let mut state = SetupState::Start;
    let mut actions = Vec::new();
    for event in events {
        let (next, more) = stages::setup(state, event);
        state = next;
        actions.extend(more.iter().map(|a| format!("{:?}", a)));
    }
    (state, actions)
}

fn supported() -> SetupEvent {
    SetupEvent::Checked { supported: true }
}

const SUPPORTED: &str =
    "Notify(Notice { message: Progress(\"✅ Your device is supported!\"), on_lost: Ignore })";
const INSTALLED: &str = "Notify(Notice { message: Progress(\"Installation finished, please restart the app\"), on_lost: Abort(\"Failed to send installation finished message\") })";

#[test]
fn a_device_that_is_not_supported() {
    let (state, actions) = run_stages(vec![SetupEvent::Checked { supported: false }]);
    assert_eq!(state, SetupState::Finished);
    assert_eq!(actions, plain(&["ShowUnsupported"]));
}

#[test]
fn the_desktop_is_shown_when_all_was_done_before() {
    let (state, actions) = run_stages(vec![
        supported(),
        SetupEvent::StageDone,
        SetupEvent::StageDone,
        SetupEvent::StageDone,
        SetupEvent::StageDone,
    ]);
    assert_eq!(state, SetupState::Finished);
    assert_eq!(
        actions,
        plain(&[
            SUPPORTED,
            "RunStage(ArchFs)",
            "RunStage(LinuxSysdata)",
            "RunStage(PatchRootfs)",
            "RunStage(FirefoxConfig)",
            "ShowDesktop",
        ])
    );
}

#[test]
fn a_first_setup_shows_its_progress() {
    let (state, actions) = run_stages(vec![
        supported(),
        SetupEvent::TaskStarted,
        SetupEvent::TaskJoined,
        SetupEvent::TaskStarted,
        SetupEvent::TaskJoined,
        SetupEvent::TaskStarted,
        SetupEvent::TaskJoined,
        SetupEvent::StageDone,
    ]);
    assert_eq!(state, SetupState::Finished);
    assert_eq!(
        actions,
        plain(&[
            SUPPORTED,
            "RunStage(ArchFs)",
            "ShowProgress",
            "SetProgress(0)",
            "Join",
            "SetProgress(25)",
            "RunStage(LinuxSysdata)",
            "Join",
            "SetProgress(50)",
            "SetProgress(50)",
            "RunStage(PatchRootfs)",
            "Join",
            "SetProgress(75)",
            "SetProgress(75)",
            "RunStage(FirefoxConfig)",
            "SetProgress(100)",
            INSTALLED,
        ])
    );
}

#[test]
fn a_setup_goes_on_where_it_stopped() {
    let (state, actions) = run_stages(vec![
        supported(),
        SetupEvent::StageDone,
        SetupEvent::StageDone,
        SetupEvent::TaskStarted,
        SetupEvent::TaskJoined,
        SetupEvent::TaskStarted,
        SetupEvent::TaskJoined,
    ]);
    assert_eq!(state, SetupState::Finished);
    assert_eq!(
        actions[4..],
        plain(&[
            "ShowProgress",
            "SetProgress(50)",
            "Join",
            "SetProgress(75)",
            "RunStage(FirefoxConfig)",
            "Join",
            "SetProgress(100)",
            "SetProgress(100)",
            INSTALLED,
        ])
    );
}

#[test]
fn a_stage_that_fails_stops_the_setup() {
    let (state, actions) = run_stages(vec![
        supported(),
        SetupEvent::TaskStarted,
        SetupEvent::TaskFailed { reason: Some("disk full".to_string()) },
        SetupEvent::TaskJoined,
        SetupEvent::StageDone,
    ]);
    assert_eq!(state, SetupState::Finished);
    assert_eq!(actions[5..], [complain("Stage execution failed: disk full")]);
    let (state, actions) = run_stages(vec![
        supported(),
        SetupEvent::TaskStarted,
        SetupEvent::TaskJoined,
        SetupEvent::TaskStarted,
        SetupEvent::TaskFailed { reason: None },
    ]);
    assert_eq!(state, SetupState::Finished);
    assert_eq!(actions.last(), Some(&complain("Stage execution failed: Unknown error")));
}

#[test]
fn an_event_out_of_turn_is_ignored() {
    let (state, actions) = run_stages(vec![
        SetupEvent::StageDone,
        SetupEvent::TaskFailed { reason: None },
        supported(),
        SetupEvent::TaskJoined,
        supported(),
    ]);
    assert_eq!(state, SetupState::Foreground(stages::SetupStage::ArchFs));
    assert_eq!(actions, plain(&[SUPPORTED, "RunStage(ArchFs)"]));
    let (state, actions) = rootfs::setup_arch_fs(RootfsState::Start, RootfsEvent::Written);
    assert_eq!(state, RootfsState::Start);
    assert!(actions.is_empty());
}
