//! Bringing the root file system: copying or downloading its archive, and extracting it.

use crate::decimal;
use crate::message;
use crate::message::{Notice, NoticeView};
use vstd::prelude::*;

verus! {

/// A directory that the extracted root file system has to have.
pub const USR_DIR: &'static str = "usr";

/// Another directory that the extracted root file system has to have.
pub const BIN_DIR: &'static str = "bin";

/// What is known of the directory of the root file system.
#[derive(Debug, Clone, Copy, PartialEq, Eq, Structural)]
pub enum RootDir {
    /// It cannot be read; most likely it does not exist.
    Unreadable,
    Empty,
    Populated,
}

/// The root file system has to be set up only where it is missing or empty.
pub open spec fn to_be_set_up(root: RootDir) -> bool {
    root != RootDir::Populated
}

/// Whether the root file system has to be set up: only where it is missing or empty.
pub fn needs_rootfs(root: RootDir) -> (r: bool)
    ensures
        r == to_be_set_up(root),
{
    match root {
        RootDir::Populated => false,
        _ => true,
    }
}

/// How far a download is.
#[derive(Debug, Clone, Copy, PartialEq, Eq, Structural)]
pub struct Download {
    /// The bytes that were written.
    pub downloaded: u64,
    /// The size of the archive, or 0 where it is not known.
    pub total: u64,
    /// The percentage that was last reported.
    pub last_percent: u8,
}

/// How far the setup of the root file system is.
#[derive(Debug, Clone, Copy, PartialEq, Eq, Structural)]
pub enum RootfsState {
    Start,
    Copying,
    CheckingTemp,
    Requesting,
    Creating { total: u64 },
    Reading(Download),
    /// `chunk` bytes are being written.
    Writing { download: Download, chunk: u64 },
    Extracting,
    Finished,
}

/// What happened.
#[derive(Debug)]
pub enum RootfsEvent {
    /// Which archives exist: the one that was put on the device, and the temporary one.
    Archives { local_exists: bool, temp_exists: bool },
    Copied,
    CopyFailed(String),
    /// Whether the temporary archive exists.
    Temp { exists: bool },
    /// The server answered, with the length of the archive where it gave one.
    Responded { content_length: Option<u64> },
    RequestFailed(String),
    TempCreated,
    CreateFailed(String),
    /// Bytes were read; none at the end.
    Read { bytes: u64 },
    ReadFailed(String),
    Written,
    WriteFailed(String),
    /// The extraction ended; whether the directories `USR_DIR` and `BIN_DIR` exist.
    Extracted { usr: bool, bin: bool },
    ExtractFailed(String),
}

/// The contents of a `RootfsEvent`.
pub enum RootfsEventView {
    Archives { local_exists: bool, temp_exists: bool },
    Copied,
    CopyFailed(Seq<char>),
    Temp { exists: bool },
    Responded { content_length: Option<u64> },
    RequestFailed(Seq<char>),
    TempCreated,
    CreateFailed(Seq<char>),
    Read { bytes: u64 },
    ReadFailed(Seq<char>),
    Written,
    WriteFailed(Seq<char>),
    Extracted { usr: bool, bin: bool },
    ExtractFailed(Seq<char>),
}

impl View for RootfsEvent {
    type V = RootfsEventView;

    open spec fn view(&self) -> RootfsEventView {
        match self {
            RootfsEvent::Archives { local_exists, temp_exists } => RootfsEventView::Archives {
                local_exists: *local_exists,
                temp_exists: *temp_exists,
            },
            RootfsEvent::Copied => RootfsEventView::Copied,
            RootfsEvent::CopyFailed(e) => RootfsEventView::CopyFailed(e@),
            RootfsEvent::Temp { exists } => RootfsEventView::Temp { exists: *exists },
            RootfsEvent::Responded { content_length } => RootfsEventView::Responded {
                content_length: *content_length,
            },
            RootfsEvent::RequestFailed(e) => RootfsEventView::RequestFailed(e@),
            RootfsEvent::TempCreated => RootfsEventView::TempCreated,
            RootfsEvent::CreateFailed(e) => RootfsEventView::CreateFailed(e@),
            RootfsEvent::Read { bytes } => RootfsEventView::Read { bytes: *bytes },
            RootfsEvent::ReadFailed(e) => RootfsEventView::ReadFailed(e@),
            RootfsEvent::Written => RootfsEventView::Written,
            RootfsEvent::WriteFailed(e) => RootfsEventView::WriteFailed(e@),
            RootfsEvent::Extracted { usr, bin } => RootfsEventView::Extracted {
                usr: *usr,
                bin: *bin,
            },
            RootfsEvent::ExtractFailed(e) => RootfsEventView::ExtractFailed(e@),
        }
    }
}

/// What to do next.
#[derive(Debug)]
pub enum RootfsAction {
    /// Send a message to the user.
    Notify(Notice),
    /// Copy the archive that was put on the device to the temporary one.
    CopyLocal,
    /// Look whether the temporary archive exists.
    CheckTemp,
    /// Ask the server for the archive.
    Request,
    /// Create the temporary archive.
    CreateTemp,
    /// Read the next bytes of the answer.
    ReadChunk,
    /// Write the bytes that were read to the temporary archive.
    WriteChunk,
    /// Tell the user how far the download is.
    ReportDownload { percent: u8, downloaded: u64, total: u64 },
    /// Remove the temporary archive, if that is possible.
    RemoveTemp,
    /// Remove the root file system, if that is possible.
    RemoveRoot,
    /// Create the directory of the root file system; the stage stops with this message when that
    /// fails.
    CreateRoot(String),
    /// Extract the temporary archive.
    Extract,
    /// Stop: the root file system is there.
    Finish,
}

/// The contents of a `RootfsAction`.
pub enum RootfsActionView {
    Notify(NoticeView),
    CopyLocal,
    CheckTemp,
    Request,
    CreateTemp,
    ReadChunk,
    WriteChunk,
    ReportDownload { percent: u8, downloaded: u64, total: u64 },
    RemoveTemp,
    RemoveRoot,
    CreateRoot(Seq<char>),
    Extract,
    Finish,
}

impl View for RootfsAction {
    type V = RootfsActionView;

    open spec fn view(&self) -> RootfsActionView {
        match self {
            RootfsAction::Notify(notice) => RootfsActionView::Notify(notice@),
            RootfsAction::CopyLocal => RootfsActionView::CopyLocal,
            RootfsAction::CheckTemp => RootfsActionView::CheckTemp,
            RootfsAction::Request => RootfsActionView::Request,
            RootfsAction::CreateTemp => RootfsActionView::CreateTemp,
            RootfsAction::ReadChunk => RootfsActionView::ReadChunk,
            RootfsAction::WriteChunk => RootfsActionView::WriteChunk,
            RootfsAction::ReportDownload { percent, downloaded, total } =>
                RootfsActionView::ReportDownload {
                percent: *percent,
                downloaded: *downloaded,
                total: *total,
            },
            RootfsAction::RemoveTemp => RootfsActionView::RemoveTemp,
            RootfsAction::RemoveRoot => RootfsActionView::RemoveRoot,
            RootfsAction::CreateRoot(failure) => RootfsActionView::CreateRoot(failure@),
            RootfsAction::Extract => RootfsActionView::Extract,
            RootfsAction::Finish => RootfsActionView::Finish,
        }
    }
}

/// The contents of a list of actions.
pub open spec fn action_views(actions: Seq<RootfsAction>) -> Seq<RootfsActionView> {
    actions.map_values(|a: RootfsAction| a@)
}

/// How much of the archive was downloaded, in percent.
pub open spec fn percent_of(downloaded: int, total: int) -> int {
    let p = downloaded * 100 / total;
    if p < 100 {
        p
    } else {
        100
    }
}

/// A progress message that has to arrive.
pub open spec fn say(text: Seq<char>) -> RootfsActionView {
    RootfsActionView::Notify(message::progress_or(text, "Failed to send log message"@))
}

/// An error message.
pub open spec fn complain(before: Seq<char>, reason: Seq<char>, after: Seq<char>) -> RootfsActionView {
    RootfsActionView::Notify(message::error(before + reason + after))
}

/// What extracts the archive: the old root file system goes first.
pub open spec fn extract_actions() -> Seq<RootfsActionView> {
    seq![
        say("Extracting Ubuntu FS..."@),
        RootfsActionView::RemoveRoot,
        RootfsActionView::CreateRoot("Failed to create target directory"@),
        RootfsActionView::Extract,
    ]
}

/// What follows an extraction that failed: everything is removed, and the loop begins anew.
pub open spec fn extract_again(complaint: RootfsActionView) -> Seq<RootfsActionView> {
    seq![
        RootfsActionView::RemoveRoot,
        RootfsActionView::RemoveTemp,
        complaint,
        RootfsActionView::CheckTemp,
    ]
}

/// What follows a download that failed midway: what was written is removed, and the loop begins
/// anew.
pub open spec fn download_again(complaint: RootfsActionView) -> Seq<RootfsActionView> {
    seq![complaint, RootfsActionView::RemoveTemp, RootfsActionView::CheckTemp]
}

/// The download after one more chunk, and the report that it is worth.
pub open spec fn after_chunk(download: Download, chunk: u64) -> (Download, Seq<RootfsActionView>) {
    let downloaded = (download.downloaded + chunk) as u64;
    let total = download.total;
    let percent = percent_of(downloaded as int, total as int) as u8;
    if total > 0 && percent != download.last_percent {
        (
            Download { downloaded, total, last_percent: percent },
            seq![RootfsActionView::ReportDownload { percent, downloaded, total }],
        )
    } else {
        (Download { downloaded, total, last_percent: download.last_percent }, Seq::empty())
    }
}

/// The next state and actions. An event that the state does not expect changes nothing.
pub open spec fn rootfs_next(state: RootfsState, event: RootfsEventView) -> (
    RootfsState,
    Seq<RootfsActionView>,
) {
    match (state, event) {
        (RootfsState::Start, RootfsEventView::Archives { local_exists, temp_exists }) => if local_exists
            && !temp_exists {
            (
                RootfsState::Copying,
                seq![
                    say("Using local Ubuntu FS from /data/local/tmp..."@),
                    RootfsActionView::CopyLocal,
                ],
            )
        } else {
            (RootfsState::CheckingTemp, seq![RootfsActionView::CheckTemp])
        },
        (RootfsState::Copying, RootfsEventView::Copied) => (
            RootfsState::CheckingTemp,
            seq![RootfsActionView::CheckTemp],
        ),
        (RootfsState::Copying, RootfsEventView::CopyFailed(e)) => (
            RootfsState::CheckingTemp,
            seq![
                complain("Failed to copy local file: "@, e, ". Will try download..."@),
                RootfsActionView::CheckTemp,
            ],
        ),
        (RootfsState::CheckingTemp, RootfsEventView::Temp { exists }) => if exists {
            (RootfsState::Extracting, extract_actions())
        } else {
            (
                RootfsState::Requesting,
                seq![say("Downloading Ubuntu FS..."@), RootfsActionView::Request],
            )
        },
        (RootfsState::Requesting, RootfsEventView::RequestFailed(e)) => (
            RootfsState::CheckingTemp,
            seq![
                complain("Failed to download Ubuntu FS: "@, e, ". Retrying..."@),
                RootfsActionView::CheckTemp,
            ],
        ),
        (RootfsState::Requesting, RootfsEventView::Responded { content_length }) => (
            RootfsState::Creating {
                total: match content_length {
                    Some(n) => n,
                    None => 0,
                },
            },
            seq![RootfsActionView::CreateTemp],
        ),
        (RootfsState::Creating { .. }, RootfsEventView::CreateFailed(e)) => (
            RootfsState::CheckingTemp,
            seq![
                complain(
                    "Failed to create temp file for Arch Linux FS: "@,
                    e,
                    ". Retrying..."@,
                ),
                RootfsActionView::CheckTemp,
            ],
        ),
        (RootfsState::Creating { total }, RootfsEventView::TempCreated) => (
            RootfsState::Reading(Download { downloaded: 0, total, last_percent: 0 }),
            seq![RootfsActionView::ReadChunk],
        ),
        (RootfsState::Reading(_), RootfsEventView::ReadFailed(e)) => (
            RootfsState::CheckingTemp,
            download_again(complain("Failed to read from response: "@, e, ". Retrying..."@)),
        ),
        (RootfsState::Reading(download), RootfsEventView::Read { bytes }) => if bytes == 0 {
            (RootfsState::Extracting, extract_actions())
        } else {
            (
                RootfsState::Writing { download, chunk: bytes },
                seq![RootfsActionView::WriteChunk],
            )
        },
        (RootfsState::Writing { .. }, RootfsEventView::WriteFailed(e)) => (
            RootfsState::CheckingTemp,
            download_again(complain("Failed to write to file: "@, e, ". Retrying..."@)),
        ),
        (RootfsState::Writing { download, chunk }, RootfsEventView::Written) => {
            let (next, report) = after_chunk(download, chunk);
            (RootfsState::Reading(next), report.push(RootfsActionView::ReadChunk))
        },
        (RootfsState::Extracting, RootfsEventView::Extracted { usr, bin }) => if usr && bin {
            (
                RootfsState::Finished,
                seq![RootfsActionView::RemoveTemp, RootfsActionView::Finish],
            )
        } else {
            (
                RootfsState::CheckingTemp,
                extract_again(complain("Rootfs extraction incomplete"@, Seq::empty(), Seq::empty())),
            )
        },
        (RootfsState::Extracting, RootfsEventView::ExtractFailed(e)) => (
            RootfsState::CheckingTemp,
            extract_again(
                complain("Failed to execute extraction command: "@, e, Seq::empty()),
            ),
        ),
        _ => (state, Seq::empty()),
    }
}

/// The counts of the state leave room for the bytes that are being written.
pub open spec fn counts_fit(state: RootfsState) -> bool {
    match state {
        RootfsState::Writing { download, chunk } => {
            &&& download.downloaded + chunk <= u64::MAX
            &&& download.total > 0 ==> (download.downloaded + chunk) * 100 <= u64::MAX
        },
        _ => true,
    }
}

/// Whether the counts of the state leave room for the bytes that are being written.
pub fn check_counts(state: RootfsState) -> (r: bool)
    ensures
        r == counts_fit(state),
{
    match state {
        RootfsState::Writing { download, chunk } => {
            if download.downloaded > u64::MAX - chunk {
                return false;
            }
            download.total == 0 || download.downloaded + chunk <= u64::MAX / 100
        },
        _ => true,
    }
}

/// Appends an action.
fn push_action(actions: &mut Vec<RootfsAction>, action: RootfsAction)
    ensures
        action_views(final(actions)@) == action_views(old(actions)@).push(action@),
{
    actions.push(action);
    assert(action_views(actions@) =~= action_views(old(actions)@).push(action@));
}

/// Appends a progress message that has to arrive.
fn push_say(actions: &mut Vec<RootfsAction>, text: &str)
    ensures
        action_views(final(actions)@) == action_views(old(actions)@).push(say(text@)),
{
    push_action(
        actions,
        RootfsAction::Notify(
            message::emit_progress_or(text.to_owned(), "Failed to send log message"),
        ),
    );
}

/// Appends an error message.
fn push_complaint(actions: &mut Vec<RootfsAction>, before: &str, reason: &str, after: &str)
    ensures
        action_views(final(actions)@) == action_views(old(actions)@).push(
            complain(before@, reason@, after@),
        ),
{
    let mut text = String::new();
    text.append(before);
    text.append(reason);
    text.append(after);
    assert(text@ =~= before@ + reason@ + after@);
    push_action(actions, RootfsAction::Notify(message::emit_setup_error(text)));
}

/// Begins the extraction.
fn extract(actions: Vec<RootfsAction>) -> (r: (RootfsState, Vec<RootfsAction>))
    requires
        actions@.len() == 0,
    ensures
        r.0 == RootfsState::Extracting,
        action_views(r.1@) == extract_actions(),
{
    let mut actions = actions;
    push_say(&mut actions, "Extracting Ubuntu FS...");
    push_action(&mut actions, RootfsAction::RemoveRoot);
    push_action(
        &mut actions,
        RootfsAction::CreateRoot("Failed to create target directory".to_owned()),
    );
    push_action(&mut actions, RootfsAction::Extract);
    assert(action_views(actions@) =~= extract_actions());
    (RootfsState::Extracting, actions)
}

/// Complains, and begins the loop anew.
fn retry(before: &str, reason: &str, after: &str) -> (r: (RootfsState, Vec<RootfsAction>))
    ensures
        r.0 == RootfsState::CheckingTemp,
        action_views(r.1@) == seq![
            complain(before@, reason@, after@),
            RootfsActionView::CheckTemp,
        ],
{
    let mut actions: Vec<RootfsAction> = Vec::new();
    push_complaint(&mut actions, before, reason, after);
    push_action(&mut actions, RootfsAction::CheckTemp);
    assert(action_views(actions@) =~= seq![
        complain(before@, reason@, after@),
        RootfsActionView::CheckTemp,
    ]);
    (RootfsState::CheckingTemp, actions)
}

/// Complains about a download, and begins the loop anew without what was written.
fn retry_download(before: &str, reason: &str, after: &str) -> (r: (
    RootfsState,
    Vec<RootfsAction>,
))
    ensures
        r.0 == RootfsState::CheckingTemp,
        action_views(r.1@) == download_again(complain(before@, reason@, after@)),
{
    let mut actions: Vec<RootfsAction> = Vec::new();
    push_complaint(&mut actions, before, reason, after);
    push_action(&mut actions, RootfsAction::RemoveTemp);
    push_action(&mut actions, RootfsAction::CheckTemp);
    assert(action_views(actions@) =~= download_again(complain(before@, reason@, after@)));
    (RootfsState::CheckingTemp, actions)
}

/// Complains about an extraction, and begins the loop anew without its remains.
fn retry_extraction(before: &str, reason: &str) -> (r: (RootfsState, Vec<RootfsAction>))
    ensures
        r.0 == RootfsState::CheckingTemp,
        action_views(r.1@) == extract_again(complain(before@, reason@, Seq::empty())),
{
    let mut text = String::new();
    text.append(before);
    text.append(reason);
    assert(text@ =~= before@ + reason@ + Seq::<char>::empty());
    let mut actions: Vec<RootfsAction> = Vec::new();
    push_action(&mut actions, RootfsAction::RemoveRoot);
    push_action(&mut actions, RootfsAction::RemoveTemp);
    push_action(&mut actions, RootfsAction::Notify(message::emit_setup_error(text)));
    push_action(&mut actions, RootfsAction::CheckTemp);
    assert(action_views(actions@) =~= extract_again(complain(before@, reason@, Seq::empty())));
    (RootfsState::CheckingTemp, actions)
}

/// Counts a chunk that was written, and reports the percentage where it changed.
fn count_chunk(download: Download, chunk: u64) -> (r: (Download, Vec<RootfsAction>))
    requires
        counts_fit(RootfsState::Writing { download, chunk }),
    ensures
        (r.0, action_views(r.1@)) == after_chunk(download, chunk),
{
    let mut actions: Vec<RootfsAction> = Vec::new();
    assert(action_views(actions@) =~= Seq::<RootfsActionView>::empty());
    let downloaded: u64 = download.downloaded + chunk;
    let total: u64 = download.total;
    if total > 0 {
        let whole: u64 = downloaded * 100 / total;
        let percent: u8 = if whole < 100 {
            whole as u8
        } else {
            100
        };
        if percent != download.last_percent {
            push_action(
                &mut actions,
                RootfsAction::ReportDownload { percent, downloaded, total },
            );
            assert(action_views(actions@) =~= after_chunk(download, chunk).1);
            return (Download { downloaded, total, last_percent: percent }, actions);
        }
    }
    (Download { downloaded, total, last_percent: download.last_percent }, actions)
}

/// Decides how the setup of the root file system goes on. An archive that was put on the device is
/// preferred; else the archive is downloaded. Whatever fails is tried again, until the archive is
/// extracted and the directories `USR_DIR` and `BIN_DIR` are there.
pub fn setup_arch_fs(state: RootfsState, event: RootfsEvent) -> (r: (
    RootfsState,
    Vec<RootfsAction>,
))
    requires
        event is Written ==> counts_fit(state),
    ensures
        (r.0, action_views(r.1@)) == rootfs_next(state, event@),
{
    let mut actions: Vec<RootfsAction> = Vec::new();
    assert(action_views(actions@) =~= Seq::<RootfsActionView>::empty());
    let ghost wanted = rootfs_next(state, event@);
    match state {
        RootfsState::Start => match event {
            RootfsEvent::Archives { local_exists, temp_exists } => {
                if local_exists && !temp_exists {
                    push_say(&mut actions, "Using local Ubuntu FS from /data/local/tmp...");
                    push_action(&mut actions, RootfsAction::CopyLocal);
                    assert(action_views(actions@) =~= wanted.1);
                    (RootfsState::Copying, actions)
                } else {
                    push_action(&mut actions, RootfsAction::CheckTemp);
                    assert(action_views(actions@) =~= wanted.1);
                    (RootfsState::CheckingTemp, actions)
                }
            },
            _ => (state, actions),
        },
        RootfsState::Copying => match event {
            RootfsEvent::Copied => {
                push_action(&mut actions, RootfsAction::CheckTemp);
                assert(action_views(actions@) =~= wanted.1);
                (RootfsState::CheckingTemp, actions)
            },
            RootfsEvent::CopyFailed(e) => retry(
                "Failed to copy local file: ",
                e.as_str(),
                ". Will try download...",
            ),
            _ => (state, actions),
        },
        RootfsState::CheckingTemp => match event {
            RootfsEvent::Temp { exists } => {
                if exists {
                    extract(actions)
                } else {
                    push_say(&mut actions, "Downloading Ubuntu FS...");
                    push_action(&mut actions, RootfsAction::Request);
                    assert(action_views(actions@) =~= wanted.1);
                    (RootfsState::Requesting, actions)
                }
            },
            _ => (state, actions),
        },
        RootfsState::Requesting => match event {
            RootfsEvent::RequestFailed(e) => retry(
                "Failed to download Ubuntu FS: ",
                e.as_str(),
                ". Retrying...",
            ),
            RootfsEvent::Responded { content_length } => {
                push_action(&mut actions, RootfsAction::CreateTemp);
                assert(action_views(actions@) =~= wanted.1);
                let total: u64 = match content_length {
                    Some(n) => n,
                    None => 0,
                };
                (RootfsState::Creating { total }, actions)
            },
            _ => (state, actions),
        },
        RootfsState::Creating { total } => match event {
            RootfsEvent::CreateFailed(e) => retry(
                "Failed to create temp file for Arch Linux FS: ",
                e.as_str(),
                ". Retrying...",
            ),
            RootfsEvent::TempCreated => {
                push_action(&mut actions, RootfsAction::ReadChunk);
                assert(action_views(actions@) =~= wanted.1);
                (
                    RootfsState::Reading(Download { downloaded: 0, total, last_percent: 0 }),
                    actions,
                )
            },
            _ => (state, actions),
        },
        RootfsState::Reading(download) => match event {
            RootfsEvent::ReadFailed(e) => retry_download(
                "Failed to read from response: ",
                e.as_str(),
                ". Retrying...",
            ),
            RootfsEvent::Read { bytes } => {
                if bytes == 0 {
                    extract(actions)
                } else {
                    push_action(&mut actions, RootfsAction::WriteChunk);
                    assert(action_views(actions@) =~= wanted.1);
                    (RootfsState::Writing { download, chunk: bytes }, actions)
                }
            },
            _ => (state, actions),
        },
        RootfsState::Writing { download, chunk } => match event {
            RootfsEvent::WriteFailed(e) => retry_download(
                "Failed to write to file: ",
                e.as_str(),
                ". Retrying...",
            ),
            RootfsEvent::Written => {
                let (next, report) = count_chunk(download, chunk);
                let mut report = report;
                push_action(&mut report, RootfsAction::ReadChunk);
                (RootfsState::Reading(next), report)
            },
            _ => (state, actions),
        },
        RootfsState::Extracting => match event {
            RootfsEvent::Extracted { usr, bin } => {
                if usr && bin {
                    push_action(&mut actions, RootfsAction::RemoveTemp);
                    push_action(&mut actions, RootfsAction::Finish);
                    assert(action_views(actions@) =~= wanted.1);
                    (RootfsState::Finished, actions)
                } else {
                    let none = String::new();
                    retry_extraction("Rootfs extraction incomplete", none.as_str())
                }
            },
            RootfsEvent::ExtractFailed(e) => retry_extraction(
                "Failed to execute extraction command: ",
                e.as_str(),
            ),
            _ => (state, actions),
        },
        RootfsState::Finished => (state, actions),
    }
}

/// What the user is told of a download, given both sizes in megabytes with two decimals.
pub open spec fn download_text(percent: u8, done: Seq<char>, total: Seq<char>) -> Seq<char> {
    "Downloading Ubuntu FS... "@ + decimal::decimal(percent as int) + "% ("@ + done + " MB / "@
        + total + " MB)"@
}

/// What the user is told of a download, given both sizes in megabytes with two decimals. The
/// message may get lost.
pub fn report_download(percent: u8, downloaded_mb: &str, total_mb: &str) -> (r: Notice)
    ensures
        r@ == message::progress(download_text(percent, downloaded_mb@, total_mb@)),
{
    let mut text = String::new();
    text.append("Downloading Ubuntu FS... ");
    decimal::push_unsigned(&mut text, percent as u64);
    text.append("% (");
    text.append(downloaded_mb);
    text.append(" MB / ");
    text.append(total_mb);
    text.append(" MB)");
    assert(text@ =~= download_text(percent, downloaded_mb@, total_mb@));
    message::emit_progress(text)
}

/// The percentage is at most 100, grows with the download, and is 100 from the whole size on.
pub proof fn law_percent(a: int, b: int, total: int)
    requires
        0 <= a <= b,
        total > 0,
    ensures
        0 <= percent_of(a, total) <= percent_of(b, total) <= 100,
        percent_of(a, total) == 100 <==> a >= total,
{
    assert(0 <= a * 100 / total <= b * 100 / total) by (nonlinear_arith)
        requires
            0 <= a <= b,
            total > 0,
    ;
    assert(a * 100 / total >= 100 <==> a >= total) by (nonlinear_arith)
        requires
            0 <= a,
            total > 0,
    ;
}

/// The last reported percentage is that of the bytes written so far.
pub open spec fn well_formed(state: RootfsState) -> bool {
    match state {
        RootfsState::Reading(d) => d.total > 0 ==> d.last_percent == percent_of(
            d.downloaded as int,
            d.total as int,
        ),
        RootfsState::Writing { download: d, .. } => d.total > 0 ==> d.last_percent == percent_of(
            d.downloaded as int,
            d.total as int,
        ),
        _ => true,
    }
}

/// The percentages that are reported during a download grow from one report to the next, and are
/// those of the bytes written.
pub proof fn law_reports_grow(state: RootfsState, event: RootfsEventView, i: int)
    requires
        event is Written ==> counts_fit(state),
        well_formed(state),
    ensures
        ({
            let (next, actions) = rootfs_next(state, event);
            &&& well_formed(next)
            &&& 0 <= i < actions.len() ==> (actions[i] matches RootfsActionView::ReportDownload {
                percent,
                downloaded,
                total,
            } ==> {
                &&& state matches RootfsState::Writing { download, .. }
                &&& download.last_percent < percent <= 100
                &&& percent == percent_of(downloaded as int, total as int)
                &&& next matches RootfsState::Reading(d)
                &&& d.last_percent == percent
            })
        }),
{
    if let RootfsState::Writing { download, chunk } = state {
        if download.total > 0 {
            law_percent(
                download.downloaded as int,
                download.downloaded + chunk,
                download.total as int,
            );
        }
    }
    if let RootfsState::Creating { total } = state {
        if total > 0 {
            assert(0int * 100 / total as int == 0) by (nonlinear_arith)
                requires
                    total > 0,
            ;
        }
    }
}

/// The archive is extracted only when it was found to exist, or its download has come to the end;
/// and only into a directory that was made anew.
pub proof fn law_extract_after_archive(state: RootfsState, event: RootfsEventView, i: int)
    requires
        0 <= i < rootfs_next(state, event).1.len(),
        rootfs_next(state, event).1[i] is Extract,
    ensures
        event == (RootfsEventView::Temp { exists: true }) || (state is Reading && event == (
        RootfsEventView::Read { bytes: 0 })),
        i >= 2,
        rootfs_next(state, event).1[i - 2] is RemoveRoot,
        rootfs_next(state, event).1[i - 1] is CreateRoot,
{
}

/// A download that fails midway leaves nothing behind: what was written is removed before the
/// archive is looked for again.
pub proof fn law_failed_download_removed(state: RootfsState, event: RootfsEventView)
    requires
        state is Reading || state is Writing,
        rootfs_next(state, event).0 is CheckingTemp,
    ensures
        ({
            let actions = rootfs_next(state, event).1;
            &&& actions.len() == 3
            &&& actions[1] is RemoveTemp
            &&& actions[2] is CheckTemp
        }),
{
}

/// An extraction that fails leaves nothing behind: the root file system and the archive are removed
/// before the archive is looked for again.
pub proof fn law_failed_extraction_removed(state: RootfsState, event: RootfsEventView)
    requires
        state is Extracting,
        rootfs_next(state, event).0 is CheckingTemp,
    ensures
        ({
            let actions = rootfs_next(state, event).1;
            &&& actions.len() == 4
            &&& actions[0] is RemoveRoot
            &&& actions[1] is RemoveTemp
            &&& actions[3] is CheckTemp
        }),
{
}

/// The setup ends only when the extracted root file system has the directories `USR_DIR` and `BIN_DIR`;
/// the archive is removed then.
pub proof fn law_finish_means_extracted(state: RootfsState, event: RootfsEventView)
    requires
        state != RootfsState::Finished,
        rootfs_next(state, event).0 is Finished,
    ensures
        state is Extracting,
        event == (RootfsEventView::Extracted { usr: true, bin: true }),
        rootfs_next(state, event).1 == seq![RootfsActionView::RemoveTemp, RootfsActionView::Finish],
{
}

/// What is known of a directory with these entries.
pub open spec fn dir_with(entries: Set<Seq<char>>) -> RootDir {
    if entries == Set::<Seq<char>>::empty() {
        RootDir::Empty
    } else {
        RootDir::Populated
    }
}

/// The root file system is set up only once: when the setup has ended there is nothing left to do
/// for it.
pub proof fn law_rootfs_once(entries: Set<Seq<char>>)
    requires
        ({
            let event = RootfsEventView::Extracted {
                usr: entries.contains(USR_DIR@),
                bin: entries.contains(BIN_DIR@),
            };
            rootfs_next(RootfsState::Extracting, event).0 is Finished
        }),
    ensures
        !to_be_set_up(dir_with(entries)),
{
    assert(entries.contains(USR_DIR@));
}

} // verus!
