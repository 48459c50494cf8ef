//! What bringing the root file system is for: where the archive comes from, how a download goes, and
//! what follows each failure.

use crate::decimal;
use crate::message::{MessageView, NoticeView, OnErrorView};
use crate::rootfs;
use crate::rootfs::{Download, RootDir, RootfsActionView, RootfsEventView, RootfsState};
use vstd::prelude::*;

verus! {

/// A progress message that has to arrive.
pub open spec fn told(text: Seq<char>) -> RootfsActionView {
    RootfsActionView::Notify(
        NoticeView {
            message: MessageView::Progress(text),
            on_lost: OnErrorView::Abort("Failed to send log message"@),
        },
    )
}

/// An error message, which may get lost.
pub open spec fn told_error(text: Seq<char>) -> RootfsActionView {
    RootfsActionView::Notify(
        NoticeView { message: MessageView::Error(text), on_lost: OnErrorView::Ignore },
    )
}

/// The archive is extracted into a directory that was made anew.
pub open spec fn extraction() -> Seq<RootfsActionView> {
    seq![
        told("Extracting Ubuntu FS..."@),
        RootfsActionView::RemoveRoot,
        RootfsActionView::CreateRoot("Failed to create target directory"@),
        RootfsActionView::Extract,
    ]
}

/// The archive that was put on the device is copied where there is no other yet.
pub proof fn law_local_archive(local_exists: bool, temp_exists: bool)
    ensures
        rootfs::rootfs_next(
            RootfsState::Start,
            RootfsEventView::Archives { local_exists, temp_exists },
        ) == (if local_exists && !temp_exists {
            (
                RootfsState::Copying,
                seq![
                    told("Using local Ubuntu FS from /data/local/tmp..."@),
                    RootfsActionView::CopyLocal,
                ],
            )
        } else {
            (RootfsState::CheckingTemp, seq![RootfsActionView::CheckTemp])
        }),
{
}

/// After the copy, whether it succeeded or not, the archive is looked for; a failure is told with its
/// reason.
pub proof fn law_copy(e: Seq<char>)
    ensures
        rootfs::rootfs_next(RootfsState::Copying, RootfsEventView::Copied) == (
            RootfsState::CheckingTemp,
            seq![RootfsActionView::CheckTemp],
        ),
        rootfs::rootfs_next(RootfsState::Copying, RootfsEventView::CopyFailed(e)) == (
            RootfsState::CheckingTemp,
            seq![
                told_error("Failed to copy local file: "@ + e + ". Will try download..."@),
                RootfsActionView::CheckTemp,
            ],
        ),
{
}

/// An archive that exists is extracted, and else it is downloaded.
pub proof fn law_archive_or_download(exists: bool)
    ensures
        rootfs::rootfs_next(RootfsState::CheckingTemp, RootfsEventView::Temp { exists }) == (
        if exists {
            (RootfsState::Extracting, extraction())
        } else {
            (
                RootfsState::Requesting,
                seq![told("Downloading Ubuntu FS..."@), RootfsActionView::Request],
            )
        }),
{
    assert(rootfs::extract_actions() =~= extraction());
}

/// A download begins with nothing downloaded, and with the size that the server gave; whatever fails
/// before that is told with its reason, and the archive is looked for again.
pub proof fn law_download_begins(length: u64, e: Seq<char>)
    ensures
        rootfs::rootfs_next(
            RootfsState::Requesting,
            RootfsEventView::Responded { content_length: Some(length) },
        ) == (RootfsState::Creating { total: length }, seq![RootfsActionView::CreateTemp]),
        rootfs::rootfs_next(
            RootfsState::Requesting,
            RootfsEventView::Responded { content_length: None },
        ) == (RootfsState::Creating { total: 0 }, seq![RootfsActionView::CreateTemp]),
        rootfs::rootfs_next(RootfsState::Requesting, RootfsEventView::RequestFailed(e)) == (
            RootfsState::CheckingTemp,
            seq![
                told_error("Failed to download Ubuntu FS: "@ + e + ". Retrying..."@),
                RootfsActionView::CheckTemp,
            ],
        ),
        rootfs::rootfs_next(
            RootfsState::Creating { total: length },
            RootfsEventView::TempCreated,
        ) == (
            RootfsState::Reading(Download { downloaded: 0, total: length, last_percent: 0 }),
            seq![RootfsActionView::ReadChunk],
        ),
        rootfs::rootfs_next(
            RootfsState::Creating { total: length },
            RootfsEventView::CreateFailed(e),
        ) == (
            RootfsState::CheckingTemp,
            seq![
                told_error(
                    "Failed to create temp file for Arch Linux FS: "@ + e + ". Retrying..."@,
                ),
                RootfsActionView::CheckTemp,
            ],
        ),
{
}

/// A download that breaks off is told with its reason, what was written is removed, and the archive
/// is looked for again.
pub proof fn law_download_breaks_off(download: Download, chunk: u64, e: Seq<char>)
    ensures
        rootfs::rootfs_next(RootfsState::Reading(download), RootfsEventView::ReadFailed(e)) == (
            RootfsState::CheckingTemp,
            seq![
                told_error("Failed to read from response: "@ + e + ". Retrying..."@),
                RootfsActionView::RemoveTemp,
                RootfsActionView::CheckTemp,
            ],
        ),
        rootfs::rootfs_next(
            RootfsState::Writing { download, chunk },
            RootfsEventView::WriteFailed(e),
        ) == (
            RootfsState::CheckingTemp,
            seq![
                told_error("Failed to write to file: "@ + e + ". Retrying..."@),
                RootfsActionView::RemoveTemp,
                RootfsActionView::CheckTemp,
            ],
        ),
{
}

/// A download that comes to its end is extracted.
pub proof fn law_download_ends(download: Download)
    ensures
        rootfs::rootfs_next(
            RootfsState::Reading(download),
            RootfsEventView::Read { bytes: 0 },
        ) == (RootfsState::Extracting, extraction()),
{
    assert(rootfs::extract_actions() =~= extraction());
}

/// The percentage is the whole part of the share that was downloaded, up to 100.
pub proof fn law_percentage(downloaded: int, total: int)
    requires
        downloaded >= 0,
        total > 0,
    ensures
        downloaded < total ==> rootfs::percent_of(downloaded, total) * total <= downloaded * 100
            < (rootfs::percent_of(downloaded, total) + 1) * total,
        downloaded >= total ==> rootfs::percent_of(downloaded, total) == 100,
{
    rootfs::law_percent(downloaded, downloaded, total);
    let p = downloaded * 100 / total;
    assert(p * total <= downloaded * 100 < (p + 1) * total) by (nonlinear_arith)
        requires
            p == downloaded * 100 / total,
            total > 0,
    ;
}

/// All that was downloaded.
pub open spec fn sum(chunks: Seq<u64>) -> int
    decreases chunks.len(),
{
    if chunks.len() == 0 {
        0
    } else {
        sum(chunks.drop_last()) + chunks.last()
    }
}

/// The share of the archive that was downloaded, in whole percent.
pub open spec fn share(downloaded: int, total: int) -> int {
    if downloaded >= total {
        100
    } else {
        downloaded * 100 / total
    }
}

/// Each chunk is read and then written.
pub open spec fn chunk_events(chunks: Seq<u64>) -> Seq<RootfsEventView>
    decreases chunks.len(),
{
    if chunks.len() == 0 {
        Seq::empty()
    } else {
        chunk_events(chunks.drop_last()).push(
            RootfsEventView::Read { bytes: chunks.last() },
        ).push(RootfsEventView::Written)
    }
}

/// For each chunk: it is written, the share is reported where it is another than before, and the next
/// one is read.
pub open spec fn chunk_actions(chunks: Seq<u64>, total: u64) -> Seq<RootfsActionView>
    decreases chunks.len(),
{
    if chunks.len() == 0 {
        Seq::empty()
    } else {
        let before = sum(chunks.drop_last());
        let now = sum(chunks);
        let written = chunk_actions(chunks.drop_last(), total).push(RootfsActionView::WriteChunk);
        (if total > 0 && share(before, total as int) != share(now, total as int) {
            written.push(
                RootfsActionView::ReportDownload {
                    percent: share(now, total as int) as u8,
                    downloaded: now as u64,
                    total,
                },
            )
        } else {
            written
        }).push(RootfsActionView::ReadChunk)
    }
}

/// A chunk that was read is written; once it is written it counts, the share is reported where it is
/// another than the last one reported, and the next chunk is read.
pub proof fn law_chunk(download: Download, chunk: u64)
    requires
        chunk > 0,
        rootfs::counts_fit(RootfsState::Writing { download, chunk }),
    ensures
        rootfs::rootfs_next(
            RootfsState::Reading(download),
            RootfsEventView::Read { bytes: chunk },
        ) == (RootfsState::Writing { download, chunk }, seq![RootfsActionView::WriteChunk]),
        ({
            let now = (download.downloaded + chunk) as u64;
            let total = download.total;
            let percent = share(now as int, total as int) as u8;
            let (next, actions) = rootfs::rootfs_next(
                RootfsState::Writing { download, chunk },
                RootfsEventView::Written,
            );
            if total > 0 && percent != download.last_percent {
                &&& next == RootfsState::Reading(
                    Download { downloaded: now, total, last_percent: percent },
                )
                &&& actions == seq![
                    RootfsActionView::ReportDownload { percent, downloaded: now, total },
                    RootfsActionView::ReadChunk,
                ]
            } else {
                &&& next == RootfsState::Reading(
                    Download { downloaded: now, total, last_percent: download.last_percent },
                )
                &&& actions == seq![RootfsActionView::ReadChunk]
            }
        }),
{
    if download.total > 0 {
        lemma_share(download.downloaded + chunk, download.total as int);
    }
    let actions = rootfs::rootfs_next(
        RootfsState::Writing { download, chunk },
        RootfsEventView::Written,
    ).1;
    assert(actions.last() == RootfsActionView::ReadChunk);
}

/// The state after these events, from a given one on.
pub open spec fn state_from(state: RootfsState, events: Seq<RootfsEventView>) -> RootfsState
    decreases events.len(),
{
    if events.len() == 0 {
        state
    } else {
        rootfs::rootfs_next(state_from(state, events.drop_last()), events.last()).0
    }
}

/// All actions that these events lead to, from a given state on.
pub open spec fn actions_from(state: RootfsState, events: Seq<RootfsEventView>) -> Seq<
    RootfsActionView,
>
    decreases events.len(),
{
    if events.len() == 0 {
        Seq::empty()
    } else {
        actions_from(state, events.drop_last()) + rootfs::rootfs_next(
            state_from(state, events.drop_last()),
            events.last(),
        ).1
    }
}

/// What one more event adds.
proof fn lemma_push(state: RootfsState, events: Seq<RootfsEventView>, event: RootfsEventView)
    ensures
        state_from(state, events.push(event)) == rootfs::rootfs_next(
            state_from(state, events),
            event,
        ).0,
        actions_from(state, events.push(event)) == actions_from(state, events)
            + rootfs::rootfs_next(state_from(state, events), event).1,
{
    assert(events.push(event).drop_last() =~= events);
}

/// The share is the percentage.
proof fn lemma_share(downloaded: int, total: int)
    requires
        downloaded >= 0,
        total > 0,
    ensures
        share(downloaded, total) == rootfs::percent_of(downloaded, total),
        0 <= share(downloaded, total) <= 100,
{
    rootfs::law_percent(downloaded, downloaded, total);
}

/// No more is downloaded by fewer chunks.
proof fn lemma_sum(chunks: Seq<u64>)
    ensures
        sum(chunks) >= 0,
    decreases chunks.len(),
{
    if chunks.len() > 0 {
        lemma_sum(chunks.drop_last());
    }
}

/// A download from its start, chunk by chunk: what was written adds up, and the share that was
/// downloaded is reported each time that it is another than before, and only then.
pub proof fn law_download(chunks: Seq<u64>, total: u64)
    requires
        forall|i: int| 0 <= i < chunks.len() ==> #[trigger] chunks[i] > 0,
        sum(chunks) <= u64::MAX,
        total > 0 ==> sum(chunks) * 100 <= u64::MAX,
    ensures
        ({
            let start = RootfsState::Reading(Download { downloaded: 0, total, last_percent: 0 });
            &&& state_from(start, chunk_events(chunks)) == RootfsState::Reading(
                Download {
                    downloaded: sum(chunks) as u64,
                    total,
                    last_percent: if total > 0 {
                        share(sum(chunks), total as int) as u8
                    } else {
                        0
                    },
                },
            )
            &&& actions_from(start, chunk_events(chunks)) == chunk_actions(chunks, total)
        }),
    decreases chunks.len(),
{
    let start = RootfsState::Reading(Download { downloaded: 0, total, last_percent: 0 });
    lemma_sum(chunks);
    if total > 0 {
        lemma_share(sum(chunks), total as int);
    }
    if chunks.len() == 0 {
        if total > 0 {
            assert(0int * 100 / total as int == 0) by (nonlinear_arith)
                requires
                    total > 0,
            ;
        }
    } else {
        let rest = chunks.drop_last();
        let c = chunks.last();
        assert(c == chunks[chunks.len() - 1]);
        lemma_sum(rest);
        assert forall|i: int| 0 <= i < rest.len() implies #[trigger] rest[i] > 0 by {
            assert(rest[i] == chunks[i]);
        }
        law_download(rest, total);
        if total > 0 {
            lemma_share(sum(rest), total as int);
        }
        let events = chunk_events(rest);
        let read = events.push(RootfsEventView::Read { bytes: c });
        lemma_push(start, events, RootfsEventView::Read { bytes: c });
        lemma_push(start, read, RootfsEventView::Written);
        let d = Download {
            downloaded: sum(rest) as u64,
            total,
            last_percent: if total > 0 {
                share(sum(rest), total as int) as u8
            } else {
                0
            },
        };
        assert(state_from(start, read) == RootfsState::Writing { download: d, chunk: c });
        assert(actions_from(start, chunk_events(chunks)) =~= chunk_actions(chunks, total));
    }
}

/// An extraction has succeeded where both directories are there: the archive is removed and nothing
/// more is done. Else, or where it could not be run, what was extracted and the archive are removed,
/// the user is told, and the archive is looked for again.
pub proof fn law_extraction(usr: bool, bin: bool, e: Seq<char>)
    ensures
        rootfs::rootfs_next(RootfsState::Extracting, RootfsEventView::Extracted { usr, bin }) == (
        if usr && bin {
            (
                RootfsState::Finished,
                seq![RootfsActionView::RemoveTemp, RootfsActionView::Finish],
            )
        } else {
            (
                RootfsState::CheckingTemp,
                seq![
                    RootfsActionView::RemoveRoot,
                    RootfsActionView::RemoveTemp,
                    told_error("Rootfs extraction incomplete"@),
                    RootfsActionView::CheckTemp,
                ],
            )
        }),
        rootfs::rootfs_next(RootfsState::Extracting, RootfsEventView::ExtractFailed(e)) == (
            RootfsState::CheckingTemp,
            seq![
                RootfsActionView::RemoveRoot,
                RootfsActionView::RemoveTemp,
                told_error("Failed to execute extraction command: "@ + e),
                RootfsActionView::CheckTemp,
            ],
        ),
        rootfs::USR_DIR@ == "usr"@,
        rootfs::BIN_DIR@ == "bin"@,
{
    let none = Seq::<char>::empty();
    assert("Rootfs extraction incomplete"@ + none + none =~= "Rootfs extraction incomplete"@);
    assert("Failed to execute extraction command: "@ + e + none
        =~= "Failed to execute extraction command: "@ + e);
}

/// The contents of a list of actions are those of each in turn.
pub proof fn law_action_contents(actions: Seq<rootfs::RootfsAction>, i: int)
    ensures
        rootfs::action_views(actions).len() == actions.len(),
        0 <= i < actions.len() ==> rootfs::action_views(actions)[i] == actions[i]@,
{
}

/// An event that does not fit the state changes nothing.
pub proof fn law_only_fitting_events_count(state: RootfsState, event: RootfsEventView)
    ensures
        ({
            let fits = match state {
                RootfsState::Start => event is Archives,
                RootfsState::Copying => event is Copied || event is CopyFailed,
                RootfsState::CheckingTemp => event is Temp,
                RootfsState::Requesting => event is Responded || event is RequestFailed,
                RootfsState::Creating { .. } => event is TempCreated || event is CreateFailed,
                RootfsState::Reading(_) => event is Read || event is ReadFailed,
                RootfsState::Writing { .. } => event is Written || event is WriteFailed,
                RootfsState::Extracting => event is Extracted || event is ExtractFailed,
                RootfsState::Finished => false,
            };
            let (next, actions) = rootfs::rootfs_next(state, event);
            &&& !fits ==> next == state && actions.len() == 0
            &&& fits ==> next != state && actions.len() > 0
        }),
{
}

/// Only a missing or empty root file system is set up.
pub proof fn law_set_up_where_missing(root: RootDir)
    ensures
        rootfs::to_be_set_up(root) <==> root == RootDir::Unreadable || root == RootDir::Empty,
{
}

/// Every number of bytes fits of which the hundredfold does.
pub proof fn law_counts_fit(download: Download, chunk: u64)
    ensures
        (download.downloaded + chunk) * 100 <= u64::MAX ==> rootfs::counts_fit(
            RootfsState::Writing { download, chunk },
        ),
        download.total == 0 && download.downloaded + chunk <= u64::MAX ==> rootfs::counts_fit(
            RootfsState::Writing { download, chunk },
        ),
{
}

/// What the user reads of a download: the percentage, what was downloaded, and the size.
pub proof fn law_download_text(percent: u8, done: Seq<char>, total: Seq<char>)
    ensures
        rootfs::download_text(percent, done, total) == "Downloading Ubuntu FS... "@
            + decimal::decimal(percent as int) + "% ("@ + done + " MB / "@ + total + " MB)"@,
{
}

} // verus!
