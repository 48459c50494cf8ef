//! What the rewriting of `pacman.conf` is for, line by line.

use crate::facts;
use crate::message::{MessageView, NoticeView, OnErrorView};
use crate::pacman;
use crate::plan::{StagePlanView, StepOpView, StepView};
use crate::text;
use vstd::prelude::*;

verus! {

/// The text starts with the word.
pub open spec fn starts(t: Seq<char>, word: Seq<char>) -> bool {
    word.len() <= t.len() && t.take(word.len() as int) == word
}

/// One of the four words with which the lines begin that are rewritten.
pub open spec fn starts_directive(t: Seq<char>) -> bool {
    ||| starts(t, "DownloadUser"@)
    ||| starts(t, "ParallelDownloads"@)
    ||| starts(t, "SigLevel"@)
    ||| starts(t, "LocalFileSigLevel"@)
}

/// A word at the start.
proof fn lemma_starts(t: Seq<char>, word: Seq<char>)
    ensures
        starts(t, word) == word.is_prefix_of(t),
{
    if word.len() <= t.len() {
        assert(t.take(word.len() as int) =~= t.subrange(0, word.len() as int));
    }
}

/// The four words at the start of a text.
proof fn lemma_words(t: Seq<char>)
    ensures
        starts(t, "DownloadUser"@) == "DownloadUser"@.is_prefix_of(t),
        starts(t, "ParallelDownloads"@) == "ParallelDownloads"@.is_prefix_of(t),
        starts(t, "SigLevel"@) == "SigLevel"@.is_prefix_of(t),
        starts(t, "LocalFileSigLevel"@) == "LocalFileSigLevel"@.is_prefix_of(t),
        starts(t, "DownloadUser"@) ==> t[0] == 'D' && t.len() > 0,
        starts(t, "ParallelDownloads"@) ==> t[0] == 'P' && t.len() > 0,
        starts(t, "SigLevel"@) ==> t[0] == 'S' && t.len() > 0,
        starts(t, "LocalFileSigLevel"@) ==> t[0] == 'L' && t.len() > 0,
{
    lemma_starts(t, "DownloadUser"@);
    lemma_starts(t, "ParallelDownloads"@);
    lemma_starts(t, "SigLevel"@);
    lemma_starts(t, "LocalFileSigLevel"@);
    reveal_strlit("DownloadUser");
    reveal_strlit("ParallelDownloads");
    reveal_strlit("SigLevel");
    reveal_strlit("LocalFileSigLevel");
    if starts(t, "DownloadUser"@) {
        assert(t.take(12)[0] == t[0]);
    }
    if starts(t, "ParallelDownloads"@) {
        assert(t.take(17)[0] == t[0]);
    }
    if starts(t, "SigLevel"@) {
        assert(t.take(8)[0] == t[0]);
    }
    if starts(t, "LocalFileSigLevel"@) {
        assert(t.take(17)[0] == t[0]);
    }
}

/// The four directives, at any indent and whatever follows them: the download user is commented out,
/// one download at a time is allowed, and no signatures are asked for. A line that begins otherwise
/// stays as it is.
pub proof fn law_line(w: Seq<char>, t: Seq<char>)
    requires
        forall|i: int| 0 <= i < w.len() ==> text::is_white_space(#[trigger] w[i]),
        t.len() > 0 ==> !text::is_white_space(t[0]),
    ensures
        starts(t, "DownloadUser"@) ==> pacman::pacman_line(w + t) == w + "# "@ + t,
        starts(t, "ParallelDownloads"@) ==> pacman::pacman_line(w + t) == w
            + "ParallelDownloads = 1"@,
        starts(t, "SigLevel"@) ==> pacman::pacman_line(w + t) == w + "SigLevel = Never"@,
        starts(t, "LocalFileSigLevel"@) ==> pacman::pacman_line(w + t) == w
            + "LocalFileSigLevel = Never"@,
        !starts_directive(t) ==> pacman::pacman_line(w + t) == w + t,
{
    assert(facts::all_white(w));
    facts::lemma_indent(w, t);
    lemma_words(t);
}

/// The file is rewritten line by line where some line has to change, and left alone where none has.
pub proof fn law_file(content: Seq<char>)
    ensures
        ({
            let ls = text::lines(content);
            let new = Seq::new(ls.len(), |i: int| pacman::pacman_line(ls[i]));
            pacman::pacman_conf(content) == (if forall|i: int|
                0 <= i < ls.len() ==> pacman::pacman_line(#[trigger] ls[i]) == ls[i] {
                None
            } else {
                Some(text::file_text(new))
            })
        }),
{
    let ls = text::lines(content);
    let new = Seq::new(ls.len(), |i: int| pacman::pacman_line(ls[i]));
    assert(pacman::pacman_lines(ls) =~= new);
    if forall|i: int| 0 <= i < ls.len() ==> pacman::pacman_line(#[trigger] ls[i]) == ls[i] {
        assert(new =~= ls);
    }
    if new == ls {
        assert forall|i: int| 0 <= i < ls.len() implies pacman::pacman_line(#[trigger] ls[i])
            == ls[i] by {
            assert(new[i] == ls[i]);
        }
    }
}

/// The steps for a text: the file is written where it has to change, and the two directories of the
/// package manager are made and opened to it.
pub proof fn law_steps(content: Seq<char>)
    ensures
        ({
            let write = match pacman::pacman_conf(content) {
                Some(updated) => seq![
                    StepView {
                        op: StepOpView::Write { path: "etc/pacman.conf"@, content: updated },
                        on_error: OnErrorView::Abort(
                            "Failed to update pacman configuration for Android"@,
                        ),
                    },
                ],
                None => Seq::empty(),
            };
            pacman::pacman_steps(content) == write + seq![
                StepView {
                    op: StepOpView::CreateDir { path: "var/lib/pacman/sync"@ },
                    on_error: OnErrorView::Abort("Failed to create pacman sync directory"@),
                },
                StepView {
                    op: StepOpView::CreateDir { path: "var/cache/pacman/pkg"@ },
                    on_error: OnErrorView::Abort(
                        "Failed to create pacman package cache directory"@,
                    ),
                },
                StepView {
                    op: StepOpView::SetMode { bits: 0o755, path: "var/lib/pacman/sync"@ },
                    on_error: OnErrorView::Ignore,
                },
                StepView {
                    op: StepOpView::SetMode { bits: 0o755, path: "var/cache/pacman/pkg"@ },
                    on_error: OnErrorView::Ignore,
                },
            ]
        }),
        pacman::PACMAN_CONF@ == "etc/pacman.conf"@,
{
}

/// Where the file exists the user is told and the steps are done, and where it does not, nothing is.
pub proof fn law_stage(content: Seq<char>)
    ensures
        pacman::pacman_plan(None) is None,
        pacman::pacman_plan(Some(content)) == Some(
            StagePlanView {
                notice: NoticeView {
                    message: MessageView::Progress("Configuring pacman for Android runtime..."@),
                    on_lost: OnErrorView::Ignore,
                },
                steps: pacman::pacman_steps(content),
            },
        ),
        pacman::pacman_notice() == (NoticeView {
            message: MessageView::Progress("Configuring pacman for Android runtime..."@),
            on_lost: OnErrorView::Ignore,
        }),
{
}

} // verus!
