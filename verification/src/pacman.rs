//! The configuration of the package manager.

use crate::facts;
use crate::message;
use crate::message::{Notice, NoticeView};
use crate::plan;
use crate::plan::{StagePlan, StagePlanView, Step, StepView};
use crate::text;
use vstd::prelude::*;

verus! {

/// The configuration file of the package manager.
pub const PACMAN_CONF: &'static str = "etc/pacman.conf";

/// A line of `pacman.conf` as the Android runtime needs it: no download user, one download at a
/// time and no signatures.
pub open spec fn pacman_line(line: Seq<char>) -> Seq<char> {
    let t = text::trim_start(line);
    let w = text::indent(line);
    if "DownloadUser"@.is_prefix_of(t) {
        w + "# "@ + t
    } else if "ParallelDownloads"@.is_prefix_of(t) {
        w + "ParallelDownloads = 1"@
    } else if "SigLevel"@.is_prefix_of(t) {
        w + "SigLevel = Never"@
    } else if "LocalFileSigLevel"@.is_prefix_of(t) {
        w + "LocalFileSigLevel = Never"@
    } else {
        line
    }
}

/// The lines of `pacman.conf` as the Android runtime needs them.
pub open spec fn pacman_lines(ls: Seq<Seq<char>>) -> Seq<Seq<char>> {
    ls.map_values(|l: Seq<char>| pacman_line(l))
}

/// The new text of `pacman.conf`, or nothing where no line has to change.
pub open spec fn pacman_conf(content: Seq<char>) -> Option<Seq<char>> {
    let ls = text::lines(content);
    if pacman_lines(ls) == ls {
        None
    } else {
        Some(text::file_text(pacman_lines(ls)))
    }
}

/// What the user is told first.
pub open spec fn pacman_notice() -> NoticeView {
    message::progress("Configuring pacman for Android runtime..."@)
}

/// The steps: write the file where it has to change, and create the directories of the package
/// manager.
pub open spec fn pacman_steps(content: Seq<char>) -> Seq<StepView> {
    (match pacman_conf(content) {
        Some(updated) => seq![
            plan::write_or(
                PACMAN_CONF@,
                updated,
                "Failed to update pacman configuration for Android"@,
            ),
        ],
        None => Seq::empty(),
    }) + seq![
        plan::create_dir_or("var/lib/pacman/sync"@, "Failed to create pacman sync directory"@),
        plan::create_dir_or(
            "var/cache/pacman/pkg"@,
            "Failed to create pacman package cache directory"@,
        ),
        plan::try_set_mode(0o755, "var/lib/pacman/sync"@),
        plan::try_set_mode(0o755, "var/cache/pacman/pkg"@),
    ]
}

/// A line as the Android runtime needs it.
fn convert_line(line: &str) -> (r: String)
    ensures
        r@ == pacman_line(line@),
{
    let raw = text::to_chars(line);
    let cs: &[char] = raw.as_slice();
    let t = text::trimmed_start(cs);
    let mut r = String::new();
    text::push_chars(&mut r, text::leading_white(cs));
    if text::starts_with(t, "DownloadUser") {
        r.append("# ");
        text::push_chars(&mut r, t);
    } else if text::starts_with(t, "ParallelDownloads") {
        r.append("ParallelDownloads = 1");
    } else if text::starts_with(t, "SigLevel") {
        r.append("SigLevel = Never");
    } else if text::starts_with(t, "LocalFileSigLevel") {
        r.append("LocalFileSigLevel = Never");
    } else {
        text::push_chars(&mut r, t);
        proof {
            facts::lemma_white_prefix(line@);
        }
    }
    assert(r@ =~= pacman_line(line@));
    r
}

/// The new text of `pacman.conf`, or `None` where no line has to change.
pub fn rewrite_pacman_conf(content: &str) -> (r: Option<String>)
    ensures
        match r {
            Some(updated) => pacman_conf(content@) == Some(updated@),
            None => pacman_conf(content@) is None,
        },
{
    let ls = text::split_lines(content);
    let ghost all = text::texts(ls@);
    let mut changed: bool = false;
    let mut out: Vec<String> = Vec::new();
    let mut i: usize = 0;
    assert(pacman_lines(all).take(0) =~= all.take(0));
    while i < ls.len()
        invariant
            i <= ls.len(),
            all == text::texts(ls@),
            text::texts(out@) == pacman_lines(all).take(i as int),
            changed == (pacman_lines(all).take(i as int) != all.take(i as int)),
        decreases ls.len() - i,
    {
        let ghost prior = out@;
        let line = convert_line(ls[i].as_str());
        if !text::same_text(line.as_str(), ls[i].as_str()) {
            changed = true;
        }
        out.push(line);
        proof {
            assert(text::texts(out@) =~= text::texts(prior).push(line@));
            let a = pacman_lines(all).take(i as int);
            let b = all.take(i as int);
            let a1 = pacman_lines(all).take(i + 1);
            let b1 = all.take(i + 1);
            assert(a1 =~= a.push(line@));
            assert(b1 =~= b.push(all[i as int]));
            if a1 == b1 {
                assert(a1.drop_last() =~= a);
                assert(b1.drop_last() =~= b);
                assert(a1.last() == b1.last());
            }
        }
        i += 1;
    }
    assert(all.take(i as int) =~= all);
    assert(pacman_lines(all).take(i as int) =~= pacman_lines(all));
    if changed {
        Some(text::lines_to_file(&out))
    } else {
        None
    }
}

/// What the user is told before `pacman.conf` is read.
pub fn announce_pacman() -> (r: Notice)
    ensures
        r@ == pacman_notice(),
{
    message::emit_progress("Configuring pacman for Android runtime...".to_owned())
}

/// The steps that make the package manager work on Android, given the text of `pacman.conf`.
pub fn configure_pacman_for_android(content: &str) -> (r: Vec<Step>)
    ensures
        plan::step_views(r@) == pacman_steps(content@),
{
    let mut steps: Vec<Step> = Vec::new();
    assert(plan::step_views(steps@) =~= Seq::<StepView>::empty());
    if let Some(updated) = rewrite_pacman_conf(content) {
        plan::push_write_or(
            &mut steps,
            PACMAN_CONF,
            updated.as_str(),
            "Failed to update pacman configuration for Android",
        );
    }
    plan::push_create_dir_or(
        &mut steps,
        "var/lib/pacman/sync",
        "Failed to create pacman sync directory",
    );
    plan::push_create_dir_or(
        &mut steps,
        "var/cache/pacman/pkg",
        "Failed to create pacman package cache directory",
    );
    plan::push_try_set_mode(&mut steps, 0o755, "var/lib/pacman/sync");
    plan::push_try_set_mode(&mut steps, 0o755, "var/cache/pacman/pkg");
    assert(plan::step_views(steps@) =~= pacman_steps(content@));
    steps
}

/// What there is to do for the package manager, given the text of `pacman.conf` where it exists.
pub open spec fn pacman_plan(content: Option<Seq<char>>) -> Option<StagePlanView> {
    match content {
        Some(text) => Some(StagePlanView { notice: pacman_notice(), steps: pacman_steps(text) }),
        None => None,
    }
}

/// What there is to say and to do to make the package manager work on Android, given the text of
/// `pacman.conf`, or `None` where there is no such file.
pub fn pacman_stage(content: Option<&str>) -> (r: Option<StagePlan>)
    ensures
        plan::opt_plan(r) == pacman_plan(text::opt_str(content)),
{
    match content {
        Some(text) => Some(
            StagePlan { notice: announce_pacman(), steps: configure_pacman_for_android(text) },
        ),
        None => None,
    }
}

/// The directives that a line can start with.
proof fn lemma_directives(t: Seq<char>)
    requires
        t.len() == 0 || (t[0] != 'D' && t[0] != 'P' && t[0] != 'S' && t[0] != 'L'),
    ensures
        !"DownloadUser"@.is_prefix_of(t),
        !"ParallelDownloads"@.is_prefix_of(t),
        !"SigLevel"@.is_prefix_of(t),
        !"LocalFileSigLevel"@.is_prefix_of(t),
{
    reveal_strlit("DownloadUser");
    reveal_strlit("ParallelDownloads");
    reveal_strlit("SigLevel");
    reveal_strlit("LocalFileSigLevel");
    lemma_prefix_first("DownloadUser"@, t);
    lemma_prefix_first("ParallelDownloads"@, t);
    lemma_prefix_first("SigLevel"@, t);
    lemma_prefix_first("LocalFileSigLevel"@, t);
}

/// A text starts with the first character of what it starts with.
proof fn lemma_prefix_first(p: Seq<char>, t: Seq<char>)
    requires
        p.len() > 0,
    ensures
        p.is_prefix_of(t) ==> t.len() > 0 && t[0] == p[0],
{
    if p.is_prefix_of(t) {
        assert(t.subrange(0, p.len() as int)[0] == t[0]);
    }
}

/// A longer text starts with what its first part starts with.
proof fn lemma_prefix_push(p: Seq<char>, t: Seq<char>, c: char)
    requires
        p.is_prefix_of(t),
    ensures
        p.is_prefix_of(t.push(c)),
{
    assert(t.push(c).subrange(0, p.len() as int) =~= t.subrange(0, p.len() as int));
}

/// A line that allows one download at a time stays as it is.
proof fn lemma_parallel(w: Seq<char>)
    requires
        facts::all_white(w),
        facts::one_line(w),
    ensures
        facts::one_line(w + "ParallelDownloads = 1"@),
        text::strip_cr(w + "ParallelDownloads = 1"@) == w + "ParallelDownloads = 1"@,
        pacman_line(w + "ParallelDownloads = 1"@) == w + "ParallelDownloads = 1"@,
{
    reveal_strlit("ParallelDownloads");
    reveal_strlit("ParallelDownloads = 1");
    reveal_strlit("DownloadUser");
    lemma_fixed(w, "ParallelDownloads = 1"@);
    assert("ParallelDownloads = 1"@.subrange(0, 17) =~= "ParallelDownloads"@);
    lemma_prefix_first("DownloadUser"@, "ParallelDownloads = 1"@);
}

/// A line that asks for no signatures stays as it is.
proof fn lemma_sig_level(w: Seq<char>)
    requires
        facts::all_white(w),
        facts::one_line(w),
    ensures
        facts::one_line(w + "SigLevel = Never"@),
        text::strip_cr(w + "SigLevel = Never"@) == w + "SigLevel = Never"@,
        pacman_line(w + "SigLevel = Never"@) == w + "SigLevel = Never"@,
{
    reveal_strlit("SigLevel");
    reveal_strlit("SigLevel = Never");
    reveal_strlit("DownloadUser");
    reveal_strlit("ParallelDownloads");
    lemma_fixed(w, "SigLevel = Never"@);
    assert("SigLevel = Never"@.subrange(0, 8) =~= "SigLevel"@);
    lemma_prefix_first("DownloadUser"@, "SigLevel = Never"@);
    lemma_prefix_first("ParallelDownloads"@, "SigLevel = Never"@);
}

/// A line that asks for no signatures of local files stays as it is.
proof fn lemma_local_sig_level(w: Seq<char>)
    requires
        facts::all_white(w),
        facts::one_line(w),
    ensures
        facts::one_line(w + "LocalFileSigLevel = Never"@),
        text::strip_cr(w + "LocalFileSigLevel = Never"@) == w + "LocalFileSigLevel = Never"@,
        pacman_line(w + "LocalFileSigLevel = Never"@) == w + "LocalFileSigLevel = Never"@,
{
    reveal_strlit("LocalFileSigLevel");
    reveal_strlit("LocalFileSigLevel = Never");
    reveal_strlit("DownloadUser");
    reveal_strlit("ParallelDownloads");
    reveal_strlit("SigLevel");
    lemma_fixed(w, "LocalFileSigLevel = Never"@);
    assert("LocalFileSigLevel = Never"@.subrange(0, 17) =~= "LocalFileSigLevel"@);
    lemma_prefix_first("DownloadUser"@, "LocalFileSigLevel = Never"@);
    lemma_prefix_first("ParallelDownloads"@, "LocalFileSigLevel = Never"@);
    lemma_prefix_first("SigLevel"@, "LocalFileSigLevel = Never"@);
}

/// A line without a download user stays as it is.
proof fn lemma_download_user(w: Seq<char>, t: Seq<char>)
    requires
        facts::all_white(w),
        facts::one_line(w),
        facts::one_line(t),
    ensures
        facts::one_line(w + "# "@ + t),
        pacman_line(text::strip_cr(w + "# "@ + t)) == text::strip_cr(w + "# "@ + t),
{
    reveal_strlit("# ");
    let line = w + "# "@ + t;
    let tail = "# "@ + t;
    let cut = text::strip_cr(tail);
    assert(line =~= w + tail);
    assert(text::strip_cr(line) =~= w + cut);
    assert(cut[0] == '#');
    facts::lemma_indent(w, cut);
    lemma_directives(cut);
    lemma_one_line(w, "# "@, t);
}

/// A converted line, as it is read back, is converted to itself.
proof fn lemma_line_again(line: Seq<char>)
    requires
        facts::one_line(line),
    ensures
        facts::one_line(pacman_line(line)),
        pacman_line(text::strip_cr(pacman_line(line))) == text::strip_cr(pacman_line(line)),
{
    let t = text::trim_start(line);
    let w = text::indent(line);
    facts::lemma_white_prefix(line);
    let s = text::strip_cr(pacman_line(line));
    assert(!w.contains('\n') && !t.contains('\n')) by {
        if w.contains('\n') {
            let i = choose|i: int| 0 <= i < w.len() && w[i] == '\n';
            assert(line[i] == '\n');
        }
        if t.contains('\n') {
            let i = choose|i: int| 0 <= i < t.len() && t[i] == '\n';
            assert(line[w.len() + i] == '\n');
        }
    }
    if "DownloadUser"@.is_prefix_of(t) {
        lemma_download_user(w, t);
    } else if "ParallelDownloads"@.is_prefix_of(t) {
        lemma_parallel(w);
    } else if "SigLevel"@.is_prefix_of(t) {
        lemma_sig_level(w);
    } else if "LocalFileSigLevel"@.is_prefix_of(t) {
        lemma_local_sig_level(w);
    } else if s != line {
        facts::lemma_strip_cr(line);
        lemma_plain_line(s);
    }
}

/// No line feed in the parts, none in the whole.
proof fn lemma_one_line(a: Seq<char>, b: Seq<char>, c: Seq<char>)
    requires
        facts::one_line(a),
        facts::one_line(b),
        facts::one_line(c),
    ensures
        facts::one_line(a + b + c),
        facts::one_line(a + b),
{
    let s = a + b + c;
    if s.contains('\n') {
        let i = choose|i: int| 0 <= i < s.len() && s[i] == '\n';
        if i < a.len() {
            assert(a[i] == '\n');
        } else if i < a.len() + b.len() {
            assert(b[i - a.len()] == '\n');
        } else {
            assert(c[i - a.len() - b.len()] == '\n');
        }
    }
    if (a + b).contains('\n') {
        let i = choose|i: int| 0 <= i < (a + b).len() && (a + b)[i] == '\n';
        if i < a.len() {
            assert(a[i] == '\n');
        } else {
            assert(b[i - a.len()] == '\n');
        }
    }
}

/// What is read from a line with a fixed setting.
proof fn lemma_fixed(w: Seq<char>, v: Seq<char>)
    requires
        facts::all_white(w),
        facts::one_line(w),
        v.len() > 0,
        facts::clean(v),
        facts::one_line(v),
    ensures
        text::strip_cr(w + v) == w + v,
        text::indent(w + v) == w,
        text::trim_start(w + v) == v,
        facts::one_line(w + v),
{
    facts::lemma_indent(w, v);
    assert((w + v).last() == v.last());
    lemma_one_line(w, v, Seq::empty());
}

/// A line that starts with no directive starts with none without the carriage return at its end.
proof fn lemma_plain_line(s: Seq<char>)
    requires
        pacman_line(s.push('\r')) == s.push('\r'),
        !"DownloadUser"@.is_prefix_of(text::trim_start(s.push('\r'))),
        !"ParallelDownloads"@.is_prefix_of(text::trim_start(s.push('\r'))),
        !"SigLevel"@.is_prefix_of(text::trim_start(s.push('\r'))),
        !"LocalFileSigLevel"@.is_prefix_of(text::trim_start(s.push('\r'))),
    ensures
        pacman_line(s) == s,
{
    let w = text::indent(s);
    let t = text::trim_start(s);
    facts::lemma_white_prefix(s);
    if t.len() == 0 {
        lemma_directives(t);
    } else {
        assert(s.push('\r') =~= w + t.push('\r'));
        assert(t.push('\r')[0] == t[0]);
        facts::lemma_indent(w, t.push('\r'));
        if "DownloadUser"@.is_prefix_of(t) {
            lemma_prefix_push("DownloadUser"@, t, '\r');
        }
        if "ParallelDownloads"@.is_prefix_of(t) {
            lemma_prefix_push("ParallelDownloads"@, t, '\r');
        }
        if "SigLevel"@.is_prefix_of(t) {
            lemma_prefix_push("SigLevel"@, t, '\r');
        }
        if "LocalFileSigLevel"@.is_prefix_of(t) {
            lemma_prefix_push("LocalFileSigLevel"@, t, '\r');
        }
    }
}

/// A configuration that was rewritten needs no second rewriting.
pub proof fn law_pacman_twice(content: Seq<char>)
    ensures
        pacman_conf(content) matches Some(updated) ==> pacman_conf(updated) is None,
{
    let ls = text::lines(content);
    let o = pacman_lines(ls);
    facts::lemma_lines_one_line(content);
    if o != ls {
        assert(ls.len() > 0) by {
            if ls.len() == 0 {
                assert(o =~= ls);
            }
        }
        assert forall|i: int| 0 <= i < o.len() implies facts::one_line(#[trigger] o[i]) by {
            lemma_line_again(ls[i]);
        }
        facts::lemma_lines_of_file(o);
        let r = text::lines(text::file_text(o));
        assert forall|i: int| 0 <= i < r.len() implies pacman_line(#[trigger] r[i]) == r[i] by {
            lemma_line_again(ls[i]);
        }
        assert(pacman_lines(r) =~= r);
    }
}

} // verus!
