//! What the stages leave behind: which files hold what, which directories there are, and what is
//! allowed to fail.

use crate::decimal;
use crate::firefox;
use crate::ini;
use crate::kv;
use crate::lxqt;
use crate::message;
use crate::message::{MessageView, NoticeView, OnErrorView};
use crate::openbox;
use crate::plan;
use crate::plan::{Step, StepOpView, StepView};
use crate::sysdata;
use crate::text;
use crate::theme;
use vstd::prelude::*;

verus! {

/// What the files hold after the steps, where none of them fails.
pub open spec fn files_after(
    files: Map<Seq<char>, Seq<char>>,
    steps: Seq<StepView>,
) -> Map<Seq<char>, Seq<char>>
    decreases steps.len(),
{
    if steps.len() == 0 {
        files
    } else {
        let before = files_after(files, steps.drop_last());
        match steps.last().op {
            StepOpView::Write { path, content } => before.insert(path, content),
            _ => before,
        }
    }
}

/// The modes that the command `chmod` was given after the steps, and those that were set.
pub open spec fn modes_after(
    modes: Map<Seq<char>, Seq<char>>,
    steps: Seq<StepView>,
) -> Map<Seq<char>, Seq<char>>
    decreases steps.len(),
{
    if steps.len() == 0 {
        modes
    } else {
        let before = modes_after(modes, steps.drop_last());
        match steps.last().op {
            StepOpView::Chmod { mode, path } => before.insert(path, mode),
            _ => before,
        }
    }
}

/// The directories that the steps make.
pub open spec fn dirs_after(dirs: Set<Seq<char>>, steps: Seq<StepView>) -> Set<Seq<char>>
    decreases steps.len(),
{
    if steps.len() == 0 {
        dirs
    } else {
        let before = dirs_after(dirs, steps.drop_last());
        match steps.last().op {
            StepOpView::CreateDir { path } => before.insert(path),
            _ => before,
        }
    }
}

/// The messages that the steps send.
pub open spec fn messages_of(steps: Seq<StepView>) -> Seq<MessageView>
    decreases steps.len(),
{
    if steps.len() == 0 {
        Seq::empty()
    } else {
        let before = messages_of(steps.drop_last());
        match steps.last().op {
            StepOpView::Send(message) => before.push(message),
            _ => before,
        }
    }
}

/// Notices say what they are made to say, and tell what becomes of the stage when they are lost.
pub proof fn law_notices(t: Seq<char>, failure: Seq<char>)
    ensures
        message::progress(t) == (NoticeView {
            message: MessageView::Progress(t),
            on_lost: OnErrorView::Ignore,
        }),
        message::progress_or(t, failure) == (NoticeView {
            message: MessageView::Progress(t),
            on_lost: OnErrorView::Abort(failure),
        }),
        message::error(t) == (NoticeView {
            message: MessageView::Error(t),
            on_lost: OnErrorView::Ignore,
        }),
{
}

/// Steps do what they are made to do; those that may fail are told apart from those that may not.
pub proof fn law_steps(
    path: Seq<char>,
    t: Seq<char>,
    failure: Seq<char>,
    bits: u32,
    notice: NoticeView,
)
    ensures
        plan::notify(notice) == (StepView {
            op: StepOpView::Send(notice.message),
            on_error: notice.on_lost,
        }),
        plan::try_create_dir(path) == (StepView {
            op: StepOpView::CreateDir { path },
            on_error: OnErrorView::Ignore,
        }),
        plan::create_dir_or(path, failure) == (StepView {
            op: StepOpView::CreateDir { path },
            on_error: OnErrorView::Abort(failure),
        }),
        plan::try_chmod(t, path) == (StepView {
            op: StepOpView::Chmod { mode: t, path },
            on_error: OnErrorView::Ignore,
        }),
        plan::try_set_mode(bits, path) == (StepView {
            op: StepOpView::SetMode { bits, path },
            on_error: OnErrorView::Ignore,
        }),
        plan::try_write(path, t) == (StepView {
            op: StepOpView::Write { path, content: t },
            on_error: OnErrorView::Ignore,
        }),
        plan::write_or(path, t, failure) == (StepView {
            op: StepOpView::Write { path, content: t },
            on_error: OnErrorView::Abort(failure),
        }),
{
}

/// The contents of a list of steps are those of each in turn.
pub proof fn law_step_contents(steps: Seq<Step>, i: int)
    ensures
        plan::step_views(steps).len() == steps.len(),
        0 <= i < steps.len() ==> plan::step_views(steps)[i] == steps[i]@,
{
}

/// The contents of what may be missing are missing with it.
pub proof fn law_optional_contents(
    a: String,
    b: &str,
    steps: Vec<Step>,
    stage: plan::StagePlan,
)
    ensures
        openbox::opt_text(Some(a)) == Some(a@),
        openbox::opt_text(None) is None,
        text::opt_str(Some(b)) == Some(b@),
        text::opt_str(None) is None,
        sysdata::opt_steps(Some(steps)) == Some(plan::step_views(steps@)),
        sysdata::opt_steps(None) is None,
        plan::opt_plan(Some(stage)) == Some(
            plan::StagePlanView { notice: stage.notice@, steps: plan::step_views(stage.steps@) },
        ),
        plan::opt_plan(None) is None,
{
}

/// What one more step adds.
proof fn lemma_push(
    files: Map<Seq<char>, Seq<char>>,
    modes: Map<Seq<char>, Seq<char>>,
    dirs: Set<Seq<char>>,
    steps: Seq<StepView>,
    step: StepView,
)
    ensures
        files_after(files, steps.push(step)) == (match step.op {
            StepOpView::Write { path, content } => files_after(files, steps).insert(path, content),
            _ => files_after(files, steps),
        }),
        modes_after(modes, steps.push(step)) == (match step.op {
            StepOpView::Chmod { mode, path } => modes_after(modes, steps).insert(path, mode),
            _ => modes_after(modes, steps),
        }),
        dirs_after(dirs, steps.push(step)) == (match step.op {
            StepOpView::CreateDir { path } => dirs_after(dirs, steps).insert(path),
            _ => dirs_after(dirs, steps),
        }),
        messages_of(steps.push(step)) == (match step.op {
            StepOpView::Send(message) => messages_of(steps).push(message),
            _ => messages_of(steps),
        }),
{
    assert(steps.push(step).drop_last() =~= steps);
}

/// The files of a patched root file system, written out; every other file stays as it was.
pub open spec fn patched_files(files: Map<Seq<char>, Seq<char>>) -> Map<Seq<char>, Seq<char>> {
    files.insert(
        "proc/.version"@,
        "Linux version 5.19.0-76051900-faked (udroid@RandomCoder.org) #202207312230~1660780566~22.04~9d60db1 SMP PREEMPT_DYNAMIC Thu A\n"@,
    ).insert(
        "proc/.uptime"@,
        "7857.09 54258.46\n"@,
    ).insert(
        "proc/.loadavg"@,
        "16.98 17.85 18.62 1/4050 18463\n"@,
    ).insert(
        "proc/.stat"@,
        "cpu  240441 136982 262130 1546780 8977 0 12736 0 0 0\ncpu0 41348 30244 47145 148451 681 0 4488 0 0 0\nintr 15450380 0 0 0 0 0 0 0 675060 660856 664695 670871 510571 494303 405240 318695 0 0 0 0 0 0 0 0 0 0 0 0 0 0 0 0 0 0 0 0 0 0 0 0 0 0 0 0 0 0 0 0 0 0 0 0 0 0 0 0 0 0 0 0 0 55049 0 0 0 0 0 0 0 0 0 0 0 0 0 0 0 0 0 0 0 0 0 0 915 0 0 24484 0 3948 0 3948 0 0 14320 0 0 0 0 0 14320 0 0 0 188358 0 0 2 0 0 0 0 0 0 0 0 0 0 0 0 14 0 0 0 1091 0 1145821 0 0 0 2064 5105 0 2 2978 143260 36588 175214 2310 144623 667 722008 0 0 0 7060 0 0 19562 19561 19567 19564 20665 20665 20048 20045 24678 20666 20665 0 4248 0 0 74320 68 143602 21527 0 142 0 266 0 26 0 0 0 0 2078 70 0 0 0 1 152 0 0 0 0 0 0 0 0 0 0 0 0 0 0 0 0 0 0 0 0 0 0 0 0 0 0 0 0 0 0 0 0 0 0 0 0 0 0 0 0 0 0 0 0 0 0 0 0 0 0 0 0 0 0 0 0 0 0 0 0 0 0 0 0 0 0 0 0 0 0 0 0 0 0 0 0 0 0 0 0 0 0 0 0 0 0 0 1 0 9160 0 0 1 51976 5 0 0 0 8028 0 0 0 1\nctxt 20705676\nbtime 1666933600\nprocesses 77409\nprocs_running 3\nprocs_blocked 0\nsoftirq 8877573 71 2578491 2414 766392 698255 0 14365 2439309 0 2378276\n"@,
    ).insert(
        "proc/.vmstat"@,
        "nr_free_pages 797479\nnr_zone_inactive_anon 1350842\nnr_zone_active_anon 5792\nnr_zone_inactive_file 452524\nnr_zone_active_file 1235888\nnr_zone_unevictable 40\nnr_zone_write_pending 21\nnr_mlock 40\nnr_bounce 0\nnr_zspages 0\nnr_free_cma 0\nnuma_hit 62193717\nnuma_miss 0\nnuma_foreign 0\nnuma_interleave 1685\nnuma_local 62193717\nnuma_other 0\nnr_inactive_anon 1350842\nnr_active_anon 5792\nnr_inactive_file 452524\nnr_active_file 1235888\nnr_unevictable 40\nnr_slab_reclaimable 90461\nnr_slab_unreclaimable 46994\nnr_isolated_anon 0\nnr_isolated_file 0\nworkingset_nodes 26540\nworkingset_refault_anon 30\nworkingset_refault_file 61857\nworkingset_activate_anon 29\nworkingset_activate_file 58699\nworkingset_restore_anon 8\nworkingset_restore_file 10680\nworkingset_nodereclaim 1792\nnr_anon_pages 1258098\nnr_mapped 336800\nnr_file_pages 1787020\nnr_dirty 21\nnr_writeback 0\nnr_writeback_temp 0\nnr_shmem 100931\nnr_shmem_hugepages 0\nnr_shmem_pmdmapped 0\nnr_file_hugepages 0\nnr_file_pmdmapped 0\nnr_anon_transparent_hugepages 0\nnr_vmscan_write 199\nnr_vmscan_immediate_reclaim 64\nnr_dirtied 3125493\nnr_written 2724601\nnr_throttled_written 0\nnr_kernel_misc_reclaimable 0\nnr_foll_pin_acquired 0\nnr_foll_pin_released 0\nnr_kernel_stack 24176\nnr_page_table_pages 15826\nnr_swapcached 47\npgpromote_success 0\nnr_dirty_threshold 65536\nnr_dirty_background_threshold 32768\npgpgin 3980696\npgpgout 11524509\npswpin 30\npswpout 199\npgalloc_dma 1\npgalloc_dma32 3665609\npgalloc_normal 58548953\npgalloc_movable 0\nallocstall_dma 0\nallocstall_dma32 0\nallocstall_normal 83\nallocstall_movable 24\npgskip_dma 0\npgskip_dma32 0\npgskip_normal 0\npgskip_movable 0\npgfree 63437677\npgactivate 2588607\npgdeactivate 289583\npglazyfree 28031\npgfault 41043642\npgmajfault 17041\npglazyfreed 0\npgrefill 318961\npgreuse 4096458\npgsteal_kswapd 1325091\npgsteal_direct 21698\npgdemote_kswapd 0\npgdemote_direct 0\npgscan_kswapd 1589709\npgscan_direct 23668\npgscan_direct_throttle 0\npgscan_anon 55038\npgscan_file 1558339\npgsteal_anon 194\npgsteal_file 1346595\nzone_reclaim_failed 0\npginodesteal 0\nslabs_scanned 327296\nkswapd_inodesteal 1010\nkswapd_low_wmark_hit_quickly 276\nkswapd_high_wmark_hit_quickly 38\npageoutrun 474\npgrotated 436\ndrop_pagecache 0\ndrop_slab 0\noom_kill 0\nnuma_pte_updates 0\nnuma_huge_pte_updates 0\nnuma_hint_faults 0\nnuma_hint_faults_local 0\nnuma_pages_migrated 0\npgmigrate_success 345763\npgmigrate_fail 90\nthp_migration_success 0\nthp_migration_fail 0\nthp_migration_split 0\ncompact_migrate_scanned 2693820\ncompact_free_scanned 14772930\ncompact_isolated 704787\ncompact_stall 0\ncompact_fail 0\ncompact_success 0\ncompact_daemon_wake 290\ncompact_daemon_migrate_scanned 86861\ncompact_daemon_free_scanned 797667\nhtlb_buddy_alloc_success 0\nhtlb_buddy_alloc_fail 0\nunevictable_pgs_culled 369346\nunevictable_pgs_scanned 0\nunevictable_pgs_rescued 271919\nunevictable_pgs_mlocked 274444\nunevictable_pgs_munlocked 274400\nunevictable_pgs_cleared 0\nunevictable_pgs_stranded 4\nthp_fault_alloc 1\nthp_fault_fallback 0\nthp_fault_fallback_charge 0\nthp_collapse_alloc 0\nthp_collapse_alloc_failed 0\nthp_file_alloc 0\nthp_file_fallback 0\nthp_file_fallback_charge 0\nthp_file_mapped 0\nthp_split_page 0\nthp_split_page_failed 0\nthp_deferred_split_page 0\nthp_split_pmd 0\nthp_scan_exceed_none_pte 0\nthp_scan_exceed_swap_pte 0\nthp_scan_exceed_share_pte 0\nthp_split_pud 0\nthp_zero_page_alloc 0\nthp_zero_page_alloc_failed 0\nthp_swpout 0\nthp_swpout_fallback 0\nballoon_inflate 0\nballoon_deflate 0\nballoon_migrate 0\nswap_ra 21\nswap_ra_hit 7\nksm_swpin_copy 0\ncow_ksm 0\nzswpin 0\nzswpout 0\ndirect_map_level2_splits 409\ndirect_map_level3_splits 9\nnr_unstable 0\n"@,
    ).insert(
        "etc/hosts"@,
        "127.0.0.1 localhost\n127.0.0.1 localhost.localdomain\n127.0.0.1 local\n255.255.255.255 broadcasthost\n::1 localhost\n::1 ip6-localhost\n::1 ip6-loopback\nfe80::1%lo0 localhost\nff00::0 ip6-localnet\nff00::0 ip6-mcastprefix\nff02::1 ip6-allnodes\nff02::2 ip6-allrouters\nff02::3 ip6-allhosts\n"@,
    ).insert(
        "etc/resolv.conf"@,
        "nameserver 1.1.1.1\nnameserver 8.8.8.8\n"@,
    ).insert("etc/hosts.patched"@, "1\n"@)
}

/// After the patch the files hold what a patched root file system has to hold, and no other file is
/// touched; the directories are there; `proc` is the root user's own, and `sudo` runs as the root user
/// where it exists.
pub proof fn law_patch(
    files: Map<Seq<char>, Seq<char>>,
    modes: Map<Seq<char>, Seq<char>>,
    dirs: Set<Seq<char>>,
    sudo_exists: bool,
)
    ensures
        ({
            let steps = sysdata::patch_steps(sudo_exists);
            &&& files_after(files, steps) == patched_files(files)
            &&& dirs_after(dirs, steps) == dirs.insert("dev"@).insert("sys"@).insert("proc"@).insert(
                "dev/shm"@,
            )
            &&& modes_after(modes, steps) == (if sudo_exists {
                modes.insert("proc"@, "700"@).insert("usr/bin/sudo"@, "u+s"@)
            } else {
                modes.insert("proc"@, "700"@)
            })
            &&& messages_of(steps) == Seq::<MessageView>::empty()
        }),
{
    let steps = sysdata::patch_steps(sudo_exists);
    let s0 = Seq::<StepView>::empty();
    let s1 = s0.push(plan::try_create_dir("dev"@));
    lemma_push(files, modes, dirs, s0, plan::try_create_dir("dev"@));
    let s2 = s1.push(plan::try_create_dir("sys"@));
    lemma_push(files, modes, dirs, s1, plan::try_create_dir("sys"@));
    let s3 = s2.push(plan::try_create_dir("proc"@));
    lemma_push(files, modes, dirs, s2, plan::try_create_dir("proc"@));
    let s4 = s3.push(plan::try_create_dir("dev/shm"@));
    lemma_push(files, modes, dirs, s3, plan::try_create_dir("dev/shm"@));
    let s5 = s4.push(plan::try_chmod("700"@, "proc"@));
    lemma_push(files, modes, dirs, s4, plan::try_chmod("700"@, "proc"@));
    let s6 = s5.push(plan::try_write("proc/.version"@, sysdata::PATCHED_VERSION@));
    lemma_push(files, modes, dirs, s5, plan::try_write("proc/.version"@, sysdata::PATCHED_VERSION@));
    let s7 = s6.push(plan::try_write("proc/.uptime"@, sysdata::PATCHED_UPTIME@));
    lemma_push(files, modes, dirs, s6, plan::try_write("proc/.uptime"@, sysdata::PATCHED_UPTIME@));
    let s8 = s7.push(plan::try_write("proc/.loadavg"@, sysdata::PATCHED_LOADAVG@));
    lemma_push(files, modes, dirs, s7, plan::try_write("proc/.loadavg"@, sysdata::PATCHED_LOADAVG@));
    let s9 = s8.push(plan::try_write("proc/.stat"@, sysdata::PATCHED_STAT@));
    lemma_push(files, modes, dirs, s8, plan::try_write("proc/.stat"@, sysdata::PATCHED_STAT@));
    let s10 = s9.push(plan::try_write("proc/.vmstat"@, sysdata::PATCHED_VMSTAT@));
    lemma_push(files, modes, dirs, s9, plan::try_write("proc/.vmstat"@, sysdata::PATCHED_VMSTAT@));
    let s11 = s10.push(plan::try_write("etc/hosts"@, sysdata::PATCHED_HOSTS@));
    lemma_push(files, modes, dirs, s10, plan::try_write("etc/hosts"@, sysdata::PATCHED_HOSTS@));
    let s12 = s11.push(plan::try_write("etc/resolv.conf"@, sysdata::PATCHED_RESOLV_CONF@));
    lemma_push(files, modes, dirs, s11, plan::try_write("etc/resolv.conf"@, sysdata::PATCHED_RESOLV_CONF@));
    let chmod = plan::try_chmod("u+s"@, "usr/bin/sudo"@);
    let mark = plan::try_write("etc/hosts.patched"@, "1\n"@);
    lemma_push(files, modes, dirs, s12, chmod);
    lemma_push(files, modes, dirs, s12.push(chmod), mark);
    lemma_push(files, modes, dirs, s12, mark);
    if sudo_exists {
        assert(steps =~= s12.push(chmod).push(mark));
    } else {
        assert(steps =~= s12.push(mark));
    }
}

/// Nothing of the patch has to succeed for the rest to be tried, and the directories are made before
/// anything is written into them.
pub proof fn law_patch_goes_on(sudo_exists: bool, i: int, j: int)
    requires
        0 <= i < j < sysdata::patch_steps(sudo_exists).len(),
    ensures
        sysdata::patch_steps(sudo_exists)[i].on_error == OnErrorView::Ignore,
        sysdata::patch_steps(sudo_exists)[j].on_error == OnErrorView::Ignore,
        sysdata::patch_steps(sudo_exists)[i].op is Write || sysdata::patch_steps(
            sudo_exists,
        )[i].op is Chmod ==> !(sysdata::patch_steps(sudo_exists)[j].op is CreateDir),
        !(sysdata::patch_steps(sudo_exists)[i].op is SetMode),
        !(sysdata::patch_steps(sudo_exists)[j].op is SetMode),
{
    let steps = sysdata::patch_steps(sudo_exists);
    lemma_patch_step(sudo_exists, i);
    lemma_patch_step(sudo_exists, j);
}

/// The shape of each step of the patch.
proof fn lemma_patch_step(sudo_exists: bool, i: int)
    requires
        0 <= i < sysdata::patch_steps(sudo_exists).len(),
    ensures
        ({
            let step = sysdata::patch_steps(sudo_exists)[i];
            &&& step.on_error == OnErrorView::Ignore
            &&& i < 4 <==> step.op is CreateDir
            &&& step.op is CreateDir || step.op is Chmod || step.op is Write
        }),
{
    assert(i == 0 || i == 1 || i == 2 || i == 3 || i == 4 || i == 5 || i == 6 || i == 7 || i == 8
        || i == 9 || i == 10 || i == 11 || i == 12 || i == 13);
}

/// The root file system is patched where the mark does not tell that it was, and the user is told.
pub proof fn law_patch_stage(sudo_exists: bool)
    ensures
        sysdata::patch_stage(true, sudo_exists) is None,
        sysdata::patch_stage(false, sudo_exists) == Some(
            plan::StagePlanView {
                notice: NoticeView {
                    message: MessageView::Progress("Patching Ubuntu rootfs..."@),
                    on_lost: OnErrorView::Ignore,
                },
                steps: sysdata::patch_steps(sudo_exists),
            },
        ),
        sysdata::PATCHED_MARK@ == "etc/hosts.patched"@,
        sysdata::SUDO@ == "usr/bin/sudo"@,
{
}

/// The simulated files, written out; every other file stays as it was.
pub open spec fn simulated_files(files: Map<Seq<char>, Seq<char>>) -> Map<Seq<char>, Seq<char>> {
    files.insert(
        "proc/.loadavg"@,
        "0.12 0.07 0.02 2/165 765\n"@,
    ).insert(
        "proc/.stat"@,
        "cpu  1957 0 2877 93280 262 342 254 87 0 0\ncpu0 31 0 226 12027 82 10 4 9 0 0\n"@,
    ).insert(
        "proc/.uptime"@,
        "124.08 932.80\n"@,
    ).insert(
        "proc/.version"@,
        "Linux version 6.2.1 (proot@termux) (gcc (GCC) 12.2.1 20230201, GNU ld (GNU Binutils) 2.40) #1 SMP PREEMPT_DYNAMIC Wed, 01 Mar 2023 00:00:00 +0000\n"@,
    ).insert(
        "proc/.vmstat"@,
        "nr_free_pages 1743136\nnr_zone_inactive_anon 179281\nnr_zone_active_anon 7183\n"@,
    ).insert(
        "proc/.sysctl_entry_cap_last_cap"@,
        "40\n"@,
    ).insert(
        "proc/.sysctl_inotify_max_user_watches"@,
        "4096\n"@,
    )
}

/// After the simulation the files hold what the kernel would provide, and no other file is touched;
/// the directories are there, and are the root user's own; and the user was told.
pub proof fn law_simulation(
    files: Map<Seq<char>, Seq<char>>,
    modes: Map<Seq<char>, Seq<char>>,
    dirs: Set<Seq<char>>,
)
    ensures
        ({
            let steps = sysdata::sysdata_steps();
            &&& files_after(files, steps) == simulated_files(files)
            &&& dirs_after(dirs, steps) == dirs.insert("proc"@).insert("sys"@).insert("sys/.empty"@)
            &&& modes_after(modes, steps) == modes.insert("proc"@, "700"@).insert(
                "sys"@,
                "700"@,
            ).insert("sys/.empty"@, "700"@)
            &&& messages_of(steps) == seq![MessageView::Progress("Simulating Linux system data..."@)]
        }),
{
    let s0 = Seq::<StepView>::empty();
    let s1 = s0.push(plan::notify(
        message::progress_or("Simulating Linux system data..."@, "Failed to send log message"@),
    ));
    lemma_push(files, modes, dirs, s0, plan::notify(
        message::progress_or("Simulating Linux system data..."@, "Failed to send log message"@),
    ));
    let s2 = s1.push(plan::try_create_dir("proc"@));
    lemma_push(files, modes, dirs, s1, plan::try_create_dir("proc"@));
    let s3 = s2.push(plan::try_create_dir("sys"@));
    lemma_push(files, modes, dirs, s2, plan::try_create_dir("sys"@));
    let s4 = s3.push(plan::try_create_dir("sys/.empty"@));
    lemma_push(files, modes, dirs, s3, plan::try_create_dir("sys/.empty"@));
    let s5 = s4.push(plan::try_chmod("700"@, "proc"@));
    lemma_push(files, modes, dirs, s4, plan::try_chmod("700"@, "proc"@));
    let s6 = s5.push(plan::try_chmod("700"@, "sys"@));
    lemma_push(files, modes, dirs, s5, plan::try_chmod("700"@, "sys"@));
    let s7 = s6.push(plan::try_chmod("700"@, "sys/.empty"@));
    lemma_push(files, modes, dirs, s6, plan::try_chmod("700"@, "sys/.empty"@));
    let s8 = s7.push(sysdata::simulated_file_step(("proc/.loadavg"@, sysdata::SIMULATED_LOADAVG@)));
    lemma_push(files, modes, dirs, s7, sysdata::simulated_file_step(("proc/.loadavg"@, sysdata::SIMULATED_LOADAVG@)));
    let s9 = s8.push(sysdata::simulated_file_step(("proc/.stat"@, sysdata::SIMULATED_STAT@)));
    lemma_push(files, modes, dirs, s8, sysdata::simulated_file_step(("proc/.stat"@, sysdata::SIMULATED_STAT@)));
    let s10 = s9.push(sysdata::simulated_file_step(("proc/.uptime"@, sysdata::SIMULATED_UPTIME@)));
    lemma_push(files, modes, dirs, s9, sysdata::simulated_file_step(("proc/.uptime"@, sysdata::SIMULATED_UPTIME@)));
    let s11 = s10.push(sysdata::simulated_file_step(("proc/.version"@, sysdata::SIMULATED_VERSION@)));
    lemma_push(files, modes, dirs, s10, sysdata::simulated_file_step(("proc/.version"@, sysdata::SIMULATED_VERSION@)));
    let s12 = s11.push(sysdata::simulated_file_step(("proc/.vmstat"@, sysdata::SIMULATED_VMSTAT@)));
    lemma_push(files, modes, dirs, s11, sysdata::simulated_file_step(("proc/.vmstat"@, sysdata::SIMULATED_VMSTAT@)));
    let s13 = s12.push(sysdata::simulated_file_step(("proc/.sysctl_entry_cap_last_cap"@, sysdata::SIMULATED_CAP_LAST_CAP@)));
    lemma_push(files, modes, dirs, s12, sysdata::simulated_file_step(("proc/.sysctl_entry_cap_last_cap"@, sysdata::SIMULATED_CAP_LAST_CAP@)));
    let s14 = s13.push(sysdata::simulated_file_step(("proc/.sysctl_inotify_max_user_watches"@, sysdata::SIMULATED_MAX_USER_WATCHES@)));
    lemma_push(files, modes, dirs, s13, sysdata::simulated_file_step(("proc/.sysctl_inotify_max_user_watches"@, sysdata::SIMULATED_MAX_USER_WATCHES@)));
    assert(sysdata::sysdata_steps() =~= s14);
    assert(messages_of(s0) =~= Seq::<MessageView>::empty());
}

/// Every simulated file has to be written, and the user has to be told; nothing else of the simulation
/// has to succeed. The directories are made before anything is written into them.
pub proof fn law_simulation_failures(i: int)
    requires
        0 <= i < sysdata::sysdata_steps().len(),
    ensures
        ({
            let step = sysdata::sysdata_steps()[i];
            match step.op {
                StepOpView::Write { path, .. } => {
                    &&& step.on_error == OnErrorView::Abort(
                        "Permission denied while writing to "@ + path,
                    )
                    &&& i >= 7
                },
                StepOpView::Send(_) => {
                    &&& step.on_error == OnErrorView::Abort("Failed to send log message"@)
                    &&& i == 0
                },
                StepOpView::CreateDir { .. } => step.on_error == OnErrorView::Ignore && i < 4,
                StepOpView::Chmod { .. } => step.on_error == OnErrorView::Ignore && i < 7,
                StepOpView::SetMode { .. } => false,
            }
        }),
{
    assert(i == 0 || i == 1 || i == 2 || i == 3 || i == 4 || i == 5 || i == 6 || i == 7 || i == 8
        || i == 9 || i == 10 || i == 11 || i == 12 || i == 13);
}

/// The system data is simulated where the file that tells so does not exist.
pub proof fn law_simulation_stage()
    ensures
        sysdata::sysdata_stage(true) is None,
        sysdata::sysdata_stage(false) == Some(sysdata::sysdata_steps()),
        sysdata::VERSION_FILE@ == "proc/.version"@,
{
}

/// After the configuration of Firefox its two files hold what makes it run in the container, and no
/// other file is touched; their directories are there. All of it has to succeed.
pub proof fn law_firefox(
    files: Map<Seq<char>, Seq<char>>,
    modes: Map<Seq<char>, Seq<char>>,
    dirs: Set<Seq<char>>,
    root: Seq<char>,
)
    ensures
        ({
            let steps = firefox::firefox_steps(root);
            let dir = root + "/usr/lib/firefox"@;
            let pref = dir + "/defaults/pref"@;
            &&& files_after(files, steps) == files.insert(
                pref + "/autoconfig.js"@,
                "pref(\"general.config.filename\", \"localdesktop.cfg\");\npref(\"general.config.obscure_value\", 0);\n"@,
            ).insert(
                dir + "/localdesktop.cfg"@,
                "// Auto updated by Local Desktop on each startup, do not edit manually\ndefaultPref(\"media.cubeb.sandbox\", false);\ndefaultPref(\"security.sandbox.content.level\", 0);\n"@,
            )
            &&& dirs_after(dirs, steps) == dirs.insert(dir).insert(pref)
            &&& modes_after(modes, steps) == modes
            &&& messages_of(steps) == Seq::<MessageView>::empty()
            &&& steps.len() == 4
            &&& steps[0].on_error == OnErrorView::Abort("Failed to create Firefox root directory"@)
            &&& steps[1].on_error == OnErrorView::Abort("Failed to create Firefox pref directory"@)
            &&& steps[2].on_error == OnErrorView::Abort("Failed to write Firefox autoconfig.js"@)
            &&& steps[3].on_error == OnErrorView::Abort("Failed to write Firefox configuration"@)
            &&& steps[0].op is CreateDir && steps[1].op is CreateDir
            &&& steps[2].op is Write && steps[3].op is Write
        }),
{
    let steps = firefox::firefox_steps(root);
    let s0 = Seq::<StepView>::empty();
    let s1 = s0.push(steps[0]);
    let s2 = s1.push(steps[1]);
    let s3 = s2.push(steps[2]);
    lemma_push(files, modes, dirs, s0, steps[0]);
    lemma_push(files, modes, dirs, s1, steps[1]);
    lemma_push(files, modes, dirs, s2, steps[2]);
    lemma_push(files, modes, dirs, s3, steps[3]);
    assert(steps =~= s3.push(steps[3]));
}

/// The configuration file of Firefox begins with a comment, as Firefox asks for.
pub proof fn law_firefox_comment()
    ensures
        firefox::FIREFOX_CFG@.len() > 2,
        firefox::FIREFOX_CFG@[0] == '/',
        firefox::FIREFOX_CFG@[1] == '/',
{
    reveal_strlit(
        "// Auto updated by Local Desktop on each startup, do not edit manually\ndefaultPref(\"media.cubeb.sandbox\", false);\ndefaultPref(\"security.sandbox.content.level\", 0);\n",
    );
}

/// A theme stands in the directory of its name, and is looked for with the user first.
pub proof fn law_theme_files(base: Seq<char>, name: Seq<char>, user: Seq<char>, system: Option<Seq<char>>)
    ensures
        theme::theme_file(base, name) == base + name + "/openbox-3"@ + "/themerc"@,
        theme::theme_dir(base, name) == base + name + "/openbox-3"@,
        theme::first_file(Some(user), system) == Some(user),
        theme::first_file(None, system) == system,
{
}

/// What a scaled theme sets, in turn: both sides of the buttons and the height of the titles.
pub proof fn law_theme_text(content: Seq<char>, scale: int)
    ensures
        theme::theme_text(content, scale) == kv::kv_upsert(
            content,
            ':',
            seq![
                ("button.width"@, decimal::decimal(18 * scale)),
                ("button.height"@, decimal::decimal(18 * scale)),
                ("title.height"@, decimal::decimal(22 * scale)),
            ],
        ),
{
}

/// A theme that is there and not empty is written, scaled, to the user's own themes, and to no other
/// place; any other is left alone.
pub proof fn law_theme_steps(
    name: Seq<char>,
    scale: int,
    user: Option<Seq<char>>,
    system: Option<Seq<char>>,
)
    ensures
        ({
            let steps = theme::theme_steps(name, scale, user, system);
            let dir = "root/.themes/"@ + name + "/openbox-3"@;
            let source = if user is Some {
                user
            } else {
                system
            };
            match source {
                Some(content) => if content.len() > 0 {
                    steps == seq![
                        StepView {
                            op: StepOpView::CreateDir { path: dir },
                            on_error: OnErrorView::Ignore,
                        },
                        StepView {
                            op: StepOpView::Write {
                                path: dir + "/themerc"@,
                                content: theme::theme_text(content, scale),
                            },
                            on_error: OnErrorView::Abort("Failed to write openbox theme file"@),
                        },
                    ]
                } else {
                    steps == Seq::<StepView>::empty()
                },
                None => steps == Seq::<StepView>::empty(),
            }
        }),
{
}

/// The X resources get the resolution, and the session the scale and the window manager.
pub proof fn law_scaled_texts(content: Seq<char>, scale: int)
    ensures
        lxqt::xresources_text(content, scale) == kv::kv_upsert(
            content,
            ':',
            seq![("Xft.dpi"@, decimal::decimal(scale * 96))],
        ),
        lxqt::session_text(content, scale) == ini::updated_file(
            ini::updated_file(
                content,
                "Environment"@,
                seq![
                    ("GDK_SCALE"@, decimal::decimal(scale)),
                    ("QT_SCALE_FACTOR"@, decimal::decimal(scale)),
                ],
            ),
            "General"@,
            seq![("window_manager"@, "openbox"@)],
        ),
{
}

/// Scaling the desktop writes the X resources, the session and the file that hides the power
/// management, in this order, and `rc.xml` where there is one that is not empty; each file is written
/// into a directory that was made before, and every file has to be written.
pub proof fn law_scaling(
    scale: int,
    xresources: Seq<char>,
    session: Seq<char>,
    rc: Option<Seq<char>>,
)
    ensures
        ({
            let write = |path: Seq<char>, content: Seq<char>, failure: Seq<char>|
                StepView {
                    op: StepOpView::Write { path, content },
                    on_error: OnErrorView::Abort(failure),
                };
            let make = |path: Seq<char>|
                StepView { op: StepOpView::CreateDir { path }, on_error: OnErrorView::Ignore };
            lxqt::lxqt_steps(scale, xresources, session, rc) == seq![
                write(
                    "root/.Xresources"@,
                    lxqt::xresources_text(xresources, scale),
                    "Failed to write key/value file"@,
                ),
                make("root/.config/lxqt"@),
                write(
                    "root/.config/lxqt/session.conf"@,
                    lxqt::session_text(session, scale),
                    "Failed to write session.conf"@,
                ),
                make("root/.config/autostart"@),
                write(
                    "root/.config/autostart/lxqt-powermanagement.desktop"@,
                    "[Desktop Entry]\nType=Application\nName=LXQt Power Management\nHidden=true\n"@,
                    "Failed to disable lxqt-powermanagement autostart"@,
                ),
            ] + (if rc is Some && rc.unwrap().len() > 0 {
                seq![
                    make("root/.config/openbox"@),
                    write(
                        "root/.config/openbox/rc.xml"@,
                        openbox::rc_file(rc.unwrap(), scale, "DejaVu Sans"@),
                        "Failed to write openbox rc.xml"@,
                    ),
                ]
            } else {
                Seq::empty()
            })
        }),
        lxqt::SYSTEM_RC@ == "etc/xdg/openbox/rc.xml"@,
{
}

/// The theme that is scaled next is the one that a `rc.xml` which is not empty chooses.
pub proof fn law_next_theme(content: Seq<char>)
    ensures
        lxqt::next_theme(None) is None,
        content.len() == 0 ==> lxqt::next_theme(Some(content)) is None,
        content.len() > 0 ==> lxqt::next_theme(Some(content)) == openbox::rc_theme(content),
{
}

} // verus!
