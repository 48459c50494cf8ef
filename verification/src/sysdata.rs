//! Files that stand for what the kernel would provide.

use crate::message;
use crate::message::NoticeView;
use crate::plan;
use crate::plan::{StagePlan, StagePlanView, Step, StepOpView, StepView};
use vstd::prelude::*;

verus! {

/// The file that tells that the system data was simulated.
pub const VERSION_FILE: &'static str = "proc/.version";

/// The file that tells that the root file system was patched.
pub const PATCHED_MARK: &'static str = "etc/hosts.patched";

/// The command that has to run as the root user.
pub const SUDO: &'static str = "usr/bin/sudo";

/// The contents of `proc/.loadavg` before the root file system is patched.
pub const SIMULATED_LOADAVG: &'static str =
    "0.12 0.07 0.02 2/165 765\n";

/// The contents of `proc/.stat` before the root file system is patched.
pub const SIMULATED_STAT: &'static str =
    "cpu  1957 0 2877 93280 262 342 254 87 0 0\ncpu0 31 0 226 12027 82 10 4 9 0 0\n";

/// The contents of `proc/.uptime` before the root file system is patched.
pub const SIMULATED_UPTIME: &'static str =
    "124.08 932.80\n";

/// The contents of `proc/.version` before the root file system is patched.
pub const SIMULATED_VERSION: &'static str =
    "Linux version 6.2.1 (proot@termux) (gcc (GCC) 12.2.1 20230201, GNU ld (GNU Binutils) 2.40) #1 SMP PREEMPT_DYNAMIC Wed, 01 Mar 2023 00:00:00 +0000\n";

/// The contents of `proc/.vmstat` before the root file system is patched.
pub const SIMULATED_VMSTAT: &'static str =
    "nr_free_pages 1743136\nnr_zone_inactive_anon 179281\nnr_zone_active_anon 7183\n";

/// The contents of `proc/.sysctl_entry_cap_last_cap` before the root file system is patched.
pub const SIMULATED_CAP_LAST_CAP: &'static str =
    "40\n";

/// The contents of `proc/.sysctl_inotify_max_user_watches` before the root file system is patched.
pub const SIMULATED_MAX_USER_WATCHES: &'static str =
    "4096\n";

/// The contents of `proc/.version` in a patched root file system.
pub const PATCHED_VERSION: &'static str =
    "Linux version 5.19.0-76051900-faked (udroid@RandomCoder.org) #202207312230~1660780566~22.04~9d60db1 SMP PREEMPT_DYNAMIC Thu A\n";

/// The contents of `proc/.uptime` in a patched root file system.
pub const PATCHED_UPTIME: &'static str =
    "7857.09 54258.46\n";

/// The contents of `proc/.loadavg` in a patched root file system.
pub const PATCHED_LOADAVG: &'static str =
    "16.98 17.85 18.62 1/4050 18463\n";

/// The contents of `proc/.stat` in a patched root file system.
pub const PATCHED_STAT: &'static str =
    "cpu  240441 136982 262130 1546780 8977 0 12736 0 0 0\ncpu0 41348 30244 47145 148451 681 0 4488 0 0 0\nintr 15450380 0 0 0 0 0 0 0 675060 660856 664695 670871 510571 494303 405240 318695 0 0 0 0 0 0 0 0 0 0 0 0 0 0 0 0 0 0 0 0 0 0 0 0 0 0 0 0 0 0 0 0 0 0 0 0 0 0 0 0 0 0 0 0 0 55049 0 0 0 0 0 0 0 0 0 0 0 0 0 0 0 0 0 0 0 0 0 0 915 0 0 24484 0 3948 0 3948 0 0 14320 0 0 0 0 0 14320 0 0 0 188358 0 0 2 0 0 0 0 0 0 0 0 0 0 0 0 14 0 0 0 1091 0 1145821 0 0 0 2064 5105 0 2 2978 143260 36588 175214 2310 144623 667 722008 0 0 0 7060 0 0 19562 19561 19567 19564 20665 20665 20048 20045 24678 20666 20665 0 4248 0 0 74320 68 143602 21527 0 142 0 266 0 26 0 0 0 0 2078 70 0 0 0 1 152 0 0 0 0 0 0 0 0 0 0 0 0 0 0 0 0 0 0 0 0 0 0 0 0 0 0 0 0 0 0 0 0 0 0 0 0 0 0 0 0 0 0 0 0 0 0 0 0 0 0 0 0 0 0 0 0 0 0 0 0 0 0 0 0 0 0 0 0 0 0 0 0 0 0 0 0 0 0 0 0 0 0 0 0 0 0 0 1 0 9160 0 0 1 51976 5 0 0 0 8028 0 0 0 1\nctxt 20705676\nbtime 1666933600\nprocesses 77409\nprocs_running 3\nprocs_blocked 0\nsoftirq 8877573 71 2578491 2414 766392 698255 0 14365 2439309 0 2378276\n";

/// The contents of `proc/.vmstat` in a patched root file system.
pub const PATCHED_VMSTAT: &'static str =
    "nr_free_pages 797479\nnr_zone_inactive_anon 1350842\nnr_zone_active_anon 5792\nnr_zone_inactive_file 452524\nnr_zone_active_file 1235888\nnr_zone_unevictable 40\nnr_zone_write_pending 21\nnr_mlock 40\nnr_bounce 0\nnr_zspages 0\nnr_free_cma 0\nnuma_hit 62193717\nnuma_miss 0\nnuma_foreign 0\nnuma_interleave 1685\nnuma_local 62193717\nnuma_other 0\nnr_inactive_anon 1350842\nnr_active_anon 5792\nnr_inactive_file 452524\nnr_active_file 1235888\nnr_unevictable 40\nnr_slab_reclaimable 90461\nnr_slab_unreclaimable 46994\nnr_isolated_anon 0\nnr_isolated_file 0\nworkingset_nodes 26540\nworkingset_refault_anon 30\nworkingset_refault_file 61857\nworkingset_activate_anon 29\nworkingset_activate_file 58699\nworkingset_restore_anon 8\nworkingset_restore_file 10680\nworkingset_nodereclaim 1792\nnr_anon_pages 1258098\nnr_mapped 336800\nnr_file_pages 1787020\nnr_dirty 21\nnr_writeback 0\nnr_writeback_temp 0\nnr_shmem 100931\nnr_shmem_hugepages 0\nnr_shmem_pmdmapped 0\nnr_file_hugepages 0\nnr_file_pmdmapped 0\nnr_anon_transparent_hugepages 0\nnr_vmscan_write 199\nnr_vmscan_immediate_reclaim 64\nnr_dirtied 3125493\nnr_written 2724601\nnr_throttled_written 0\nnr_kernel_misc_reclaimable 0\nnr_foll_pin_acquired 0\nnr_foll_pin_released 0\nnr_kernel_stack 24176\nnr_page_table_pages 15826\nnr_swapcached 47\npgpromote_success 0\nnr_dirty_threshold 65536\nnr_dirty_background_threshold 32768\npgpgin 3980696\npgpgout 11524509\npswpin 30\npswpout 199\npgalloc_dma 1\npgalloc_dma32 3665609\npgalloc_normal 58548953\npgalloc_movable 0\nallocstall_dma 0\nallocstall_dma32 0\nallocstall_normal 83\nallocstall_movable 24\npgskip_dma 0\npgskip_dma32 0\npgskip_normal 0\npgskip_movable 0\npgfree 63437677\npgactivate 2588607\npgdeactivate 289583\npglazyfree 28031\npgfault 41043642\npgmajfault 17041\npglazyfreed 0\npgrefill 318961\npgreuse 4096458\npgsteal_kswapd 1325091\npgsteal_direct 21698\npgdemote_kswapd 0\npgdemote_direct 0\npgscan_kswapd 1589709\npgscan_direct 23668\npgscan_direct_throttle 0\npgscan_anon 55038\npgscan_file 1558339\npgsteal_anon 194\npgsteal_file 1346595\nzone_reclaim_failed 0\npginodesteal 0\nslabs_scanned 327296\nkswapd_inodesteal 1010\nkswapd_low_wmark_hit_quickly 276\nkswapd_high_wmark_hit_quickly 38\npageoutrun 474\npgrotated 436\ndrop_pagecache 0\ndrop_slab 0\noom_kill 0\nnuma_pte_updates 0\nnuma_huge_pte_updates 0\nnuma_hint_faults 0\nnuma_hint_faults_local 0\nnuma_pages_migrated 0\npgmigrate_success 345763\npgmigrate_fail 90\nthp_migration_success 0\nthp_migration_fail 0\nthp_migration_split 0\ncompact_migrate_scanned 2693820\ncompact_free_scanned 14772930\ncompact_isolated 704787\ncompact_stall 0\ncompact_fail 0\ncompact_success 0\ncompact_daemon_wake 290\ncompact_daemon_migrate_scanned 86861\ncompact_daemon_free_scanned 797667\nhtlb_buddy_alloc_success 0\nhtlb_buddy_alloc_fail 0\nunevictable_pgs_culled 369346\nunevictable_pgs_scanned 0\nunevictable_pgs_rescued 271919\nunevictable_pgs_mlocked 274444\nunevictable_pgs_munlocked 274400\nunevictable_pgs_cleared 0\nunevictable_pgs_stranded 4\nthp_fault_alloc 1\nthp_fault_fallback 0\nthp_fault_fallback_charge 0\nthp_collapse_alloc 0\nthp_collapse_alloc_failed 0\nthp_file_alloc 0\nthp_file_fallback 0\nthp_file_fallback_charge 0\nthp_file_mapped 0\nthp_split_page 0\nthp_split_page_failed 0\nthp_deferred_split_page 0\nthp_split_pmd 0\nthp_scan_exceed_none_pte 0\nthp_scan_exceed_swap_pte 0\nthp_scan_exceed_share_pte 0\nthp_split_pud 0\nthp_zero_page_alloc 0\nthp_zero_page_alloc_failed 0\nthp_swpout 0\nthp_swpout_fallback 0\nballoon_inflate 0\nballoon_deflate 0\nballoon_migrate 0\nswap_ra 21\nswap_ra_hit 7\nksm_swpin_copy 0\ncow_ksm 0\nzswpin 0\nzswpout 0\ndirect_map_level2_splits 409\ndirect_map_level3_splits 9\nnr_unstable 0\n";

/// The contents of `etc/hosts` in a patched root file system.
pub const PATCHED_HOSTS: &'static str =
    "127.0.0.1 localhost\n127.0.0.1 localhost.localdomain\n127.0.0.1 local\n255.255.255.255 broadcasthost\n::1 localhost\n::1 ip6-localhost\n::1 ip6-loopback\nfe80::1%lo0 localhost\nff00::0 ip6-localnet\nff00::0 ip6-mcastprefix\nff02::1 ip6-allnodes\nff02::2 ip6-allrouters\nff02::3 ip6-allhosts\n";

/// The contents of `etc/resolv.conf` in a patched root file system.
pub const PATCHED_RESOLV_CONF: &'static str =
    "nameserver 1.1.1.1\nnameserver 8.8.8.8\n";

/// The simulated files.
pub open spec fn simulated_files() -> Seq<(Seq<char>, Seq<char>)> {
    seq![
        ("proc/.loadavg"@, SIMULATED_LOADAVG@),
        ("proc/.stat"@, SIMULATED_STAT@),
        ("proc/.uptime"@, SIMULATED_UPTIME@),
        (VERSION_FILE@, SIMULATED_VERSION@),
        ("proc/.vmstat"@, SIMULATED_VMSTAT@),
        ("proc/.sysctl_entry_cap_last_cap"@, SIMULATED_CAP_LAST_CAP@),
        ("proc/.sysctl_inotify_max_user_watches"@, SIMULATED_MAX_USER_WATCHES@),
    ]
}

/// The step that writes a simulated file.
pub open spec fn simulated_file_step(file: (Seq<char>, Seq<char>)) -> StepView {
    plan::write_or(file.0, file.1, "Permission denied while writing to "@ + file.0)
}

/// The steps that simulate the data of the system.
pub open spec fn sysdata_steps() -> Seq<StepView> {
    seq![
        plan::notify(
            message::progress_or(
                "Simulating Linux system data..."@,
                "Failed to send log message"@,
            ),
        ),
        plan::try_create_dir("proc"@),
        plan::try_create_dir("sys"@),
        plan::try_create_dir("sys/.empty"@),
        plan::try_chmod("700"@, "proc"@),
        plan::try_chmod("700"@, "sys"@),
        plan::try_chmod("700"@, "sys/.empty"@),
    ] + simulated_files().map_values(|f: (Seq<char>, Seq<char>)| simulated_file_step(f))
}

/// The steps that are still to be done, given whether `VERSION_FILE` exists.
pub open spec fn sysdata_stage(version_exists: bool) -> Option<Seq<StepView>> {
    if version_exists {
        None
    } else {
        Some(sysdata_steps())
    }
}

/// The contents of optional steps.
pub open spec fn opt_steps(steps: Option<Vec<Step>>) -> Option<Seq<StepView>> {
    match steps {
        Some(s) => Some(plan::step_views(s@)),
        None => None,
    }
}

/// Appends the step that writes a simulated file.
fn push_simulated_file(steps: &mut Vec<Step>, path: &str, content: &str)
    ensures
        plan::step_views(final(steps)@) == plan::step_views(old(steps)@).push(
            simulated_file_step((path@, content@)),
        ),
{
    let mut failure = String::new();
    failure.append("Permission denied while writing to ");
    failure.append(path);
    assert(failure@ =~= "Permission denied while writing to "@ + path@);
    plan::push_write_or(steps, path, content, failure.as_str());
}

/// The steps that simulate the data of the system, or `None` where `VERSION_FILE` exists
/// because they were done before.
pub fn simulate_linux_sysdata_stage(version_exists: bool) -> (r: Option<Vec<Step>>)
    ensures
        opt_steps(r) == sysdata_stage(version_exists),
{
    if version_exists {
        return None;
    }
    let mut steps: Vec<Step> = Vec::new();
    assert(plan::step_views(steps@) =~= Seq::<StepView>::empty());
    plan::push_notify(
        &mut steps,
        message::emit_progress_or(
            "Simulating Linux system data...".to_owned(),
            "Failed to send log message",
        ),
    );
    plan::push_try_create_dir(&mut steps, "proc");
    plan::push_try_create_dir(&mut steps, "sys");
    plan::push_try_create_dir(&mut steps, "sys/.empty");
    plan::push_try_chmod(&mut steps, "700", "proc");
    plan::push_try_chmod(&mut steps, "700", "sys");
    plan::push_try_chmod(&mut steps, "700", "sys/.empty");
    push_simulated_file(&mut steps, "proc/.loadavg", SIMULATED_LOADAVG);
    push_simulated_file(&mut steps, "proc/.stat", SIMULATED_STAT);
    push_simulated_file(&mut steps, "proc/.uptime", SIMULATED_UPTIME);
    push_simulated_file(&mut steps, VERSION_FILE, SIMULATED_VERSION);
    push_simulated_file(&mut steps, "proc/.vmstat", SIMULATED_VMSTAT);
    push_simulated_file(&mut steps, "proc/.sysctl_entry_cap_last_cap", SIMULATED_CAP_LAST_CAP);
    push_simulated_file(&mut steps, "proc/.sysctl_inotify_max_user_watches", SIMULATED_MAX_USER_WATCHES);
    assert(plan::step_views(steps@) =~= sysdata_steps());
    Some(steps)
}

/// What the user is told before the root file system is patched.
pub open spec fn patch_notice() -> NoticeView {
    message::progress("Patching Ubuntu rootfs..."@)
}

/// The steps that patch the root file system. The last of them leaves the mark that it is done.
pub open spec fn patch_steps(sudo_exists: bool) -> Seq<StepView> {
    let files = seq![
        plan::try_create_dir("dev"@),
        plan::try_create_dir("sys"@),
        plan::try_create_dir("proc"@),
        plan::try_create_dir("dev/shm"@),
        plan::try_chmod("700"@, "proc"@),
        plan::try_write(VERSION_FILE@, PATCHED_VERSION@),
        plan::try_write("proc/.uptime"@, PATCHED_UPTIME@),
        plan::try_write("proc/.loadavg"@, PATCHED_LOADAVG@),
        plan::try_write("proc/.stat"@, PATCHED_STAT@),
        plan::try_write("proc/.vmstat"@, PATCHED_VMSTAT@),
        plan::try_write("etc/hosts"@, PATCHED_HOSTS@),
        plan::try_write("etc/resolv.conf"@, PATCHED_RESOLV_CONF@),
    ];
    (if sudo_exists {
        files.push(plan::try_chmod("u+s"@, SUDO@))
    } else {
        files
    }).push(plan::try_write(PATCHED_MARK@, "1\n"@))
}

/// What is still to be done, given whether `PATCHED_MARK` and `SUDO` exist.
pub open spec fn patch_stage(already_patched: bool, sudo_exists: bool) -> Option<StagePlanView> {
    if already_patched {
        None
    } else {
        Some(StagePlanView { notice: patch_notice(), steps: patch_steps(sudo_exists) })
    }
}

/// What there is to do to patch the root file system, or `None` where `PATCHED_MARK` exists
/// because it was done before.
pub fn patch_ubuntu_rootfs(already_patched: bool, sudo_exists: bool) -> (r: Option<StagePlan>)
    ensures
        plan::opt_plan(r) == patch_stage(already_patched, sudo_exists),
{
    if already_patched {
        return None;
    }
    let mut steps: Vec<Step> = Vec::new();
    assert(plan::step_views(steps@) =~= Seq::<StepView>::empty());
    plan::push_try_create_dir(&mut steps, "dev");
    plan::push_try_create_dir(&mut steps, "sys");
    plan::push_try_create_dir(&mut steps, "proc");
    plan::push_try_create_dir(&mut steps, "dev/shm");
    plan::push_try_chmod(&mut steps, "700", "proc");
    plan::push_try_write(&mut steps, VERSION_FILE, PATCHED_VERSION);
    plan::push_try_write(&mut steps, "proc/.uptime", PATCHED_UPTIME);
    plan::push_try_write(&mut steps, "proc/.loadavg", PATCHED_LOADAVG);
    plan::push_try_write(&mut steps, "proc/.stat", PATCHED_STAT);
    plan::push_try_write(&mut steps, "proc/.vmstat", PATCHED_VMSTAT);
    plan::push_try_write(&mut steps, "etc/hosts", PATCHED_HOSTS);
    plan::push_try_write(&mut steps, "etc/resolv.conf", PATCHED_RESOLV_CONF);
    if sudo_exists {
        plan::push_try_chmod(&mut steps, "u+s", SUDO);
    }
    plan::push_try_write(&mut steps, PATCHED_MARK, "1\n");
    assert(plan::step_views(steps@) =~= patch_steps(sudo_exists));
    Some(
        StagePlan {
            notice: message::emit_progress("Patching Ubuntu rootfs...".to_owned()),
            steps,
        },
    )
}

/// The system data is simulated only once: after the steps of the stage there is nothing left to
/// do for it.
pub proof fn law_sysdata_once(paths: Set<Seq<char>>)
    ensures
        sysdata_stage(paths.contains(VERSION_FILE@)) matches Some(steps) ==> sysdata_stage(
            plan::after_steps(paths, steps).contains(VERSION_FILE@),
        ) is None,
{
    let steps = sysdata_steps();
    assert(steps[10] == simulated_file_step(simulated_files()[3]));
    plan::lemma_written(paths, steps, 10, VERSION_FILE@);
}

/// The root file system is patched only once: after the steps of the stage there is nothing left
/// to do for it.
pub proof fn law_patch_once(paths: Set<Seq<char>>, sudo_exists: bool)
    ensures
        patch_stage(paths.contains(PATCHED_MARK@), sudo_exists) matches Some(p)
            ==> patch_stage(
            plan::after_steps(paths, p.steps).contains(PATCHED_MARK@),
            sudo_exists,
        ) is None,
{
    let steps = patch_steps(sudo_exists);
    plan::lemma_written(paths, steps, steps.len() - 1, PATCHED_MARK@);
}

/// Patching that was interrupted is done again from the start: the mark that it is done exists
/// only after the last step.
pub proof fn law_patch_marks_last(paths: Set<Seq<char>>, sudo_exists: bool, n: int)
    requires
        !paths.contains(PATCHED_MARK@),
        0 <= n < patch_steps(sudo_exists).len(),
    ensures
        !plan::after_steps(paths, patch_steps(sudo_exists).take(n)).contains(
            PATCHED_MARK@,
        ),
    decreases n,
{
    let steps = patch_steps(sudo_exists);
    if n > 0 {
        law_patch_marks_last(paths, sudo_exists, n - 1);
        assert(steps.take(n).drop_last() =~= steps.take(n - 1));
        assert(steps.take(n).last() == steps[n - 1]);
        lemma_not_the_mark(steps[n - 1], sudo_exists, n - 1);
    } else {
        assert(steps.take(0) =~= Seq::<StepView>::empty());
    }
}

/// No step but the last creates the mark.
proof fn lemma_not_the_mark(step: StepView, sudo_exists: bool, i: int)
    requires
        0 <= i < patch_steps(sudo_exists).len() - 1,
        step == patch_steps(sudo_exists)[i],
    ensures
        step.op matches StepOpView::CreateDir { path } ==> path != PATCHED_MARK@,
        step.op matches StepOpView::Write { path, .. } ==> path != PATCHED_MARK@,
{
    reveal_strlit("etc/hosts.patched");
    reveal_strlit("dev");
    reveal_strlit("sys");
    reveal_strlit("proc");
    reveal_strlit("dev/shm");
    reveal_strlit("proc/.version");
    reveal_strlit("proc/.uptime");
    reveal_strlit("proc/.loadavg");
    reveal_strlit("proc/.stat");
    reveal_strlit("proc/.vmstat");
    reveal_strlit("etc/hosts");
    reveal_strlit("etc/resolv.conf");
    assert(PATCHED_MARK@.len() == 17);
    assert(i == 0 || i == 1 || i == 2 || i == 3 || i == 4 || i == 5 || i == 6 || i == 7 || i == 8
        || i == 9 || i == 10 || i == 11 || i == 12);
}

} // verus!
