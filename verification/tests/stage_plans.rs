use localdesktop::firefox;
use localdesktop::ini;
use localdesktop::lxqt;
use localdesktop::message::OnError;
use localdesktop::plan::{Step, StepOp};
use localdesktop::sysdata;

fn shown(steps: &Vec<Step>) -> Vec<String> {
    steps
        .iter()
        .map(|s| {
            let op = match &s.op {
                StepOp::Send(message) => format!("send {:?}", message),
                StepOp::CreateDir { path } => format!("mkdir {}", path),
                StepOp::Chmod { mode, path } => format!("chmod {} {}", mode, path),
                StepOp::SetMode { bits, path } => format!("mode {:o} {}", bits, path),
                StepOp::Write { path, .. } => format!("write {}", path),
            };
            match &s.on_error {
                OnError::Ignore => op,
                OnError::Abort(failure) => format!("{} or {:?}", op, failure),
            }
        })
        .collect()
}

fn written(steps: &Vec<Step>, wanted: &str) -> String {
    for s in steps {
        if let StepOp::Write { path, content } = &s.op {
            if path == wanted {
                return content.clone();
            }
        }
    }
    panic!("{} is not written", wanted)
}

#[test]
fn the_system_data_is_simulated() {
    let steps = sysdata::simulate_linux_sysdata_stage(false).unwrap();
    assert_eq!(
        shown(&steps),
        vec![
            "send Progress(\"Simulating Linux system data...\") or \"Failed to send log message\"",
            "mkdir proc",
            "mkdir sys",
            "mkdir sys/.empty",
            "chmod 700 proc",
            "chmod 700 sys",
            "chmod 700 sys/.empty",
            "write proc/.loadavg or \"Permission denied while writing to proc/.loadavg\"",
            "write proc/.stat or \"Permission denied while writing to proc/.stat\"",
            "write proc/.uptime or \"Permission denied while writing to proc/.uptime\"",
            "write proc/.version or \"Permission denied while writing to proc/.version\"",
            "write proc/.vmstat or \"Permission denied while writing to proc/.vmstat\"",
            "write proc/.sysctl_entry_cap_last_cap or \"Permission denied while writing to proc/.sysctl_entry_cap_last_cap\"",
            "write proc/.sysctl_inotify_max_user_watches or \"Permission denied while writing to proc/.sysctl_inotify_max_user_watches\"",
        ]
    );
    assert_eq!(written(&steps, "proc/.loadavg"), "0.12 0.07 0.02 2/165 765\n");
    assert_eq!(
        written(&steps, "proc/.stat"),
        "cpu  1957 0 2877 93280 262 342 254 87 0 0\ncpu0 31 0 226 12027 82 10 4 9 0 0\n"
    );
    assert_eq!(written(&steps, "proc/.uptime"), "124.08 932.80\n");
    assert_eq!(
        written(&steps, "proc/.version"),
        "Linux version 6.2.1 (proot@termux) (gcc (GCC) 12.2.1 20230201, GNU ld (GNU Binutils) 2.40) #1 SMP PREEMPT_DYNAMIC Wed, 01 Mar 2023 00:00:00 +0000\n"
    );
    assert_eq!(
        written(&steps, "proc/.vmstat"),
        "nr_free_pages 1743136\nnr_zone_inactive_anon 179281\nnr_zone_active_anon 7183\n"
    );
    assert_eq!(written(&steps, "proc/.sysctl_entry_cap_last_cap"), "40\n");
    assert_eq!(written(&steps, "proc/.sysctl_inotify_max_user_watches"), "4096\n");
}

#[test]
fn the_system_data_is_simulated_only_once() {
    let steps = sysdata::simulate_linux_sysdata_stage(false).unwrap();
    let version_exists = steps
        .iter()
        .any(|s| matches!(&s.op, StepOp::Write { path, .. } if path == "proc/.version"));
    assert!(version_exists);
    assert!(sysdata::simulate_linux_sysdata_stage(version_exists).is_none());
}

#[test]
fn the_root_file_system_is_patched() {
    let plan = sysdata::patch_ubuntu_rootfs(false, true).unwrap();
    assert_eq!(
        format!("{:?}", plan.notice),
        "Notice { message: Progress(\"Patching Ubuntu rootfs...\"), on_lost: Ignore }"
    );
    assert_eq!(
        shown(&plan.steps),
        vec![
            "mkdir dev",
            "mkdir sys",
            "mkdir proc",
            "mkdir dev/shm",
            "chmod 700 proc",
            "write proc/.version",
            "write proc/.uptime",
            "write proc/.loadavg",
            "write proc/.stat",
            "write proc/.vmstat",
            "write etc/hosts",
            "write etc/resolv.conf",
            "chmod u+s usr/bin/sudo",
            "write etc/hosts.patched",
        ]
    );
    assert_eq!(written(&plan.steps, "proc/.version"), "Linux version 5.19.0-76051900-faked (udroid@RandomCoder.org) #202207312230~1660780566~22.04~9d60db1 SMP PREEMPT_DYNAMIC Thu A\n");
    assert_eq!(written(&plan.steps, "proc/.uptime"), "7857.09 54258.46\n");
    assert_eq!(written(&plan.steps, "proc/.loadavg"), "16.98 17.85 18.62 1/4050 18463\n");
    assert_eq!(written(&plan.steps, "etc/resolv.conf"), "nameserver 1.1.1.1\nnameserver 8.8.8.8\n");
    assert_eq!(written(&plan.steps, "etc/hosts.patched"), "1\n");
    let hosts = written(&plan.steps, "etc/hosts");
    assert_eq!(hosts.lines().count(), 13);
    assert!(hosts.starts_with("127.0.0.1 localhost\n"));
    assert!(hosts.ends_with("ff02::3 ip6-allhosts\n"));
    let stat = written(&plan.steps, "proc/.stat");
    assert!(stat.starts_with("cpu  240441 136982 262130 1546780 8977 0 12736 0 0 0\ncpu0 41348 "));
    assert!(stat.ends_with("softirq 8877573 71 2578491 2414 766392 698255 0 14365 2439309 0 2378276\n"));
    let vmstat = written(&plan.steps, "proc/.vmstat");
    assert!(vmstat.starts_with("nr_free_pages 797479\n"));
    assert!(vmstat.ends_with("direct_map_level3_splits 9\nnr_unstable 0\n"));
}

#[test]
fn without_sudo_there_is_nothing_to_permit() {
    let with = sysdata::patch_ubuntu_rootfs(false, true).unwrap();
    let without = sysdata::patch_ubuntu_rootfs(false, false).unwrap();
    let mut expected = shown(&with.steps);
    expected.retain(|s| s != "chmod u+s usr/bin/sudo");
    assert_eq!(shown(&without.steps), expected);
}

#[test]
fn the_root_file_system_is_patched_only_once() {
    assert!(sysdata::patch_ubuntu_rootfs(true, true).is_none());
    assert!(sysdata::patch_ubuntu_rootfs(true, false).is_none());
}

#[test]
fn the_mark_of_patching_comes_last() {
    let plan = sysdata::patch_ubuntu_rootfs(false, false).unwrap();
    let marks: Vec<usize> = shown(&plan.steps)
        .iter()
        .enumerate()
        .filter(|(_, s)| *s == "write etc/hosts.patched")
        .map(|(i, _)| i)
        .collect();
    assert_eq!(marks, vec![plan.steps.len() - 1]);
}

#[test]
fn firefox_is_configured() {
    let steps = firefox::setup_firefox_config("/data/fs");
    assert_eq!(
        shown(&steps),
        vec![
            "mkdir /data/fs/usr/lib/firefox or \"Failed to create Firefox root directory\"",
            "mkdir /data/fs/usr/lib/firefox/defaults/pref or \"Failed to create Firefox pref directory\"",
            "write /data/fs/usr/lib/firefox/defaults/pref/autoconfig.js or \"Failed to write Firefox autoconfig.js\"",
            "write /data/fs/usr/lib/firefox/localdesktop.cfg or \"Failed to write Firefox configuration\"",
        ]
    );
    assert_eq!(
        written(&steps, "/data/fs/usr/lib/firefox/defaults/pref/autoconfig.js"),
        "pref(\"general.config.filename\", \"localdesktop.cfg\");\npref(\"general.config.obscure_value\", 0);\n"
    );
}

#[test]
fn the_first_line_of_the_firefox_configuration_is_a_comment() {
    let steps = firefox::setup_firefox_config("");
    let cfg = written(&steps, "/usr/lib/firefox/localdesktop.cfg");
    assert_eq!(
        cfg.lines().collect::<Vec<&str>>(),
        vec![
            "// Auto updated by Local Desktop on each startup, do not edit manually",
            "defaultPref(\"media.cubeb.sandbox\", false);",
            "defaultPref(\"security.sandbox.content.level\", 0);",
        ]
    );
}

#[test]
fn x_resources_get_the_resolution() {
    assert_eq!(lxqt::scale_xresources("", 3), "Xft.dpi: 288\n");
    assert_eq!(lxqt::scale_xresources("Xft.dpi:96\nXft.hinting: 1\n", 2), "Xft.dpi: 192\nXft.hinting: 1\n");
}

#[test]
fn the_session_gets_the_scale_and_the_window_manager() {
    assert_eq!(
        lxqt::scale_session("", 2),
        "[Environment]\nGDK_SCALE=2\nQT_SCALE_FACTOR=2\n\n[General]\nwindow_manager=openbox\n"
    );
    assert_eq!(
        lxqt::scale_session("[General]\nwindow_manager=kwin\n[Environment]\nGDK_SCALE=1\n", 3),
        "[General]\nwindow_manager=openbox\n[Environment]\nGDK_SCALE=3\nQT_SCALE_FACTOR=3\n"
    );
}

#[test]
fn the_desktop_is_scaled_without_openbox() {
    let plan = lxqt::setup_lxqt_scaling(2, "", "", None, None);
    assert_eq!(plan.theme_name, None);
    assert_eq!(
        shown(&plan.steps),
        vec![
            "write root/.Xresources or \"Failed to write key/value file\"",
            "mkdir root/.config/lxqt",
            "write root/.config/lxqt/session.conf or \"Failed to write session.conf\"",
            "mkdir root/.config/autostart",
            "write root/.config/autostart/lxqt-powermanagement.desktop or \"Failed to disable lxqt-powermanagement autostart\"",
        ]
    );
    assert_eq!(written(&plan.steps, "root/.Xresources"), "Xft.dpi: 192\n");
    assert_eq!(
        written(&plan.steps, "root/.config/autostart/lxqt-powermanagement.desktop"),
        "[Desktop Entry]\nType=Application\nName=LXQt Power Management\nHidden=true\n"
    );
}

#[test]
fn the_rc_of_the_user_goes_before_that_of_the_system() {
    let user = "<theme>\n<name>Mine</name>\n<font place=\"ActiveWindow\">\n<size>1</size>\n";
    let plan = lxqt::setup_lxqt_scaling(2, "", "", Some(user), Some("<theme>\n<name>Sys</name>\n"));
    assert_eq!(plan.theme_name, Some("Mine".to_string()));
    assert_eq!(
        shown(&plan.steps)[5..],
        [
            "mkdir root/.config/openbox",
            "write root/.config/openbox/rc.xml or \"Failed to write openbox rc.xml\"",
        ]
    );
    assert_eq!(
        written(&plan.steps, "root/.config/openbox/rc.xml"),
        "<theme>\n<name>Mine</name>\n<font place=\"ActiveWindow\">\n<size>20</size>\n"
    );
    let system = lxqt::setup_lxqt_scaling(2, "", "", None, Some("<theme>\n<name>Sys</name>\n<font>\n<name>x</name>\n"));
    assert_eq!(system.theme_name, Some("Sys".to_string()));
    assert_eq!(
        written(&system.steps, "root/.config/openbox/rc.xml"),
        "<theme>\n<name>Sys</name>\n<font>\n<name>DejaVu Sans</name>\n"
    );
}

#[test]
fn an_empty_rc_is_left_alone() {
    let plan = lxqt::setup_lxqt_scaling(1, "", "", Some(""), Some("<theme>\n<name>Sys</name>\n"));
    assert_eq!(plan.theme_name, None);
    assert_eq!(plan.steps.len(), 5);
}

#[test]
fn the_order_of_the_session_updates_makes_no_difference() {
    let content = "[Environment]\nGDK_SCALE=1\n[General]\nwindow_manager=kwin\n";
    let general = ini::update_ini_section(
        content,
        "General",
        &[("window_manager", "openbox".to_string())],
    );
    let both = ini::update_ini_section(
        &general,
        "Environment",
        &[("GDK_SCALE", "2".to_string()), ("QT_SCALE_FACTOR", "2".to_string())],
    );
    assert_eq!(lxqt::scale_session(content, 2), both);
}

#[test]
fn the_files_that_tell_what_was_done() {
    let simulated = sysdata::simulate_linux_sysdata_stage(false).unwrap();
    assert_eq!(written(&simulated, sysdata::VERSION_FILE), sysdata::SIMULATED_VERSION);
    let plan = sysdata::patch_ubuntu_rootfs(false, true).unwrap();
    assert_eq!(written(&plan.steps, sysdata::PATCHED_MARK), "1\n");
    assert!(shown(&plan.steps).contains(&format!("chmod u+s {}", sysdata::SUDO)));
}
