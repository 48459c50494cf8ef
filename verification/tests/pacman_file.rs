use localdesktop::pacman;

#[test]
fn the_directives_are_rewritten() {
    let content = "[options]\nDownloadUser = alpm\n  ParallelDownloads = 5\nSigLevel    = Required DatabaseOptional\n\tLocalFileSigLevel = Optional\n# SigLevel = x\nColor\n";
    assert_eq!(
        pacman::rewrite_pacman_conf(content),
        Some("[options]\n# DownloadUser = alpm\n  ParallelDownloads = 1\nSigLevel = Never\n\tLocalFileSigLevel = Never\n# SigLevel = x\nColor\n".to_string())
    );
}

#[test]
fn a_file_without_these_directives_is_left_alone() {
    assert_eq!(pacman::rewrite_pacman_conf(""), None);
    assert_eq!(pacman::rewrite_pacman_conf("[options]\r\nColor"), None);
    assert_eq!(pacman::rewrite_pacman_conf("ParallelDownloads = 1\nSigLevel = Never"), None);
}

#[test]
fn a_rewritten_file_needs_no_second_rewriting() {
    let content = "DownloadUser\nSigLevelX\n ParallelDownloads\nLocalFileSigLevel";
    let once = pacman::rewrite_pacman_conf(content).unwrap();
    assert_eq!(once, "# DownloadUser\nSigLevel = Never\n ParallelDownloads = 1\nLocalFileSigLevel = Never\n");
    assert_eq!(pacman::rewrite_pacman_conf(&once), None);
}

#[test]
fn the_user_is_told() {
    assert_eq!(
        format!("{:?}", pacman::announce_pacman()),
        "Notice { message: Progress(\"Configuring pacman for Android runtime...\"), on_lost: Ignore }"
    );
}

#[test]
fn directories_are_made_in_any_case() {
    let dirs = "Step { op: CreateDir { path: \"var/lib/pacman/sync\" }, on_error: Abort(\"Failed to create pacman sync directory\") }, \
        Step { op: CreateDir { path: \"var/cache/pacman/pkg\" }, on_error: Abort(\"Failed to create pacman package cache directory\") }, \
        Step { op: SetMode { bits: 493, path: \"var/lib/pacman/sync\" }, on_error: Ignore }, \
        Step { op: SetMode { bits: 493, path: \"var/cache/pacman/pkg\" }, on_error: Ignore }]";
    assert_eq!(
        format!("{:?}", pacman::configure_pacman_for_android("Color\n")),
        format!("[{}", dirs)
    );
    assert_eq!(
        format!("{:?}", pacman::configure_pacman_for_android("SigLevel\n")),
        format!(
            "[Step {{ op: Write {{ path: \"etc/pacman.conf\", content: \"SigLevel = Never\\n\" }}, on_error: Abort(\"Failed to update pacman configuration for Android\") }}, {}",
            dirs
        )
    );
}

#[test]
fn without_the_file_there_is_nothing_to_do() {
    assert!(pacman::pacman_stage(None).is_none());
}

#[test]
fn with_the_file_the_user_is_told_and_the_steps_are_planned() {
    for content in ["", "Color\n", "SigLevel\n"] {
        let plan = pacman::pacman_stage(Some(content)).unwrap();
        assert_eq!(format!("{:?}", plan.notice), format!("{:?}", pacman::announce_pacman()));
        assert_eq!(
            format!("{:?}", plan.steps),
            format!("{:?}", pacman::configure_pacman_for_android(content))
        );
    }
    assert_eq!(pacman::PACMAN_CONF, "etc/pacman.conf");
}
