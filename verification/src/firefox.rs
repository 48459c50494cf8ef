//! The configuration of Firefox.

use crate::plan;
use crate::plan::{Step, StepView};
use vstd::prelude::*;

verus! {

/// The preferences that make Firefox read its configuration file.
pub const AUTOCONFIG_JS: &'static str =
    "pref(\"general.config.filename\", \"localdesktop.cfg\");\npref(\"general.config.obscure_value\", 0);\n";

/// The configuration file. Its first line has to be a comment: Firefox does not read it.
pub const FIREFOX_CFG: &'static str =
    "// Auto updated by Local Desktop on each startup, do not edit manually\ndefaultPref(\"media.cubeb.sandbox\", false);\ndefaultPref(\"security.sandbox.content.level\", 0);\n";

/// The directory of Firefox.
pub open spec fn firefox_root(fs_root: Seq<char>) -> Seq<char> {
    fs_root + "/usr/lib/firefox"@
}

/// The directory of its preferences.
pub open spec fn pref_dir(fs_root: Seq<char>) -> Seq<char> {
    firefox_root(fs_root) + "/defaults/pref"@
}

/// The steps that configure Firefox.
pub open spec fn firefox_steps(fs_root: Seq<char>) -> Seq<StepView> {
    seq![
        plan::create_dir_or(
            firefox_root(fs_root),
            "Failed to create Firefox root directory"@,
        ),
        plan::create_dir_or(pref_dir(fs_root), "Failed to create Firefox pref directory"@),
        plan::write_or(
            pref_dir(fs_root) + "/autoconfig.js"@,
            AUTOCONFIG_JS@,
            "Failed to write Firefox autoconfig.js"@,
        ),
        plan::write_or(
            firefox_root(fs_root) + "/localdesktop.cfg"@,
            FIREFOX_CFG@,
            "Failed to write Firefox configuration"@,
        ),
    ]
}

/// The steps that configure Firefox below the root file system. They are done on each startup.
pub fn setup_firefox_config(fs_root: &str) -> (r: Vec<Step>)
    ensures
        plan::step_views(r@) == firefox_steps(fs_root@),
{
    let mut root = String::new();
    root.append(fs_root);
    root.append("/usr/lib/firefox");
    assert(root@ =~= firefox_root(fs_root@));
    let mut pref = root.clone();
    pref.append("/defaults/pref");
    let mut autoconfig = pref.clone();
    autoconfig.append("/autoconfig.js");
    let mut cfg = root.clone();
    cfg.append("/localdesktop.cfg");
    let mut steps: Vec<Step> = Vec::new();
    assert(plan::step_views(steps@) =~= Seq::<StepView>::empty());
    plan::push_create_dir_or(
        &mut steps,
        root.as_str(),
        "Failed to create Firefox root directory",
    );
    plan::push_create_dir_or(
        &mut steps,
        pref.as_str(),
        "Failed to create Firefox pref directory",
    );
    plan::push_write_or(
        &mut steps,
        autoconfig.as_str(),
        AUTOCONFIG_JS,
        "Failed to write Firefox autoconfig.js",
    );
    plan::push_write_or(
        &mut steps,
        cfg.as_str(),
        FIREFOX_CFG,
        "Failed to write Firefox configuration",
    );
    assert(plan::step_views(steps@) =~= firefox_steps(fs_root@));
    steps
}

} // verus!
