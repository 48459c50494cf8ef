//! Scaling the LXQt desktop to the density of the screen.

use crate::decimal;
use crate::facts;
use crate::ini;
use crate::ini_laws;
use crate::ini_sections;
use crate::kv;
use crate::kv_laws;
use crate::openbox;
use crate::plan;
use crate::plan::{Step, StepView};
use crate::text;
use crate::theme;
use vstd::prelude::*;

verus! {

/// The X resources.
pub const XRESOURCES: &'static str = "root/.Xresources";

/// The configuration of the session.
pub const SESSION_CONF: &'static str = "root/.config/lxqt/session.conf";

/// The user's own configuration of the window manager.
pub const USER_RC: &'static str = "root/.config/openbox/rc.xml";

/// The system's configuration of the window manager.
pub const SYSTEM_RC: &'static str = "etc/xdg/openbox/rc.xml";

/// The desktop file that hides the power management of LXQt.
pub const POWERMANAGEMENT_HIDDEN: &'static str =
    "[Desktop Entry]\nType=Application\nName=LXQt Power Management\nHidden=true\n";

/// What the X resources set.
pub open spec fn xresources_updates(scale: int) -> Seq<(Seq<char>, Seq<char>)> {
    seq![("Xft.dpi"@, decimal::decimal(scale * 96))]
}

/// The scaled X resources.
pub open spec fn xresources_text(content: Seq<char>, scale: int) -> Seq<char> {
    kv::kv_upsert(content, ':', xresources_updates(scale))
}

/// What the session sets in its environment.
pub open spec fn environment_updates(scale: int) -> Seq<(Seq<char>, Seq<char>)> {
    seq![
        ("GDK_SCALE"@, decimal::decimal(scale)),
        ("QT_SCALE_FACTOR"@, decimal::decimal(scale)),
    ]
}

/// What the session sets in general.
pub open spec fn general_updates() -> Seq<(Seq<char>, Seq<char>)> {
    seq![("window_manager"@, "openbox"@)]
}

/// The scaled session.
pub open spec fn session_text(content: Seq<char>, scale: int) -> Seq<char> {
    ini::updated_file(
        ini::updated_file(content, "Environment"@, environment_updates(scale)),
        "General"@,
        general_updates(),
    )
}

/// The steps for `rc.xml`: write it to the user's own configuration. Where there is none, or it
/// is empty, there are none.
pub open spec fn rc_steps(rc: Option<Seq<char>>, scale: int) -> Seq<StepView> {
    match rc {
        Some(content) => if content.len() > 0 {
            seq![
                plan::try_create_dir("root/.config/openbox"@),
                plan::write_or(
                    USER_RC@,
                    openbox::rc_file(content, scale, "DejaVu Sans"@),
                    "Failed to write openbox rc.xml"@,
                ),
            ]
        } else {
            Seq::empty()
        },
        None => Seq::empty(),
    }
}

/// The theme to scale next, if any.
pub open spec fn next_theme(rc: Option<Seq<char>>) -> Option<Seq<char>> {
    match rc {
        Some(content) => if content.len() > 0 {
            openbox::rc_theme(content)
        } else {
            None
        },
        None => None,
    }
}

/// The steps that scale the desktop.
pub open spec fn lxqt_steps(
    scale: int,
    xresources: Seq<char>,
    session: Seq<char>,
    rc: Option<Seq<char>>,
) -> Seq<StepView> {
    seq![
        plan::write_or(
            XRESOURCES@,
            xresources_text(xresources, scale),
            "Failed to write key/value file"@,
        ),
        plan::try_create_dir("root/.config/lxqt"@),
        plan::write_or(
            SESSION_CONF@,
            session_text(session, scale),
            "Failed to write session.conf"@,
        ),
        plan::try_create_dir("root/.config/autostart"@),
        plan::write_or(
            "root/.config/autostart/lxqt-powermanagement.desktop"@,
            POWERMANAGEMENT_HIDDEN@,
            "Failed to disable lxqt-powermanagement autostart"@,
        ),
    ] + rc_steps(rc, scale)
}

/// The steps that scale the desktop, and the theme to scale after them.
pub struct LxqtPlan {
    pub steps: Vec<Step>,
    pub theme_name: Option<String>,
}

/// The X resources with the scaled resolution: 96 dots per inch for each unit of the scale.
pub fn scale_xresources(content: &str, scale: i32) -> (r: String)
    requires
        i32::MIN <= scale * 96 <= i32::MAX,
    ensures
        r@ == xresources_text(content@, scale as int),
{
    let xft_dpi: i32 = scale * 96;
    let updates = [("Xft.dpi", decimal::signed_text(xft_dpi))];
    let r = kv::upsert_kv_file(content, ':', &updates);
    assert(text::pairs(updates@) =~= xresources_updates(scale as int));
    r
}

/// The session with the scale in its environment and Openbox as its window manager.
pub fn scale_session(content: &str, scale: i32) -> (r: String)
    ensures
        r@ == session_text(content@, scale as int),
{
    let environment = [
        ("GDK_SCALE", decimal::signed_text(scale)),
        ("QT_SCALE_FACTOR", decimal::signed_text(scale)),
    ];
    let with_env = ini::update_ini_section(content, "Environment", &environment);
    assert(text::pairs(environment@) =~= environment_updates(scale as int));
    let general = [("window_manager", "openbox".to_owned())];
    let r = ini::update_ini_section(with_env.as_str(), "General", &general);
    assert(text::pairs(general@) =~= general_updates());
    r
}

/// The steps that scale the desktop, given the files that they start from. A file that is missing
/// or cannot be read counts as empty, but for the two files `rc.xml`, of which the user's own
/// goes before that of the system. The scale comes from the density of the screen.
pub fn setup_lxqt_scaling(
    scale: i32,
    xresources: &str,
    session: &str,
    user_rc: Option<&str>,
    system_rc: Option<&str>,
) -> (r: LxqtPlan)
    requires
        i32::MIN <= scale * 96 <= i32::MAX,
    ensures
        plan::step_views(r.steps@) == lxqt_steps(
            scale as int,
            xresources@,
            session@,
            theme::first_file(text::opt_str(user_rc), text::opt_str(system_rc)),
        ),
        openbox::opt_text(r.theme_name) == next_theme(
            theme::first_file(text::opt_str(user_rc), text::opt_str(system_rc)),
        ),
{
    let ghost rc = theme::first_file(text::opt_str(user_rc), text::opt_str(system_rc));
    let mut steps: Vec<Step> = Vec::new();
    assert(plan::step_views(steps@) =~= Seq::<StepView>::empty());
    let new_xresources = scale_xresources(xresources, scale);
    plan::push_write_or(
        &mut steps,
        XRESOURCES,
        new_xresources.as_str(),
        "Failed to write key/value file",
    );
    let new_session = scale_session(session, scale);
    plan::push_try_create_dir(&mut steps, "root/.config/lxqt");
    plan::push_write_or(
        &mut steps,
        SESSION_CONF,
        new_session.as_str(),
        "Failed to write session.conf",
    );
    plan::push_try_create_dir(&mut steps, "root/.config/autostart");
    plan::push_write_or(
        &mut steps,
        "root/.config/autostart/lxqt-powermanagement.desktop",
        POWERMANAGEMENT_HIDDEN,
        "Failed to disable lxqt-powermanagement autostart",
    );
    let mut theme_name: Option<String> = None;
    let source: Option<&str> = match user_rc {
        Some(content) => Some(content),
        None => system_rc,
    };
    if let Some(content) = source {
        if !content.is_empty() {
            let (new_rc, name) = openbox::update_openbox_rc(content, scale, "DejaVu Sans");
            plan::push_try_create_dir(&mut steps, "root/.config/openbox");
            plan::push_write_or(
                &mut steps,
                USER_RC,
                new_rc.as_str(),
                "Failed to write openbox rc.xml",
            );
            theme_name = name;
        }
    }
    assert(plan::step_views(steps@) =~= lxqt_steps(scale as int, xresources@, session@, rc));
    LxqtPlan { steps, theme_name }
}

/// The scaled X resources give the scaled resolution.
pub proof fn law_xresources_read_back(content: Seq<char>, scale: int)
    ensures
        theme::reads_as(
            kv::kv_lines(xresources_text(content, scale), ':'),
            "Xft.dpi"@,
            decimal::decimal(scale * 96),
        ),
{
    reveal_strlit("Xft.dpi");
    theme::lemma_decimal_value(scale * 96);
    let u = xresources_updates(scale);
    assert(u.last() == u[0]);
    assert(kv_laws::last_value(u, "Xft.dpi"@) == Some(decimal::decimal(scale * 96)));
    kv_laws::law_upsert_read_back(content, ':', u);
}

/// The updates of the session can stand in an INI file.
proof fn lemma_session_updates(scale: int)
    ensures
        ini_laws::valid_updates(environment_updates(scale)),
        ini_laws::valid_updates(general_updates()),
        ini_laws::valid_section("Environment"@),
        ini_laws::valid_section("General"@),
        text::trim("General"@) == "General"@,
        !text::same_ignoring_case("Environment"@, "General"@),
        ini_sections::plain_updates(environment_updates(scale)),
        ini_sections::plain_updates(general_updates()),
        ini_sections::keeps_ends(environment_updates(scale)),
        ini_sections::keeps_ends(general_updates()),
{
    reveal_strlit("Environment");
    reveal_strlit("General");
    reveal_strlit("GDK_SCALE");
    reveal_strlit("QT_SCALE_FACTOR");
    reveal_strlit("window_manager");
    reveal_strlit("openbox");
    theme::lemma_decimal_value(scale);
    let e = environment_updates(scale);
    assert forall|i: int| 0 <= i < e.len() implies ini_laws::valid_key((#[trigger] e[i]).0)
        && !ini_laws::looks_like_header(e[i].0, e[i].1) by {
        assert(i == 0 || i == 1);
    }
    assert("GDK_SCALE"@.len() != "QT_SCALE_FACTOR"@.len());
    ini_sections::lemma_plain_updates(e);
    ini_sections::lemma_plain_updates(general_updates());
    facts::lemma_trim_clean("General"@);
    decimal::lemma_decimal_chars(scale);
    let d = decimal::decimal(scale);
    assert(d.contains(d.last()));
}

/// Where the session has both of its sections, the order in which they are updated makes no
/// difference.
pub proof fn law_session_order(content: Seq<char>, scale: int)
    requires
        ini::has_section(text::lines(content), "Environment"@),
        ini::has_section(text::lines(content), "General"@),
    ensures
        session_text(content, scale) == ini::updated_file(
            ini::updated_file(content, "General"@, general_updates()),
            "Environment"@,
            environment_updates(scale),
        ),
{
    lemma_session_updates(scale);
    ini_sections::law_updates_commute(
        content,
        "Environment"@,
        environment_updates(scale),
        "General"@,
        general_updates(),
    );
}

/// The scaled session has the scale in its environment and Openbox as its window manager; the
/// second update leaves the first in place.
pub proof fn law_session_read_back(content: Seq<char>, scale: int)
    ensures
        ({
            let r = text::lines(session_text(content, scale));
            &&& ini_laws::settled_by(
                ini_laws::settings(r, "Environment"@),
                environment_updates(scale),
            )
            &&& ini_laws::settled_by(ini_laws::settings(r, "General"@), general_updates())
        }),
{
    lemma_session_updates(scale);
    let first = ini::updated_file(content, "Environment"@, environment_updates(scale));
    ini_laws::law_update_read_back(content, "Environment"@, environment_updates(scale));
    ini_laws::law_update_read_back(first, "General"@, general_updates());
    ini_sections::law_update_keeps_other_sections(
        first,
        "Environment"@,
        "General"@,
        general_updates(),
    );
    ini_laws::lemma_settled_by_stripped(
        text::lines(first),
        "Environment"@,
        environment_updates(scale),
    );
}

} // verus!
