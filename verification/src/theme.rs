//! The theme of the Openbox window manager.

use crate::decimal;
use crate::facts;
use crate::kv;
use crate::kv_laws;
use crate::plan;
use crate::plan::{Step, StepView};
use crate::text;
use vstd::prelude::*;

verus! {

/// The directory of a theme below a directory of themes.
pub open spec fn theme_dir(base: Seq<char>, name: Seq<char>) -> Seq<char> {
    base + name + "/openbox-3"@
}

/// The file of a theme below a directory of themes.
pub open spec fn theme_file(base: Seq<char>, name: Seq<char>) -> Seq<char> {
    theme_dir(base, name) + "/themerc"@
}

/// Where a theme can stand: with the user's own themes, or with those of the system.
pub struct ThemePaths {
    pub user: String,
    pub system: String,
}

/// Where the files of a theme can stand.
pub fn openbox_theme_paths(theme_name: &str) -> (r: ThemePaths)
    ensures
        r.user@ == theme_file("root/.themes/"@, theme_name@),
        r.system@ == theme_file("usr/share/themes/"@, theme_name@),
{
    let mut user = String::new();
    user.append("root/.themes/");
    user.append(theme_name);
    user.append("/openbox-3");
    user.append("/themerc");
    let mut system = String::new();
    system.append("usr/share/themes/");
    system.append(theme_name);
    system.append("/openbox-3");
    system.append("/themerc");
    assert(user@ =~= theme_file("root/.themes/"@, theme_name@));
    assert(system@ =~= theme_file("usr/share/themes/"@, theme_name@));
    ThemePaths { user, system }
}

/// What a scaled theme sets.
pub open spec fn theme_updates(scale: int) -> Seq<(Seq<char>, Seq<char>)> {
    seq![
        ("button.width"@, decimal::decimal(18 * scale)),
        ("button.height"@, decimal::decimal(18 * scale)),
        ("title.height"@, decimal::decimal(22 * scale)),
    ]
}

/// The text of a scaled theme.
pub open spec fn theme_text(content: Seq<char>, scale: int) -> Seq<char> {
    kv::kv_upsert(content, ':', theme_updates(scale))
}

/// The first of two files that exists: that of the user, else that of the system.
pub open spec fn first_file(user: Option<Seq<char>>, system: Option<Seq<char>>) -> Option<
    Seq<char>,
> {
    match user {
        Some(_) => user,
        None => system,
    }
}

/// The steps: write the scaled theme to the user's own themes. Where there is no theme, or it is
/// empty, there are none.
pub open spec fn theme_steps(
    theme_name: Seq<char>,
    scale: int,
    user: Option<Seq<char>>,
    system: Option<Seq<char>>,
) -> Seq<StepView> {
    match first_file(user, system) {
        Some(content) => if content.len() > 0 {
            seq![
                plan::try_create_dir(theme_dir("root/.themes/"@, theme_name)),
                plan::write_or(
                    theme_file("root/.themes/"@, theme_name),
                    theme_text(content, scale),
                    "Failed to write openbox theme file"@,
                ),
            ]
        } else {
            Seq::empty()
        },
        None => Seq::empty(),
    }
}

/// The text of a scaled theme.
pub fn scale_theme(content: &str, scale: i32) -> (r: String)
    requires
        i32::MIN <= 22 * scale <= i32::MAX,
    ensures
        r@ == theme_text(content@, scale as int),
{
    let button_size: i32 = 18 * scale;
    let title_height: i32 = 22 * scale;
    let mut lines = kv::parse_kv_lines(content, ':');
    let button_text = decimal::signed_text(button_size);
    let title_text = decimal::signed_text(title_height);
    kv::set_kv_value(&mut lines, "button.width", button_text.as_str(), ':');
    kv::set_kv_value(&mut lines, "button.height", button_text.as_str(), ':');
    kv::set_kv_value(&mut lines, "title.height", title_text.as_str(), ':');
    proof {
        let start = kv::kv_lines(content@, ':');
        let u = theme_updates(scale as int);
        assert(u.drop_last().drop_last().drop_last() =~= Seq::<(Seq<char>, Seq<char>)>::empty());
        assert(u.drop_last().drop_last().last() == u[0]);
        assert(u.drop_last().last() == u[1]);
        assert(u.last() == u[2]);
        reveal_with_fuel(kv::kv_set_all, 4);
        assert(kv::kv_views(lines@) == kv::kv_set_all(start, u, ':'));
    }
    kv::render_kv_lines(lines.as_slice())
}

/// The steps that scale a theme, given its two files where they exist. A file that cannot be read
/// counts as empty.
pub fn update_openbox_theme(
    theme_name: &str,
    scale: i32,
    user: Option<&str>,
    system: Option<&str>,
) -> (r: Vec<Step>)
    requires
        first_file(text::opt_str(user), text::opt_str(system)) matches Some(content) && content.len() > 0
            ==> i32::MIN <= 22 * scale <= i32::MAX,
    ensures
        plan::step_views(r@) == theme_steps(
            theme_name@,
            scale as int,
            text::opt_str(user),
            text::opt_str(system),
        ),
{
    let mut steps: Vec<Step> = Vec::new();
    assert(plan::step_views(steps@) =~= Seq::<StepView>::empty());
    let source: &str = match user {
        Some(content) => content,
        None => match system {
            Some(content) => content,
            None => {
                return steps;
            },
        },
    };
    if source.is_empty() {
        return steps;
    }
    let scaled = scale_theme(source, scale);
    let mut dir = String::new();
    dir.append("root/.themes/");
    dir.append(theme_name);
    dir.append("/openbox-3");
    assert(dir@ =~= theme_dir("root/.themes/"@, theme_name@));
    let mut file = dir.clone();
    file.append("/themerc");
    assert(file@ =~= theme_file("root/.themes/"@, theme_name@));
    plan::push_try_create_dir(&mut steps, dir.as_str());
    plan::push_write_or(
        &mut steps,
        file.as_str(),
        scaled.as_str(),
        "Failed to write openbox theme file",
    );
    assert(plan::step_views(steps@) =~= theme_steps(
        theme_name@,
        scale as int,
        text::opt_str(user),
        text::opt_str(system),
    ));
    steps
}

/// Numbers have no white space at their ends and hold no line feed.
pub proof fn lemma_decimal_value(n: int)
    ensures
        facts::one_line(decimal::decimal(n)),
        text::trim(decimal::decimal(n)) == decimal::decimal(n),
{
    decimal::lemma_decimal_chars(n);
    let v = decimal::decimal(n);
    assert(!v.contains('\n'));
    assert(v.contains(v[0]));
    assert(v.contains(v.last()));
    facts::lemma_trim_clean(v);
}

/// What a scaled theme sets can stand in a theme.
proof fn lemma_theme_updates(scale: int)
    ensures
        kv_laws::valid_updates(theme_updates(scale), ':'),
        kv_laws::last_value(theme_updates(scale), "button.width"@) == Some(
            decimal::decimal(18 * scale),
        ),
        kv_laws::last_value(theme_updates(scale), "button.height"@) == Some(
            decimal::decimal(18 * scale),
        ),
        kv_laws::last_value(theme_updates(scale), "title.height"@) == Some(
            decimal::decimal(22 * scale),
        ),
{
    reveal_strlit("button.width");
    reveal_strlit("button.height");
    reveal_strlit("title.height");
    lemma_decimal_value(18 * scale);
    lemma_decimal_value(22 * scale);
    let u = theme_updates(scale);
    assert(u.drop_last().drop_last().last() == u[0]);
    assert(u.drop_last().last() == u[1]);
    assert(u.last() == u[2]);
    assert("button.width"@.len() != "button.height"@.len());
    assert("button.width"@[0] != "title.height"@[0]);
    assert("button.height"@[0] != "title.height"@[0]);
    reveal_with_fuel(kv_laws::last_value, 4);
    assert forall|i: int| 0 <= i < u.len() implies kv_laws::valid_key((#[trigger] u[i]).0, ':')
        && kv_laws::valid_value(u[i].1) by {
        let key = u[i].0;
        assert(i == 0 || i == 1 || i == 2);
    }
}

/// All entries for `key` have this value, and there is one.
pub open spec fn reads_as(
    lines: Seq<kv::KvView>,
    key: Seq<char>,
    value: Seq<char>,
) -> bool {
    &&& kv::has_key(lines, key)
    &&& forall|i: int|
        0 <= i < lines.len() && #[trigger] kv::is_entry_for(lines[i], key) ==> lines[i]->value
            == value
}

/// In a scaled theme, buttons are 18 and titles 22 pixels high for each unit of the scale.
pub proof fn law_theme_read_back(content: Seq<char>, scale: int)
    ensures
        ({
            let r = kv::kv_lines(theme_text(content, scale), ':');
            &&& reads_as(r, "button.width"@, decimal::decimal(18 * scale))
            &&& reads_as(r, "button.height"@, decimal::decimal(18 * scale))
            &&& reads_as(r, "title.height"@, decimal::decimal(22 * scale))
        }),
{
    lemma_theme_updates(scale);
    lemma_decimal_value(18 * scale);
    lemma_decimal_value(22 * scale);
    kv_laws::law_upsert_read_back(content, ':', theme_updates(scale));
}

} // verus!
