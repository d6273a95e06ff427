use chira::clock::{choose_template, local_time_or_dash, split_nanos, template_after_render, NameTemplate};
use chira::config::parse;
use chira::i18n::Lang;
use chira::ui::list_time;

#[test]
fn default_templates_name_scratch_entries() {
    assert_eq!(NameTemplate::file_default().as_str(), "scratch-%Y%m%d-%H%M%S.md");
    assert_eq!(NameTemplate::dir_default().as_str(), "scratch-%Y%m%d-%H%M%S");
    let file = NameTemplate::file_default().render();
    assert!(file.starts_with("scratch-") && file.ends_with(".md"), "{file}");
    assert_eq!(file.len(), "scratch-20240101-120000.md".len());
    let dir = NameTemplate::dir_default().render();
    assert!(dir.starts_with("scratch-") && !dir.contains('.'), "{dir}");
    assert_eq!(dir.len(), "scratch-20240101-120000".len());
}

#[test]
fn unset_template_keeps_default_without_warning() {
    let (t, w) = choose_template(Lang::En, "name_template", None, NameTemplate::file_default());
    assert_eq!(t.as_str(), "scratch-%Y%m%d-%H%M%S.md");
    assert!(w.is_none());
}

#[test]
fn readable_template_is_used() {
    let (t, w) = choose_template(Lang::En, "name_template", Some("memo-%Y-%m-%d_%H%M%S.md"), NameTemplate::file_default());
    assert_eq!(t.as_str(), "memo-%Y-%m-%d_%H%M%S.md");
    assert!(w.is_none());
    assert!(t.render().starts_with("memo-"));
}

#[test]
fn unknown_specifier_falls_back_with_warning() {
    let (t, w) = choose_template(Lang::En, "name_template", Some("memo-%Q"), NameTemplate::file_default());
    assert_eq!(t.as_str(), "scratch-%Y%m%d-%H%M%S.md");
    assert_eq!(w.unwrap(), "[new] name_template is not a format chrono can use (memo-%Q) — using the default");
}

#[test]
fn template_giving_a_bad_name_falls_back_with_warning() {
    let (t, w) = choose_template(Lang::En, "dir_template", Some(".hidden-%Y"), NameTemplate::dir_default());
    assert_eq!(t.as_str(), "scratch-%Y%m%d-%H%M%S");
    let w = w.unwrap();
    assert!(w.starts_with("[new] dir_template gives an invalid name (.hidden-%Y → .hidden-"), "{w}");
    let (t, w) = choose_template(Lang::Ja, "dir_template", Some("a/%Y"), NameTemplate::dir_default());
    assert_eq!(t.as_str(), "scratch-%Y%m%d-%H%M%S");
    assert!(w.unwrap().contains("が不正な名前になります"));
}

#[test]
fn decision_after_rendering_checks_the_name() {
    let (good, _) = choose_template(Lang::En, "name_template", Some("memo-%Y"), NameTemplate::file_default());
    let (t, w) = template_after_render(Lang::En, "name_template", good, NameTemplate::file_default(), "memo-2024");
    assert_eq!(t.as_str(), "memo-%Y");
    assert!(w.is_none());
    let (good, _) = choose_template(Lang::En, "name_template", Some("memo-%Y"), NameTemplate::file_default());
    let (t, w) = template_after_render(Lang::En, "name_template", good, NameTemplate::file_default(), "");
    assert_eq!(t.as_str(), "scratch-%Y%m%d-%H%M%S.md");
    assert_eq!(w.unwrap(), "[new] name_template gives an invalid name (memo-%Y → ) — using the default");
}

#[test]
fn config_reads_new_section_trimmed() {
    let config = parse("[new]\nname_template = \"  memo-%Y.md \"\ndir_template = \"   \"\n").unwrap();
    assert_eq!(config.new.name_template.as_deref(), Some("memo-%Y.md"));
    assert_eq!(config.new.dir_template, None);
    let config = parse("[new]\nname_template = 3\n").unwrap();
    assert_eq!(config.new.name_template, None);
}

#[test]
fn split_nanos_rounds_down() {
    assert_eq!(split_nanos(1_500_000_000), Some((1, 500_000_000)));
    assert_eq!(split_nanos(-1), Some((-1, 999_999_999)));
    assert_eq!(split_nanos(0), Some((0, 0)));
    assert_eq!(split_nanos(i128::MAX), None);
}

#[test]
fn times_out_of_range_show_a_dash() {
    assert_eq!(list_time(i128::MAX), "-");
    assert_eq!(local_time_or_dash(i128::MIN, "%Y"), "-");
    let t = list_time(1_700_000_000_000_000_000);
    assert_eq!(t.len(), "11/14 22:13".len(), "{t}");
}

#[test]
fn template_chrono_reads_but_cannot_write_falls_back() {
    let (t, w) = choose_template(Lang::En, "name_template", Some("memo-%#z"), NameTemplate::file_default());
    assert_eq!(t.as_str(), "scratch-%Y%m%d-%H%M%S.md");
    assert_eq!(w.unwrap(), "[new] name_template is not a format chrono can use (memo-%#z) — using the default");
}

#[test]
fn a_time_column_shows_the_entry_s_own_date() {
    // 2000-03-01 12:00:00 UTC: whatever the time zone, the local date is within a day of it.
    let t = local_time_or_dash(951_912_000_000_000_000, "%Y-%m-%d");
    assert!(["2000-02-29", "2000-03-01", "2000-03-02"].contains(&t.as_str()), "{t}");
    let t = list_time(0);
    assert!(t.starts_with("12/31 ") || t.starts_with("01/01 "), "{t}");
}
