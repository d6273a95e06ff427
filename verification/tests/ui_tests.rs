use chira::app::Mode;
use chira::i18n::Lang;
use chira::ui::{
    centered, confirm_action_layout, empty_list_hint, footer_text, preview_title, search_segment, truncate, wrap_rows, Area,
};

#[test]
fn wrap_rows_keeps_empty_lines_and_cuts_long_ones() {
    assert_eq!(wrap_rows("abcdef", 4), vec!["abcd".to_string(), "ef".to_string()]);
    assert_eq!(wrap_rows("a\n\nb", 10), vec!["a".to_string(), "".to_string(), "b".to_string()]);
    assert_eq!(wrap_rows("", 5), vec!["".to_string()]);
    assert_eq!(wrap_rows("abc", 0), vec!["a".to_string(), "b".to_string(), "c".to_string()]);
    assert_eq!(wrap_rows("abcd\n", 2), vec!["ab".to_string(), "cd".to_string(), "".to_string()]);
}

#[test]
fn truncate_adds_ellipsis_only_when_cut() {
    assert_eq!(truncate("short", 10), "short");
    assert_eq!(truncate("exactly", 7), "exactly");
    assert_eq!(truncate("abcdefgh", 3), "abc…");
    assert_eq!(truncate("日本語メモ", 2), "日本…");
}

#[test]
fn popups_are_centered_and_clamped() {
    let area = Area { x: 0, y: 1, width: 80, height: 22 };
    assert_eq!(centered(area, 60, 3), Area { x: 10, y: 10, width: 60, height: 3 });
    assert_eq!(centered(area, 100, 40), Area { x: 1, y: 1, width: 78, height: 22 });
    let tiny = Area { x: 0, y: 0, width: 1, height: 0 };
    assert_eq!(centered(tiny, 60, 3), Area { x: 0, y: 0, width: 0, height: 0 });
}

#[test]
fn confirm_layout_shows_whole_command() {
    let area = Area { x: 0, y: 1, width: 80, height: 22 };
    let l = confirm_action_layout(Lang::En, area, "ws", "git init -q");
    assert_eq!(l.prompt_rows, vec!["Run the following in new \"ws/\":".to_string()]);
    assert_eq!(l.command_rows, vec!["git init -q".to_string()]);
    assert_eq!(l.popup, Area { x: 4, y: 9, width: 72, height: 6 });
    let long = "x".repeat(150);
    let l = confirm_action_layout(Lang::En, area, "ws", &long);
    assert_eq!(l.command_rows.len(), 3);
    assert_eq!(l.popup.height, 8);
}

#[test]
fn footer_and_search_segment() {
    assert!(footer_text(Lang::En, Mode::Browse).contains("q:quit"));
    assert_eq!(search_segment(Lang::En, Mode::Browse, ""), None);
    assert_eq!(search_segment(Lang::En, Mode::Search, "al").unwrap(), "Search: al▌");
    assert_eq!(search_segment(Lang::En, Mode::Browse, "al").unwrap(), "Search: al");
}

#[test]
fn preview_title_and_empty_hint_follow_the_state() {
    assert_eq!(preview_title(Lang::En, true), chira::i18n::preview_dir_title(Lang::En));
    assert_eq!(preview_title(Lang::En, false), chira::i18n::preview_file_title(Lang::En));
    assert_eq!(empty_list_hint(Lang::En, true), chira::i18n::empty_search_hint(Lang::En));
    assert_eq!(empty_list_hint(Lang::En, false), chira::i18n::empty_hint(Lang::En));
}
