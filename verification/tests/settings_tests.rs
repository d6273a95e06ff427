use chira::app::{Key, KeyCode};
use chira::config::{parse, Config};
use chira::i18n::Lang;
use chira::settings::{item_help, parse_days, DaysParse, Settings, SettingsMode, KEEP_ITEM, SETTING_COUNT};

fn press(code: KeyCode) -> Key {
    Key { code, ctrl: false, press: true }
}

fn typing(s: &mut Settings, text: &str) {
    for c in text.chars() {
        s.on_key(press(KeyCode::Char(c)));
    }
}

fn open(text: &str) -> Settings {
    let config = parse(text).unwrap();
    Settings::open(Lang::En, &config, (false, false, false), Some("/cfg/config.toml".to_string()))
}

fn save(s: &mut Settings, current: &str) -> String {
    s.on_key(press(KeyCode::Char('s')));
    assert_eq!(s.save.as_deref(), Some("/cfg/config.toml"));
    let text = s.file_text(current).unwrap();
    s.saved(Ok(()));
    text
}

#[test]
fn settings_list_every_item_in_order() {
    let labels: Vec<&str> = (0..SETTING_COUNT).map(|i| item_help(Lang::En, i).label).collect();
    assert_eq!(
        labels,
        vec!["dir", "editor", "shell", "archive.ttl_days", "archive.dir", "archive.on_startup", "archive.keep"]
    );
}

#[test]
fn settings_show_values_and_sources() {
    let config = parse("editor = \"nvim\"\n[archive]\nttl_days = 30\nkeep = [\"a\", \"b/\"]\n").unwrap();
    let s = Settings::open(Lang::En, &config, (true, false, false), None);
    assert_eq!(s.value_text(1), "nvim");
    assert_eq!(s.source_text(1), "(config)");
    assert_eq!(s.source_text(0), "(env: CHIRA_DIR)");
    assert_eq!(s.overriding_env(0), Some("CHIRA_DIR"));
    assert_eq!(s.source_text(2), "(default)");
    assert_eq!(s.value_text(3), "30");
    assert_eq!(s.value_text(5), "false");
    assert_eq!(s.value_text(6), "a, b/");
}

#[test]
fn editing_a_text_setting_and_saving_keeps_the_rest_of_the_file() {
    let file = "# my settings\neditor = \"vi\"   # the editor\nshell = \"/bin/sh\"\n";
    let mut s = open(file);
    s.on_key(press(KeyCode::Down));
    s.on_key(press(KeyCode::Enter));
    assert_eq!(s.mode, SettingsMode::Edit);
    assert_eq!(s.input, "vi");
    s.on_key(press(KeyCode::Backspace));
    s.on_key(press(KeyCode::Backspace));
    typing(&mut s, "  nvim ");
    s.on_key(press(KeyCode::Enter));
    assert_eq!(s.mode, SettingsMode::List);
    assert_eq!(s.draft.editor.as_deref(), Some("nvim"));
    let text = save(&mut s, file);
    assert!(text.starts_with("# my settings\n"), "{text}");
    assert!(text.contains("shell = \"/bin/sh\"\n"), "{text}");
    let back: Config = parse(&text).unwrap();
    assert_eq!(back.editor.as_deref(), Some("nvim"));
    assert_eq!(back.shell.as_deref(), Some("/bin/sh"));
    assert_eq!(s.status, "Saved: /cfg/config.toml");
}

#[test]
fn saving_without_changes_leaves_the_text_alone() {
    let file = "dir = \"~/x\"  # keep me\n\n[archive]\nttl_days = 3\n";
    let mut s = open(file);
    assert_eq!(save(&mut s, file), file);
}

#[test]
fn blank_text_unsets_and_removes_the_key() {
    let file = "dir = \"~/x\"\neditor = \"vi\"\n";
    let mut s = open(file);
    s.on_key(press(KeyCode::Enter));
    for _ in 0..3 {
        s.on_key(press(KeyCode::Backspace));
    }
    typing(&mut s, "   ");
    s.on_key(press(KeyCode::Enter));
    assert_eq!(s.draft.dir, None);
    let text = save(&mut s, file);
    assert_eq!(text, "editor = \"vi\"\n");
}

#[test]
fn ttl_accepts_whole_days_only() {
    let mut s = open("");
    for _ in 0..3 {
        s.on_key(press(KeyCode::Down));
    }
    s.on_key(press(KeyCode::Enter));
    typing(&mut s, "abc");
    s.on_key(press(KeyCode::Enter));
    assert_eq!(s.mode, SettingsMode::Edit);
    assert_eq!(s.status, "Not a valid non-negative integer");
    s.on_key(press(KeyCode::Esc));
    assert_eq!(s.mode, SettingsMode::List);
    assert_eq!(s.draft.ttl_days, None);
    s.on_key(press(KeyCode::Enter));
    typing(&mut s, "999999999999999");
    s.on_key(press(KeyCode::Enter));
    assert_eq!(s.status, "Value too large (ttl_days * 86_400 would overflow u64)");
    s.on_key(press(KeyCode::Esc));
    s.on_key(press(KeyCode::Enter));
    typing(&mut s, " 14 ");
    s.on_key(press(KeyCode::Enter));
    assert_eq!(s.draft.ttl_days, Some(14));
    let text = save(&mut s, "");
    let back = parse(&text).unwrap();
    assert_eq!(back.archive.ttl_days, Some(14));
}

#[test]
fn parse_days_reads_whole_numbers() {
    assert!(matches!(parse_days(""), DaysParse::Unset));
    assert!(matches!(parse_days(" 0 "), DaysParse::Days(0)));
    assert!(matches!(parse_days("30"), DaysParse::Days(30)));
    assert!(matches!(parse_days("-1"), DaysParse::Invalid));
    assert!(matches!(parse_days("3d"), DaysParse::Invalid));
    assert!(matches!(parse_days("213503982334601"), DaysParse::Days(213503982334601)));
    assert!(matches!(parse_days("213503982334602"), DaysParse::TooLarge));
    assert!(matches!(parse_days("99999999999999999999999"), DaysParse::TooLarge));
}

#[test]
fn space_toggles_on_startup() {
    let mut s = open("[archive]\nttl_days = 7\n");
    for _ in 0..5 {
        s.on_key(press(KeyCode::Down));
    }
    s.on_key(press(KeyCode::Char(' ')));
    assert!(s.draft.on_startup);
    assert_eq!(s.source_text(5), "(config)");
    let text = save(&mut s, "[archive]\nttl_days = 7\n");
    let back = parse(&text).unwrap();
    assert!(back.archive.on_startup);
    assert_eq!(back.archive.ttl_days, Some(7));
}

#[test]
fn keep_patterns_are_added_edited_and_removed() {
    let mut s = open("");
    for _ in 0..KEEP_ITEM {
        s.on_key(press(KeyCode::Down));
    }
    s.on_key(press(KeyCode::Enter));
    assert_eq!(s.mode, SettingsMode::Keep);
    s.on_key(press(KeyCode::Char('a')));
    typing(&mut s, "pinned-*");
    s.on_key(press(KeyCode::Enter));
    s.on_key(press(KeyCode::Char('a')));
    typing(&mut s, "  ");
    s.on_key(press(KeyCode::Enter));
    s.on_key(press(KeyCode::Char('a')));
    typing(&mut s, "longterm/");
    s.on_key(press(KeyCode::Enter));
    assert_eq!(s.draft.keep, vec!["pinned-*".to_string(), "longterm/".to_string()]);
    assert_eq!(s.keep_cursor, 1);
    s.on_key(press(KeyCode::Up));
    s.on_key(press(KeyCode::Enter));
    assert_eq!(s.input, "pinned-*");
    s.on_key(press(KeyCode::Backspace));
    typing(&mut s, "x");
    s.on_key(press(KeyCode::Enter));
    assert_eq!(s.draft.keep[0], "pinned-x");
    s.on_key(press(KeyCode::Down));
    s.on_key(press(KeyCode::Char('d')));
    assert_eq!(s.draft.keep, vec!["pinned-x".to_string()]);
    assert_eq!(s.keep_cursor, 0);
    s.on_key(press(KeyCode::Esc));
    assert_eq!(s.mode, SettingsMode::List);
    let text = save(&mut s, "");
    assert_eq!(parse(&text).unwrap().archive.keep, vec!["pinned-x".to_string()]);
}

#[test]
fn saving_needs_a_path_and_reports_failures() {
    let config = Config::default();
    let mut s = Settings::open(Lang::En, &config, (false, false, false), None);
    s.on_key(press(KeyCode::Char('s')));
    assert!(s.save.is_none());
    assert_eq!(s.status, "No save path resolves ($HOME and $XDG_CONFIG_HOME both unset)");
    let mut s = open("");
    s.on_key(press(KeyCode::Char('s')));
    s.saved(Err("Permission denied".to_string()));
    assert_eq!(s.status, "Failed to save: Permission denied");
    assert!(s.save.is_none());
}

#[test]
fn broken_file_and_non_table_archive_are_errors() {
    let mut s = open("");
    s.on_key(press(KeyCode::Down));
    s.on_key(press(KeyCode::Enter));
    typing(&mut s, "nano");
    s.on_key(press(KeyCode::Enter));
    assert!(s.file_text("editor = ").is_err());
    let mut s = open("");
    for _ in 0..5 {
        s.on_key(press(KeyCode::Down));
    }
    s.on_key(press(KeyCode::Enter));
    assert_eq!(s.file_text("archive = 3\n").unwrap_err(), "`archive` is not a table");
}

#[test]
fn escape_leaves_the_screen_and_releases_do_nothing() {
    let mut s = open("");
    s.on_key(Key { code: KeyCode::Esc, ctrl: false, press: false });
    assert!(!s.closed);
    s.on_key(press(KeyCode::Esc));
    assert!(s.closed);
}

#[test]
fn clearing_an_archive_setting_removes_it_from_its_table() {
    let file = "[archive]\nttl_days = 5\ndir = \"~/old\"\n";
    let mut s = open(file);
    for _ in 0..4 {
        s.on_key(press(KeyCode::Down));
    }
    s.on_key(press(KeyCode::Enter));
    assert_eq!(s.input, "~/old");
    for _ in 0..5 {
        s.on_key(press(KeyCode::Backspace));
    }
    s.on_key(press(KeyCode::Enter));
    assert_eq!(s.draft.archive_dir, None);
    let text = save(&mut s, file);
    assert_eq!(text, "[archive]\nttl_days = 5\n");
}
