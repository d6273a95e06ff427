use chira::config::{parse, read_and_parse, resolve_path, ArchiveConfig, Config, FileRead};
use chira::i18n::Lang;

#[test]
fn resolve_path_precedence() {
    assert_eq!(
        resolve_path(Some("/etc/chira.toml".into()), Some("/xdg".into()), Some("/home/u".into())),
        Some("/etc/chira.toml".to_string())
    );
    assert_eq!(
        resolve_path(None, Some("/xdg".into()), Some("/home/u".into())),
        Some("/xdg/chira/config.toml".to_string())
    );
    assert_eq!(
        resolve_path(None, None, Some("/home/u".into())),
        Some("/home/u/.config/chira/config.toml".to_string())
    );
    assert_eq!(resolve_path(None, None, None), None);
}

#[test]
fn missing_config_is_silent_default() {
    let (config, warning) = read_and_parse("/x/absent.toml", Lang::En, FileRead::Missing);
    assert_eq!(config, Config::default());
    assert_eq!(warning, None);
}

#[test]
fn valid_config_has_no_warning() {
    let text = "dir = \"/scratch\"\neditor = \"nvim\"\n".to_string();
    let (config, warning) = read_and_parse("/x/config.toml", Lang::En, FileRead::Text(text));
    assert_eq!(config.dir.as_deref(), Some("/scratch"));
    assert_eq!(config.editor.as_deref(), Some("nvim"));
    assert_eq!(config.shell, None);
    assert_eq!(warning, None);
}

#[test]
fn broken_config_warns_and_defaults() {
    let (config, warning) = read_and_parse("/x/config.toml", Lang::En, FileRead::Text("dir = ".to_string()));
    assert_eq!(config, Config::default());
    let w = warning.unwrap();
    assert!(w.contains("parse"));
    assert!(w.contains("/x/config.toml"));
}

#[test]
fn unreadable_config_warns_and_defaults() {
    let (config, warning) =
        read_and_parse("/x/config.toml", Lang::En, FileRead::Failed("Permission denied".to_string()));
    assert_eq!(config, Config::default());
    let w = warning.unwrap();
    assert!(w.contains("read"));
    assert!(w.contains("Permission denied"));
}

#[test]
fn parse_extracts_known_string_keys() {
    let config = parse(
        r#"
            dir = "~/scratch"
            editor = "nvim --clean"
            shell = "/bin/zsh"
            "#,
    )
    .unwrap();
    assert_eq!(
        config,
        Config {
            dir: Some("~/scratch".into()),
            editor: Some("nvim --clean".into()),
            shell: Some("/bin/zsh".into()),
            ..Default::default()
        }
    );
}

#[test]
fn parse_empty_is_all_none() {
    assert_eq!(parse("").unwrap(), Config::default());
    assert_eq!(parse("foo = \"bar\"\ndir = \"\"").unwrap(), Config::default());
}

#[test]
fn parse_ignores_non_string_values() {
    let config = parse("dir = 42\neditor = \"vi\"\n[shell]\nx = 1").unwrap();
    assert_eq!(
        config,
        Config {
            dir: None,
            editor: Some("vi".into()),
            shell: None,
            ..Default::default()
        }
    );
}

#[test]
fn parse_extracts_archive_section() {
    let config = parse(
        r#"
            [archive]
            ttl_days = 30
            dir = "~/scratch-archive"
            on_startup = true
            keep = ["pinned-*", "longterm/"]
            "#,
    )
    .unwrap();
    assert_eq!(config.archive.ttl_days, Some(30));
    assert_eq!(config.archive.dir.as_deref(), Some("~/scratch-archive"));
    assert!(config.archive.on_startup);
    assert_eq!(config.archive.keep, vec!["pinned-*".to_string(), "longterm/".to_string()]);
}

#[test]
fn parse_archive_missing_is_default_off() {
    let config = parse("dir = \"/scratch\"").unwrap();
    assert_eq!(config.archive, ArchiveConfig::default());
    assert!(!config.archive.on_startup);
    assert_eq!(config.archive.ttl_days, None);
    assert!(config.archive.keep.is_empty());
}

#[test]
fn parse_archive_ignores_non_string_keep_entries() {
    let config = parse(
        r#"
            [archive]
            keep = ["ok-*", 42, "", "longterm/"]
            "#,
    )
    .unwrap();
    assert_eq!(config.archive.keep, vec!["ok-*".to_string(), "longterm/".to_string()]);
}

#[test]
fn parse_archive_rejects_negative_ttl() {
    let config = parse("[archive]\nttl_days = -1").unwrap();
    assert_eq!(config.archive.ttl_days, None);
}

#[test]
fn parse_extracts_actions_sorted_by_name() {
    let config = parse(
        r#"
            [actions.rust]
            description = "rust skeleton"
            run = "rsync -a ~/.config/chira/skel/rust/ ./ && cargo init -q"

            [actions.clone]
            run = "git clone --depth 1 git@example.com:me/sandbox.git ."
            "#,
    )
    .unwrap();
    assert_eq!(config.actions.len(), 2);
    assert_eq!(config.actions[0].name, "clone");
    assert_eq!(config.actions[0].description, None);
    assert!(config.actions[0].run.starts_with("git clone"));
    assert_eq!(config.actions[1].name, "rust");
    assert_eq!(config.actions[1].description.as_deref(), Some("rust skeleton"));
}

#[test]
fn parse_actions_treats_whitespace_only_run_as_empty_and_trims() {
    let config = parse(
        r#"
            [actions.blank]
            run = "   "

            [actions.padded]
            run = "  git init -q  "
            "#,
    )
    .unwrap();
    assert_eq!(config.actions.len(), 1);
    assert_eq!(config.actions[0].name, "padded");
    assert_eq!(config.actions[0].run, "git init -q");
}

#[test]
fn parse_actions_skips_entries_without_run() {
    let config = parse(
        r#"
            [actions.ok]
            run = "git init -q"

            [actions.no_run]
            description = "missing run"

            [actions.empty_run]
            run = ""

            [actions.bad_type]
            run = 42
            "#,
    )
    .unwrap();
    assert_eq!(config.actions.len(), 1);
    assert_eq!(config.actions[0].name, "ok");
}

#[test]
fn parse_actions_missing_is_empty() {
    let config = parse("dir = \"/scratch\"").unwrap();
    assert!(config.actions.is_empty());
}

#[test]
fn parse_extracts_default_action() {
    let config = parse(
        r#"
            default_action = "rust"

            [actions.rust]
            run = "cargo init -q"
            "#,
    )
    .unwrap();
    assert_eq!(config.default_action.as_deref(), Some("rust"));
    assert_eq!(config.actions.len(), 1);
}

#[test]
fn parse_default_action_missing_and_empty_are_none() {
    assert_eq!(parse("dir = \"/scratch\"").unwrap().default_action, None);
    assert_eq!(parse("default_action = \"\"").unwrap().default_action, None);
    assert_eq!(parse("default_action = 42").unwrap().default_action, None);
}

#[test]
fn parse_broken_toml_is_err() {
    assert!(parse("dir = ").is_err());
    assert!(parse("[unterminated").is_err());
}
