use chira::i18n::{resolve_lang, Lang};

#[test]
fn chira_lang_override_wins() {
    assert_eq!(resolve_lang(Some("ja"), Some("en_US.UTF-8"), None, None), Lang::Ja);
    assert_eq!(resolve_lang(Some("en"), Some("ja_JP.UTF-8"), None, None), Lang::En);
}

#[test]
fn chira_lang_aliases_and_case_insensitive() {
    assert_eq!(resolve_lang(Some("JA"), None, None, None), Lang::Ja);
    assert_eq!(resolve_lang(Some("ja_JP"), None, None, None), Lang::Ja);
    assert_eq!(resolve_lang(Some("Japanese"), None, None, None), Lang::Ja);
    assert_eq!(resolve_lang(Some("EN"), None, None, None), Lang::En);
    assert_eq!(resolve_lang(Some("en_US"), None, None, None), Lang::En);
    assert_eq!(resolve_lang(Some("English"), None, None, None), Lang::En);
}

#[test]
fn chira_lang_unknown_falls_back_to_locale() {
    assert_eq!(resolve_lang(Some("xx"), Some("ja_JP.UTF-8"), None, None), Lang::Ja);
    assert_eq!(resolve_lang(Some(""), Some("ja_JP.UTF-8"), None, None), Lang::Ja);
}

#[test]
fn locale_precedence_lc_all_first() {
    assert_eq!(resolve_lang(None, Some("ja_JP.UTF-8"), Some("en_US"), Some("en_US")), Lang::Ja);
    assert_eq!(resolve_lang(None, Some("en_US.UTF-8"), Some("ja_JP"), Some("ja_JP")), Lang::En);
}

#[test]
fn empty_locale_skipped() {
    assert_eq!(resolve_lang(None, Some(""), Some("ja_JP.UTF-8"), None), Lang::Ja);
}

#[test]
fn default_when_nothing_set() {
    assert_eq!(resolve_lang(None, None, None, None), Lang::En);
}

#[test]
fn c_or_posix_treated_as_en() {
    assert_eq!(resolve_lang(None, Some("C"), None, None), Lang::En);
    assert_eq!(resolve_lang(None, Some("POSIX"), None, None), Lang::En);
}

#[test]
fn lang_variable_is_last_locale_consulted() {
    assert_eq!(resolve_lang(None, None, None, Some("ja_JP.UTF-8")), Lang::Ja);
    assert_eq!(resolve_lang(None, None, Some("ja"), Some("en_US")), Lang::Ja);
}
