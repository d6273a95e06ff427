use chira::i18n::{help_rows, status_run_action, usage, Lang};

#[test]
fn usage_lists_every_subcommand() {
    for sub in ["ls", "tree", "new", "mkdir", "edit", "shell", "rm", "mv", "path", "find", "gc"] {
        assert!(usage(Lang::En).contains(sub));
        assert!(usage(Lang::Ja).contains(sub));
    }
}

#[test]
fn help_rows_cover_the_keys() {
    let rows = help_rows(Lang::En);
    assert!(rows.iter().any(|(k, _)| k.contains('?')));
    assert_eq!(rows.len(), help_rows(Lang::Ja).len());
    assert_eq!(status_run_action(Lang::En, "demo"), "Ran action: demo");
}
