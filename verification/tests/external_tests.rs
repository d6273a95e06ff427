use chira::external::{command_argv, editor_argv, exit_code, resolve_external, run_environment, shell_argv};
use chira::i18n::Lang;

#[test]
fn resolve_external_precedence() {
    assert_eq!(resolve_external(Some("nvim"), Some("emacs"), "vi"), "nvim");
    assert_eq!(resolve_external(None, Some("emacs"), "vi"), "emacs");
    assert_eq!(resolve_external(None, None, "vi"), "vi");
    assert_eq!(resolve_external(Some(""), Some("emacs"), "vi"), "emacs");
    assert_eq!(resolve_external(Some(""), Some(""), "vi"), "vi");
}

#[test]
fn command_argv_handles_args_and_quoted_paths() {
    let l = Lang::En;
    assert_eq!(command_argv(l, "vi").unwrap(), ["vi"]);
    assert_eq!(command_argv(l, "code --wait").unwrap(), ["code", "--wait"]);
    assert_eq!(command_argv(l, "zsh -l").unwrap(), ["zsh", "-l"]);
    assert_eq!(command_argv(l, "'/My Apps/subl' -w").unwrap(), ["/My Apps/subl", "-w"]);
    assert!(command_argv(l, "").is_err());
}

#[test]
fn command_argv_errors_name_the_cause() {
    assert_eq!(command_argv(Lang::En, "   ").unwrap_err(), "command is empty");
    assert_eq!(
        command_argv(Lang::En, "vi 'unclosed").unwrap_err(),
        "failed to parse command: missing closing quote"
    );
}

#[test]
fn editor_and_shell_command_lines() {
    assert_eq!(editor_argv(Lang::En, None, Some("code --wait"), "/s/a.md").unwrap(), ["code", "--wait", "/s/a.md"]);
    assert_eq!(editor_argv(Lang::En, Some(""), None, "/s/a.md").unwrap(), ["vi", "/s/a.md"]);
    assert_eq!(shell_argv(Lang::En, Some("zsh -l"), Some("bash")).unwrap(), ["zsh", "-l"]);
    assert_eq!(shell_argv(Lang::En, None, None).unwrap(), ["/bin/sh"]);
}

#[test]
fn action_environment() {
    let env = run_environment("/s/ws", "/s");
    assert_eq!(
        env,
        vec![
            ("CHIRA_TARGET".to_string(), "/s/ws".to_string()),
            ("CHIRA_TARGET_NAME".to_string(), "ws".to_string()),
            ("CHIRA_ROOT".to_string(), "/s".to_string()),
        ]
    );
}

#[test]
fn exit_code_from_status_handles_signal_termination() {
    assert_eq!(exit_code(Some(7), None), 7);
    assert_eq!(exit_code(None, Some(2)), 130);
    assert_eq!(exit_code(None, None), 1);
}
