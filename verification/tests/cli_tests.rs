use chira::cli::{
    archive_dir_for, confirms, delete_prompt, find_matches, format_ls_line, format_name, gc_ttl, is_subcommand, ls_long_line,
    plan, requested_path, rm_refusal, startup_ttl, exit_code_of, Command, Ending, Plan,
};
use chira::i18n::Lang;
use chira::scratch::Entry;

fn words(v: &[&str]) -> Vec<String> {
    v.iter().map(|s| (*s).into()).collect()
}

#[test]
fn is_subcommand_matches_known() {
    for s in ["ls", "tree", "new", "mkdir", "edit", "shell", "rm", "mv", "path", "find"] {
        assert!(is_subcommand(s), "expected {s} to be a subcommand");
    }
    assert!(!is_subcommand(""));
    assert!(!is_subcommand("status"));
    assert!(!is_subcommand("--cd-file"));
}

#[test]
fn gc_reads_its_options() {
    let l = Lang::En;
    assert_eq!(
        plan(l, "gc", &words(&["--ttl", "30d", "--dry-run"])),
        Plan::Run(Command::Gc { ttl: Some("30d".into()), archive_dir: None, dry_run: true })
    );
    assert_eq!(
        plan(l, "gc", &words(&["--archive-dir", "/old"])),
        Plan::Run(Command::Gc { ttl: None, archive_dir: Some("/old".into()), dry_run: false })
    );
    assert_eq!(plan(l, "gc", &words(&["--ttl"])), Plan::BadArgs("--ttl requires an argument\n".into()));
    assert_eq!(plan(l, "gc", &words(&["--bogus"])), Plan::BadArgs("gc: unknown option: --bogus".into()));
    assert_eq!(plan(l, "gc", &words(&["extra"])), Plan::BadArgs("gc: too many arguments".into()));
}

#[test]
fn gc_ttl_comes_from_the_flag_or_the_configuration() {
    let l = Lang::En;
    assert_eq!(gc_ttl(l, Some("12h"), Some(30)).unwrap(), 43_200);
    assert_eq!(gc_ttl(l, None, Some(30)).unwrap(), 2_592_000);
    assert!(gc_ttl(l, None, Some(0)).unwrap_err().starts_with("No TTL specified"));
    assert!(gc_ttl(l, None, None).unwrap_err().starts_with("No TTL specified"));
    assert_eq!(gc_ttl(l, Some("0"), Some(30)).unwrap_err(), "Failed to parse --ttl: duration must be > 0\n");
}

#[test]
fn archive_dir_defaults_under_the_root() {
    assert_eq!(archive_dir_for("/s", None, None, None).unwrap(), "/s/.archive");
    assert_eq!(archive_dir_for("/s", Some("/old"), Some("~/a"), Some("/h")).unwrap(), "/old");
    assert_eq!(archive_dir_for("/s", None, Some("~/a"), Some("/h")).unwrap(), "/h/a");
    assert!(archive_dir_for("/s", None, Some("~/a"), None).is_err());
}

#[test]
fn plans_read_flags_and_words() {
    let l = Lang::En;
    assert_eq!(plan(l, "ls", &words(&["-l", "ws"])), Plan::Run(Command::Ls { long: true, path: Some("ws".into()) }));
    assert_eq!(plan(l, "ls", &words(&[])), Plan::Run(Command::Ls { long: false, path: None }));
    assert_eq!(
        plan(l, "new", &words(&["note.md", "--no-edit"])),
        Plan::Run(Command::New { name: Some("note.md".into()), no_edit: true })
    );
    assert_eq!(
        plan(l, "rm", &words(&["ws", "-rf"])),
        Plan::Run(Command::Rm { name: "ws".into(), force: true, recursive: true })
    );
    assert_eq!(
        plan(l, "rm", &words(&["-R", "ws"])),
        Plan::Run(Command::Rm { name: "ws".into(), force: false, recursive: true })
    );
    assert_eq!(plan(l, "mv", &words(&["a.md", "b.md"])), Plan::Run(Command::Mv { old: "a.md".into(), new: "b.md".into() }));
    assert_eq!(
        plan(l, "find", &words(&["alp", "ws", "--long"])),
        Plan::Run(Command::Find { query: "alp".into(), path: Some("ws".into()), long: true })
    );
    assert_eq!(plan(l, "path", &words(&[])), Plan::Run(Command::Path { name: None }));
    assert_eq!(plan(l, "shell", &words(&["ws"])), Plan::Run(Command::Shell { dir: Some("ws".into()) }));
    assert_eq!(plan(l, "tree", &words(&["ws"])), Plan::Run(Command::Tree { path: Some("ws".into()) }));
    assert_eq!(plan(l, "edit", &words(&["a.md"])), Plan::Run(Command::Edit { name: "a.md".into() }));
    assert_eq!(plan(l, "mkdir", &words(&["ws"])), Plan::Run(Command::Mkdir { name: Some("ws".into()) }));
    assert_eq!(plan(l, "mkdir", &words(&[])), Plan::Run(Command::Mkdir { name: None }));
    assert_eq!(plan(l, "new", &words(&[])), Plan::Run(Command::New { name: None, no_edit: false }));
}

#[test]
fn plans_report_the_first_wrong_argument() {
    let l = Lang::En;
    assert_eq!(plan(l, "ls", &words(&["a", "b"])), Plan::BadArgs("ls: too many arguments".into()));
    assert_eq!(plan(l, "ls", &words(&["--bogus", "a", "b"])), Plan::BadArgs("ls: unknown option: --bogus".into()));
    assert_eq!(plan(l, "edit", &words(&[])), Plan::BadArgs("edit: argument required: <name>".into()));
    assert_eq!(plan(l, "rm", &words(&["-f"])), Plan::BadArgs("rm: argument required: <name>".into()));
    assert_eq!(plan(l, "find", &words(&[])), Plan::BadArgs("find: argument required: <query>".into()));
    assert_eq!(plan(l, "mv", &words(&["a", "b", "c"])), Plan::BadArgs("mv: argument required: <old> <new>".into()));
    assert_eq!(plan(l, "mv", &words(&["a", "-f"])), Plan::BadArgs("mv: unknown option: -f".into()));
    assert_eq!(plan(l, "tree", &words(&["-l"])), Plan::BadArgs("tree: unknown option: -l".into()));
    assert_eq!(plan(l, "mv", &words(&["a", "--help"])), Plan::Usage);
    assert!(matches!(plan(l, "status", &words(&[])), Plan::UnknownSubcommand(_)));
}

fn entry(name: &str, is_dir: bool) -> Entry {
    Entry { path: format!("/s/{name}"), name: name.to_string(), is_dir, modified: 0 }
}

#[test]
fn format_ls_line_default_and_long() {
    let f = entry("f.md", false);
    assert_eq!(format_ls_line(&f, false, false, Some(12)), "f.md");
    let long = format_ls_line(&f, true, false, Some(12));
    let cols: Vec<&str> = long.split('\t').collect();
    assert_eq!(cols.len(), 3);
    assert_eq!(cols[1], "12");
    assert_eq!(cols[2], "f.md");
}

#[test]
fn long_line_columns() {
    assert_eq!(ls_long_line("2026-01-02 03:04:05", &entry("ws", true), false, Some(4096)), "2026-01-02 03:04:05\t-\tws");
    assert_eq!(ls_long_line("t", &entry("f", false), false, None), "t\t-\tf");
    assert_eq!(ls_long_line("t", &entry("f", false), false, Some(0)), "t\t0\tf");
}

#[test]
fn names_are_colored_only_on_a_terminal() {
    assert_eq!(format_name(&entry("ws", true), false), "ws");
    assert_eq!(format_name(&entry("ws", true), true), "\x1b[1;34mws/\x1b[0m");
    assert_eq!(format_name(&entry("a.md", false), true), "a.md");
}

#[test]
fn requested_paths_stay_relative_to_the_root() {
    assert_eq!(requested_path("/s", None).unwrap(), "/s");
    assert_eq!(requested_path("/s", Some("")).unwrap(), "/s");
    assert_eq!(requested_path("/s", Some("ws/a.md")).unwrap(), "/s/ws/a.md");
    assert_eq!(requested_path("/s", Some("/etc")).unwrap_err(), "absolute paths are not allowed");
}

#[test]
fn deletion_prompt_and_answers() {
    assert!(confirms("y\n"));
    assert!(confirms(" yes "));
    assert!(confirms("Y"));
    assert!(!confirms("n"));
    assert!(!confirms(""));
    assert!(!confirms("YES"));
    assert_eq!(delete_prompt(Lang::En, &entry("a.md", false)), "Delete \"a.md\"?");
    assert!(delete_prompt(Lang::En, &entry("ws", true)).contains("all its contents"));
}

#[test]
fn rm_requires_r_for_directories() {
    assert!(rm_refusal(Lang::En, &entry("ws", true), false).is_some());
    assert!(rm_refusal(Lang::En, &entry("ws", true), true).is_none());
    assert!(rm_refusal(Lang::En, &entry("a.md", false), false).is_none());
}

#[test]
fn find_keeps_names_containing_the_query_in_order() {
    let e = |name: &str, m: i128| Entry { path: format!("/r/{name}"), name: name.to_string(), is_dir: false, modified: m };
    let found = find_matches(vec![e("Alpha.md", 3), e("beta.md", 2), e("ALPHABET", 1)], "alpha");
    let names: Vec<&str> = found.iter().map(|x| x.name.as_str()).collect();
    assert_eq!(names, vec!["Alpha.md", "ALPHABET"]);
    assert!(find_matches(vec![e("beta.md", 1)], "zeta").is_empty());
    assert_eq!(find_matches(vec![e("beta.md", 1)], "").len(), 1);
}

#[test]
fn startup_sweep_needs_the_flag_and_a_positive_ttl() {
    assert_eq!(startup_ttl(true, Some(30)), Some(30 * 86_400));
    assert_eq!(startup_ttl(false, Some(30)), None);
    assert_eq!(startup_ttl(true, Some(0)), None);
    assert_eq!(startup_ttl(true, None), None);
    assert_eq!(startup_ttl(true, Some(u64::MAX)), None);
}

#[test]
fn exit_codes_follow_the_ending() {
    assert_eq!(exit_code_of(Ending::Done), 0);
    assert_eq!(exit_code_of(Ending::BadArguments), 2);
    assert_eq!(exit_code_of(Ending::Failed), 1);
    assert_eq!(exit_code_of(Ending::Program { code: Some(7) }), 7);
    assert_eq!(exit_code_of(Ending::Program { code: None }), 0);
    assert_eq!(exit_code_of(Ending::Swept { errors: 0 }), 0);
    assert_eq!(exit_code_of(Ending::Swept { errors: 3 }), 1);
}
