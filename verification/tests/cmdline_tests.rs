use chira::cmdline::{first_non_flag_index, parse_args, Launch};
use chira::i18n::Lang;

fn args(v: &[&str]) -> Vec<String> {
    v.iter().map(|s| (*s).into()).collect()
}

#[test]
fn parse_args_extracts_cd_file() {
    let l = Lang::En;
    assert_eq!(parse_args(&args(&[]), l).unwrap(), Launch::Tui(None));
    assert_eq!(parse_args(&args(&["--cd-file", "/tmp/x"]), l).unwrap(), Launch::Tui(Some("/tmp/x".to_string())));
    assert_eq!(parse_args(&args(&["--cd-file=/tmp/y"]), l).unwrap(), Launch::Tui(Some("/tmp/y".to_string())));
    assert!(parse_args(&args(&["--cd-file"]), l).is_err());
    assert!(parse_args(&args(&["--bogus"]), l).is_err());
}

#[test]
fn help_flag_and_last_cd_file_win() {
    let l = Lang::En;
    assert_eq!(parse_args(&args(&["--cd-file", "/a", "-h", "--bogus"]), l).unwrap(), Launch::Help);
    assert_eq!(
        parse_args(&args(&["--cd-file", "/a", "--cd-file=/b"]), l).unwrap(),
        Launch::Tui(Some("/b".to_string()))
    );
    assert_eq!(parse_args(&args(&["--cd-file"]), l).unwrap_err(), "--cd-file requires an argument\n");
}

#[test]
fn first_non_flag_index_skips_cd_file_pair() {
    assert_eq!(first_non_flag_index(&args(&[])), None);
    assert_eq!(first_non_flag_index(&args(&["ls"])), Some(0));
    assert_eq!(first_non_flag_index(&args(&["--cd-file", "/tmp/x", "ls"])), Some(2));
    assert_eq!(first_non_flag_index(&args(&["--cd-file=/tmp/y", "ls"])), Some(1));
    assert_eq!(first_non_flag_index(&args(&["--cd-file", "/tmp/x"])), None);
    assert_eq!(first_non_flag_index(&args(&["--unknown", "foo"])), Some(1));
}
