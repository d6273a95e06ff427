use std::time::Duration;

use chira::archive::{
    after_keep_probe, detect_archive_root_conflict, glob_match_one, is_keep_match, parse_duration,
    resolve_dest, triage, Fate, Options,
};
use chira::i18n::Lang;
use chira::scratch::Entry;

fn secs(s: &str) -> Duration {
    Duration::from_secs(parse_duration(s).unwrap())
}

#[test]
fn parse_duration_units() {
    assert_eq!(secs("30"), Duration::from_secs(30));
    assert_eq!(secs("60s"), Duration::from_secs(60));
    assert_eq!(secs("45m"), Duration::from_secs(2700));
    assert_eq!(secs("12h"), Duration::from_secs(43200));
    assert_eq!(secs("30d"), Duration::from_secs(2_592_000));
    assert_eq!(secs("2w"), Duration::from_secs(1_209_600));
    assert_eq!(secs("30D"), Duration::from_secs(2_592_000));
    assert_eq!(secs("  30d  "), Duration::from_secs(2_592_000));
}

#[test]
fn parse_duration_rejects_zero_and_garbage() {
    assert!(parse_duration("").is_err());
    assert!(parse_duration("0").is_err());
    assert!(parse_duration("0d").is_err());
    assert!(parse_duration("abc").is_err());
    assert!(parse_duration("12x").is_err());
    assert!(parse_duration("1.5d").is_err());
}

#[test]
fn parse_duration_error_messages() {
    assert_eq!(parse_duration("   ").unwrap_err(), "empty duration");
    assert_eq!(parse_duration("0h").unwrap_err(), "duration must be > 0");
    assert_eq!(parse_duration("abc").unwrap_err(), "invalid duration: abc");
    assert_eq!(parse_duration("3y").unwrap_err(), "unknown duration unit: y");
    assert_eq!(parse_duration("18446744073709551615w").unwrap_err(), "duration overflow");
    assert_eq!(parse_duration("18446744073709551615").unwrap(), u64::MAX);
}

#[test]
fn glob_match_basic() {
    assert!(glob_match_one("pinned-*", "pinned-2026", false));
    assert!(glob_match_one("pinned-*", "pinned-", false));
    assert!(!glob_match_one("pinned-*", "other", false));
    assert!(glob_match_one("longterm/", "longterm", true));
    assert!(!glob_match_one("longterm/", "longterm", false));
    assert!(glob_match_one("a?c", "abc", false));
    assert!(!glob_match_one("a?c", "ac", false));
    assert!(glob_match_one("exact", "exact", false));
    assert!(!glob_match_one("exact", "exact2", false));
}

#[test]
fn keep_match_tries_every_pattern() {
    let pats = vec!["pinned-*".to_string(), "longterm/".to_string()];
    assert!(is_keep_match(&pats, "pinned-x", false));
    assert!(is_keep_match(&pats, "longterm", true));
    assert!(!is_keep_match(&pats, "longterm", false));
    assert!(!is_keep_match(&[], "anything", true));
}

#[test]
fn resolve_dest_collision_suffix() {
    let d1 = resolve_dest("/r/.archive", "foo", 0, &[]);
    assert_eq!(d1, "/r/.archive/foo");
    let taken = vec!["foo".to_string()];
    let d2 = resolve_dest("/r/.archive", "foo", 1_700_000_000 * 1_000_000_000, &taken);
    assert_eq!(d2, "/r/.archive/foo.1700000000");
}

#[test]
fn resolve_dest_double_collision_uses_counter() {
    let taken = vec!["foo".to_string(), "foo.1700000000".to_string()];
    let dest = resolve_dest("/r/.archive", "foo", 1_700_000_000 * 1_000_000_000, &taken);
    assert_eq!(dest, "/r/.archive/foo.1700000000_1");
    let taken = vec!["foo".to_string(), "foo.1700000000".to_string(), "foo.1700000000_1".to_string()];
    let dest = resolve_dest("/r/.archive", "foo", 1_700_000_000 * 1_000_000_000, &taken);
    assert_eq!(dest, "/r/.archive/foo.1700000000_2");
}

#[test]
fn resolve_dest_treats_dangling_symlink_as_collision() {
    // The names already present in the archive include dangling links.
    let taken = vec!["foo".to_string()];
    let dest = resolve_dest("/r/.archive", "foo", 0, &taken);
    assert_ne!(dest, "/r/.archive/foo");
    assert_eq!(dest, "/r/.archive/foo.0");
}

#[test]
fn archive_dir_equal_to_or_above_root_is_refused() {
    assert!(detect_archive_root_conflict("/s", "/s", Some("/s"), Some("/s")).is_some());
    assert!(detect_archive_root_conflict("/s/x", "/s", Some("/s/x"), Some("/s")).is_some());
    assert!(detect_archive_root_conflict("/s", "/s/.archive", Some("/s"), Some("/s/.archive")).is_none());
    // Without canonical paths, `..` is resolved lexically.
    assert!(detect_archive_root_conflict("/s", "/s/missing/..", None, None).is_some());
    assert!(detect_archive_root_conflict("/s", "/elsewhere", None, None).is_none());
}

fn opts(ttl: u64, now_secs: i128, keep: Vec<String>) -> Options {
    Options {
        root: "/s".to_string(),
        archive_dir: "/s/.archive".to_string(),
        ttl,
        keep_patterns: keep,
        dry_run: false,
        now: now_secs * 1_000_000_000,
    }
}

fn entry(name: &str, is_dir: bool) -> Entry {
    Entry { path: format!("/s/{name}"), name: name.to_string(), is_dir, modified: 0 }
}

#[test]
fn triage_decides_by_age_keep_and_errors() {
    let day: u64 = 86_400;
    let o = opts(30 * day, 31 * 86_400, vec!["pinned-*".to_string()]);
    let old: Result<i128, String> = Ok(0);
    assert!(matches!(triage(Lang::En, &o, &entry("old.md", false), false, false, &old), Fate::Archive));
    let fresh: Result<i128, String> = Ok(2 * 86_400 * 1_000_000_000);
    assert!(matches!(triage(Lang::En, &o, &entry("new.md", false), false, false, &fresh), Fate::Kept));
    let future: Result<i128, String> = Ok(40 * 86_400 * 1_000_000_000);
    assert!(matches!(triage(Lang::En, &o, &entry("skew.md", false), false, false, &future), Fate::Kept));
    assert!(matches!(triage(Lang::En, &o, &entry("pinned-1", false), false, false, &old), Fate::Kept));
    assert!(matches!(triage(Lang::En, &o, &entry(".archive", true), true, false, &old), Fate::Kept));
    assert!(matches!(triage(Lang::En, &o, &entry("ws", true), false, false, &old), Fate::ProbeKeep));
    assert!(matches!(triage(Lang::En, &o, &entry("link", true), false, true, &old), Fate::Archive));
    let broken: Result<i128, String> = Err("broken symlink".to_string());
    match triage(Lang::En, &o, &entry("dangling", false), false, true, &broken) {
        Fate::Failed(m) => assert!(m.contains("dangling") && m.contains("broken symlink")),
        _ => panic!("an unreadable mtime is an error"),
    }
}

#[test]
fn keep_probe_outcomes() {
    assert!(matches!(after_keep_probe(Lang::En, "ws", &Ok(true)), Fate::Kept));
    assert!(matches!(after_keep_probe(Lang::En, "ws", &Ok(false)), Fate::Archive));
    match after_keep_probe(Lang::En, "guarded", &Err("permission denied".to_string())) {
        Fate::Failed(m) => assert!(m.contains("keep")),
        _ => panic!("a failed probe is an error"),
    }
}
