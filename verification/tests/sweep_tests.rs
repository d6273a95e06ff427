use chira::archive::{Options, Report, KEEP_MARKER, NANOS_PER_SEC};
use chira::i18n::Lang;
use chira::scratch::Entry;
use chira::sweep::{inspection, stamp_is_valid, SweepAnswer, SweepRequest, Sweeper};

const DAY: i128 = 86_400;
const BASE_SECS: i128 = 1_700_000_000;

/// One entry of the in-memory file system.
struct Node {
    path: String,
    is_dir: bool,
    mtime: i128,
    broken_link: bool,
    probe_denied: bool,
}

/// An in-memory file system that answers the sweep's requests.
struct Fs {
    nodes: Vec<Node>,
}

impl Fs {
    fn new() -> Fs {
        Fs { nodes: vec![Node { path: "/r".to_string(), is_dir: true, mtime: 0, broken_link: false, probe_denied: false }] }
    }

    fn add(&mut self, path: &str, is_dir: bool) {
        self.nodes.push(Node {
            path: path.to_string(),
            is_dir,
            mtime: BASE_SECS * NANOS_PER_SEC,
            broken_link: false,
            probe_denied: false,
        });
    }

    fn has(&self, path: &str) -> bool {
        self.nodes.iter().any(|n| n.path == path)
    }

    fn is_dir(&self, path: &str) -> bool {
        self.nodes.iter().any(|n| n.path == path && n.is_dir)
    }

    fn node(&self, path: &str) -> &Node {
        self.nodes.iter().find(|n| n.path == path).unwrap()
    }

    fn parent(path: &str) -> &str {
        &path[..path.rfind('/').unwrap()]
    }

    fn name(path: &str) -> &str {
        &path[path.rfind('/').unwrap() + 1..]
    }

    fn children(&self, dir: &str) -> Vec<&Node> {
        self.nodes.iter().filter(|n| n.path != "/r" && Fs::parent(&n.path) == dir).collect()
    }

    fn entries(&self, dir: &str) -> Vec<Entry> {
        self.children(dir)
            .into_iter()
            .map(|n| Entry {
                path: n.path.clone(),
                name: Fs::name(&n.path).to_string(),
                is_dir: n.is_dir,
                modified: n.mtime,
            })
            .collect()
    }

    fn perform(&mut self, req: &SweepRequest) -> SweepAnswer {
        match req {
            SweepRequest::Inspect { path } => {
                let n = self.node(path);
                let canonical = if n.broken_link { None } else { Some(path.clone()) };
                inspection(canonical, n.broken_link, !n.broken_link, Ok(n.mtime))
            }
            SweepRequest::ProbeKeep { dir } => {
                if self.node(dir).probe_denied {
                    SweepAnswer::Probed(Err("Permission denied (os error 13)".to_string()))
                } else {
                    SweepAnswer::Probed(Ok(self.has(&format!("{dir}/{KEEP_MARKER}"))))
                }
            }
            SweepRequest::ListArchive { dir } => {
                SweepAnswer::Listed(self.children(dir).iter().map(|n| Fs::name(&n.path).to_string()).collect())
            }
            SweepRequest::MakeArchiveDir { dir } => {
                if !self.has(dir) {
                    self.add(dir, true);
                }
                SweepAnswer::Done(Ok(()))
            }
            SweepRequest::Move { from, to } => {
                if self.has(to) {
                    return SweepAnswer::Done(Err("File exists".to_string()));
                }
                for n in self.nodes.iter_mut() {
                    if &n.path == from {
                        n.path = to.clone();
                    } else if n.path.starts_with(&format!("{from}/")) {
                        n.path = format!("{to}{}", &n.path[from.len()..]);
                    }
                }
                SweepAnswer::Done(Ok(()))
            }
        }
    }
}

fn options(archive_dir: &str, keep: Vec<String>, dry_run: bool, now_secs: i128) -> Options {
    Options {
        root: "/r".to_string(),
        archive_dir: archive_dir.to_string(),
        ttl: (DAY * 30) as u64,
        keep_patterns: keep,
        dry_run,
        now: now_secs * NANOS_PER_SEC,
    }
}

/// Runs a whole sweep of `/r` against the in-memory file system.
fn run(fs: &mut Fs, opts: Options) -> Result<Report, String> {
    let canon = |p: &str| if p == "/r" || fs.has(p) { Some(p.to_string()) } else { None };
    let root_canon = canon("/r");
    let archive_canon = canon(&opts.archive_dir);
    let raw = fs.entries("/r");
    let mut sweeper = Sweeper::new(Lang::En, opts, raw, root_canon, archive_canon)?;
    while let Some(req) = sweeper.request() {
        let answer = fs.perform(req);
        sweeper.answer(answer);
    }
    Ok(sweeper.into_report())
}

#[test]
fn sweep_moves_old_entries() {
    let mut fs = Fs::new();
    fs.add("/r/old.md", false);
    fs.add("/r/olddir", true);
    let report = run(&mut fs, options("/r/.archive", vec![], false, BASE_SECS + DAY * 31)).unwrap();
    assert_eq!(report.archived.len(), 2);
    assert!(report.errors.is_empty(), "errors: {:?}", report.errors);
    assert!(fs.has("/r/.archive/old.md"));
    assert!(fs.is_dir("/r/.archive/olddir"));
    assert!(!fs.has("/r/old.md"));
    assert!(!fs.has("/r/olddir"));
}

#[test]
fn sweep_keeps_fresh_entries() {
    let mut fs = Fs::new();
    fs.add("/r/fresh.md", false);
    let report = run(&mut fs, options("/r/.archive", vec![], false, BASE_SECS + 1)).unwrap();
    assert!(report.archived.is_empty());
    assert!(fs.has("/r/fresh.md"));
    assert_eq!(report.kept, 1);
}

#[test]
fn sweep_dry_run_does_not_move() {
    let mut fs = Fs::new();
    fs.add("/r/old.md", false);
    let report = run(&mut fs, options("/r/.archive", vec![], true, BASE_SECS + DAY * 31)).unwrap();
    assert_eq!(report.archived.len(), 1);
    assert_eq!(report.archived[0].dest, "/r/.archive/old.md");
    assert!(fs.has("/r/old.md"), "dry-run should not move");
    assert!(!fs.has("/r/.archive/old.md"));
    assert!(!fs.has("/r/.archive"));
}

#[test]
fn sweep_respects_keep_marker_in_dir() {
    let mut fs = Fs::new();
    fs.add("/r/olddir", true);
    fs.add("/r/olddir/.keep", false);
    let report = run(&mut fs, options("/r/.archive", vec![], false, BASE_SECS + DAY * 31)).unwrap();
    assert!(report.archived.is_empty());
    assert!(fs.has("/r/olddir"));
    assert_eq!(report.kept, 1);
}

#[test]
fn sweep_respects_keep_glob() {
    let mut fs = Fs::new();
    fs.add("/r/pinned-todo.md", false);
    fs.add("/r/longterm", true);
    fs.add("/r/scratch.md", false);
    let keep = vec!["pinned-*".to_string(), "longterm/".to_string()];
    let report = run(&mut fs, options("/r/.archive", keep, false, BASE_SECS + DAY * 31)).unwrap();
    assert_eq!(report.archived.len(), 1);
    assert_eq!(report.archived[0].name, "scratch.md");
    assert!(fs.has("/r/pinned-todo.md"));
    assert!(fs.is_dir("/r/longterm"));
}

#[test]
fn sweep_skips_broken_symlink_with_warning() {
    let mut fs = Fs::new();
    fs.nodes.push(Node { path: "/r/broken".to_string(), is_dir: false, mtime: 0, broken_link: true, probe_denied: false });
    fs.add("/r/old.md", false);
    let report = run(&mut fs, options("/r/.archive", vec![], false, BASE_SECS + DAY * 31)).unwrap();
    assert_eq!(report.archived.len(), 1);
    assert_eq!(report.archived[0].name, "old.md");
    assert!(fs.has("/r/broken"), "broken symlink should remain in root");
    assert!(!fs.has("/r/.archive/broken"));
    assert_eq!(report.errors.len(), 1, "broken symlink should emit warning");
    assert!(report.errors[0].contains("mtime"), "warning should mention mtime: {}", report.errors[0]);
}

#[test]
fn sweep_rejects_archive_dir_with_dotdot_to_root() {
    let mut fs = Fs::new();
    fs.add("/r/old.md", false);
    let err = run(&mut fs, options("/r/missing/..", vec![], false, BASE_SECS + DAY * 31));
    assert!(err.is_err());
    assert!(!fs.has("/r/missing"));
    assert!(fs.has("/r/old.md"));
}

#[test]
fn sweep_rejects_archive_dir_equal_to_root() {
    let mut fs = Fs::new();
    fs.add("/r/old.md", false);
    let err = run(&mut fs, options("/r", vec![], false, BASE_SECS + DAY * 31));
    assert!(err.is_err());
    assert!(fs.has("/r/old.md"));
}

#[test]
fn sweep_warns_when_keep_probe_fails() {
    let mut fs = Fs::new();
    fs.add("/r/guarded", true);
    fs.add("/r/guarded/.keep", false);
    fs.nodes.iter_mut().find(|n| n.path == "/r/guarded").unwrap().probe_denied = true;
    let report = run(&mut fs, options("/r/.archive", vec![], false, BASE_SECS + DAY * 31)).unwrap();
    assert_eq!(report.errors.len(), 1);
    assert!(report.errors[0].contains("keep"), ".keep probe warning expected: {}", report.errors[0]);
    assert!(report.archived.is_empty(), "protected dir should not be archived");
    assert!(fs.has("/r/guarded"));
}

#[test]
fn sweep_handles_name_collision() {
    let mut fs = Fs::new();
    fs.add("/r/.archive", true);
    fs.add("/r/.archive/old.md", false);
    fs.add("/r/old.md", false);
    let now = BASE_SECS + DAY * 31;
    let report = run(&mut fs, options("/r/.archive", vec![], false, now)).unwrap();
    assert_eq!(report.archived.len(), 1);
    let dest = &report.archived[0].dest;
    assert!(dest.starts_with("/r/.archive/old.md."), "dest: {dest}");
    assert_eq!(dest, &format!("/r/.archive/old.md.{now}"));
    assert!(fs.has("/r/.archive/old.md"));
    assert!(fs.has(dest));
}

#[test]
fn sweep_creates_archive_dir_once_for_several_entries() {
    let mut fs = Fs::new();
    fs.add("/r/a.md", false);
    fs.add("/r/b.md", false);
    let mut sweeper = Sweeper::new(
        Lang::En,
        options("/r/.archive", vec![], false, BASE_SECS + DAY * 31),
        fs.entries("/r"),
        Some("/r".to_string()),
        None,
    )
    .unwrap();
    let mut made = 0;
    while let Some(req) = sweeper.request() {
        if let SweepRequest::MakeArchiveDir { .. } = req {
            made += 1;
        }
        let answer = fs.perform(req);
        sweeper.answer(answer);
    }
    assert_eq!(made, 1);
    let report = sweeper.into_report();
    assert_eq!(report.archived.len(), 2);
}

#[test]
fn sweep_reports_failed_archive_dir_for_each_entry() {
    let raw = vec![
        Entry { path: "/r/a.md".to_string(), name: "a.md".to_string(), is_dir: false, modified: 0 },
        Entry { path: "/r/b.md".to_string(), name: "b.md".to_string(), is_dir: false, modified: 0 },
    ];
    let mut sweeper =
        Sweeper::new(Lang::En, options("/r/.archive", vec![], false, BASE_SECS + DAY * 31), raw, None, None).unwrap();
    let mut seen = 0;
    while let Some(req) = sweeper.request() {
        let answer = match req {
            SweepRequest::Inspect { path } => {
                SweepAnswer::Inspected { canonical: Some(path.clone()), is_symlink: false, mtime: Ok(0) }
            }
            SweepRequest::MakeArchiveDir { .. } => {
                seen += 1;
                SweepAnswer::Done(Err("Read-only file system".to_string()))
            }
            _ => panic!("unexpected request"),
        };
        sweeper.answer(answer);
    }
    assert_eq!(seen, 2);
    let report = sweeper.into_report();
    assert_eq!(report.errors.len(), 2);
    assert!(report.errors[0].contains("/r/.archive"));
    assert!(report.errors[0].contains("Read-only file system"));
}

#[test]
fn sweep_skips_entries_already_in_archive() {
    let mut fs = Fs::new();
    fs.add("/r/archive", true);
    fs.add("/r/old.md", false);
    let report = run(&mut fs, options("/r/archive", vec![], false, BASE_SECS + DAY * 31)).unwrap();
    assert_eq!(report.archived.len(), 1);
    assert_eq!(report.kept, 1);
    assert_eq!(report.errors.len(), 0);
    assert!(fs.has("/r/archive/old.md"));
    assert!(fs.is_dir("/r/archive"));
}

#[test]
fn stamps_within_u64_seconds_are_valid() {
    assert!(stamp_is_valid(0));
    assert!(stamp_is_valid(-1));
    assert!(stamp_is_valid(18_446_744_073_709_551_615_999_999_999));
    assert!(!stamp_is_valid(18_446_744_073_709_551_616_000_000_000));
    assert!(!stamp_is_valid(-18_446_744_073_709_551_616_000_000_000));
}

#[test]
fn a_dangling_link_has_no_modification_time() {
    match inspection(None, true, false, Ok(5)) {
        SweepAnswer::Inspected { mtime, is_symlink, canonical } => {
            assert_eq!(mtime, Err("broken symlink".to_string()));
            assert!(is_symlink);
            assert!(canonical.is_none());
        }
        _ => panic!("not an inspection"),
    }
    match inspection(Some("/r/l".to_string()), true, true, Ok(5)) {
        SweepAnswer::Inspected { mtime, .. } => assert_eq!(mtime, Ok(5)),
        _ => panic!("not an inspection"),
    }
}
