use chira::app::{
    preview_before_read, preview_of_contents, App, FileProbe, InputKind, Key, KeyCode, Mode, Pending, Reply,
    Request,
};
use chira::config::Action;
use chira::i18n::Lang;
use chira::scratch::Entry;

/// An in-memory file system that answers the TUI's requests.
struct Fs {
    items: Vec<(String, bool, i128)>,
    clock: i128,
}

impl Fs {
    fn new() -> Fs {
        Fs { items: Vec::new(), clock: 1 }
    }

    fn has(&self, p: &str) -> bool {
        self.items.iter().any(|(q, _, _)| q == p)
    }

    fn is_dir(&self, p: &str) -> bool {
        self.items.iter().any(|(q, d, _)| q == p && *d)
    }

    fn add(&mut self, p: &str, is_dir: bool) {
        self.clock += 1;
        self.items.push((p.to_string(), is_dir, self.clock));
    }

    fn parent(p: &str) -> &str {
        &p[..p.rfind('/').unwrap()]
    }

    fn children(&self, dir: &str) -> Vec<Entry> {
        self.items
            .iter()
            .filter(|(p, _, _)| Fs::parent(p) == dir)
            .map(|(p, d, m)| Entry {
                path: p.clone(),
                name: p[p.rfind('/').unwrap() + 1..].to_string(),
                is_dir: *d,
                modified: *m,
            })
            .collect()
    }

    fn perform(&mut self, req: Request) -> Reply {
        match req {
            Request::List { dir } => Reply::Listing(self.children(&dir)),
            Request::CreateFile { path } => {
                if self.has(&path) {
                    Reply::Done(Err("File exists".to_string()))
                } else {
                    self.add(&path, false);
                    Reply::Done(Ok(()))
                }
            }
            Request::CreateDir { path } => {
                if self.has(&path) {
                    Reply::Done(Err("File exists".to_string()))
                } else {
                    self.add(&path, true);
                    Reply::Done(Ok(()))
                }
            }
            Request::Rename { from, to } => {
                if self.has(&to) {
                    Reply::Done(Err("an entry with the same name already exists".to_string()))
                } else {
                    for item in self.items.iter_mut() {
                        if item.0 == from {
                            item.0 = to.clone();
                        } else if item.0.starts_with(&format!("{from}/")) {
                            item.0 = format!("{to}{}", &item.0[from.len()..]);
                        }
                    }
                    Reply::Done(Ok(()))
                }
            }
            Request::Remove { path, .. } => {
                self.items.retain(|(p, _, _)| p != &path && !p.starts_with(&format!("{path}/")));
                Reply::Done(Ok(()))
            }
        }
    }
}

fn settle(app: &mut App, fs: &mut Fs) {
    while let Some(req) = app.io.take() {
        let reply = fs.perform(req);
        app.answer(reply);
    }
}

fn start(fs: &mut Fs) -> App {
    let mut app = App::with_root("/s".to_string(), Lang::En);
    settle(&mut app, fs);
    app
}

fn press(app: &mut App, fs: &mut Fs, code: KeyCode) {
    app.on_key(Key { code, ctrl: false, press: true });
    settle(app, fs);
}

fn key(app: &mut App, fs: &mut Fs, c: char) {
    press(app, fs, KeyCode::Char(c));
}

fn typed(app: &mut App, fs: &mut Fs, s: &str) {
    for c in s.chars() {
        key(app, fs, c);
    }
}

fn demo_action(run: &str) -> Action {
    Action { name: "demo".into(), description: Some("demo action".into()), run: run.into() }
}

#[test]
fn new_file_requests_editor_then_delete() {
    let mut fs = Fs::new();
    let mut app = start(&mut fs);
    key(&mut app, &mut fs, 'n');
    assert!(matches!(app.mode, Mode::Input(InputKind::NewFile)));
    assert!(app.input.starts_with("scratch-") && app.input.ends_with(".md"));
    app.input.clear();
    typed(&mut app, &mut fs, "note.md");
    press(&mut app, &mut fs, KeyCode::Enter);
    assert_eq!(app.mode, Mode::Browse);
    assert!(fs.has("/s/note.md"));
    match app.pending.take() {
        Some(Pending::Editor(p)) => assert!(p.ends_with("note.md")),
        _ => panic!("creating a new file should request $EDITOR"),
    }
    app.refresh();
    settle(&mut app, &mut fs);
    key(&mut app, &mut fs, 'd');
    assert_eq!(app.mode, Mode::ConfirmDelete);
    key(&mut app, &mut fs, 'y');
    assert!(!fs.has("/s/note.md"));
    assert_eq!(app.status, "Deleted: note.md");
}

#[test]
fn enter_on_file_requests_editor() {
    let mut fs = Fs::new();
    fs.add("/s/a.md", false);
    let mut app = start(&mut fs);
    press(&mut app, &mut fs, KeyCode::Enter);
    assert!(matches!(app.pending, Some(Pending::Editor(_))));
}

#[test]
fn create_dir_descend_ascend() {
    let mut fs = Fs::new();
    let mut app = start(&mut fs);
    key(&mut app, &mut fs, 'N');
    app.input.clear();
    typed(&mut app, &mut fs, "ws");
    press(&mut app, &mut fs, KeyCode::Enter);
    assert!(fs.is_dir("/s/ws"));
    assert!(app.pending.is_none(), "creating a directory should not request $EDITOR");
    press(&mut app, &mut fs, KeyCode::Enter);
    assert_eq!(app.cwd, "/s/ws");
    assert_eq!(app.rel_path(), "chira/ws");
    key(&mut app, &mut fs, 'h');
    assert_eq!(app.cwd, "/s");
    assert_eq!(app.rel_path(), "chira");
    // Never above the root.
    key(&mut app, &mut fs, 'h');
    assert_eq!(app.cwd, "/s");
}

#[test]
fn arrow_keys_navigate_like_hl() {
    let mut fs = Fs::new();
    fs.add("/s/ws", true);
    let mut app = start(&mut fs);
    press(&mut app, &mut fs, KeyCode::Right);
    assert_eq!(app.cwd, "/s/ws");
    press(&mut app, &mut fs, KeyCode::Left);
    assert_eq!(app.cwd, "/s");
}

#[test]
fn help_opens_and_any_key_closes() {
    let mut fs = Fs::new();
    let mut app = start(&mut fs);
    key(&mut app, &mut fs, '?');
    assert_eq!(app.mode, Mode::Help);
    key(&mut app, &mut fs, 'h');
    assert_eq!(app.mode, Mode::Browse);
    assert_eq!(app.cwd, "/s");
}

#[test]
fn search_filters_entries() {
    let mut fs = Fs::new();
    fs.add("/s/alpha.md", false);
    fs.add("/s/beta.md", false);
    let mut app = start(&mut fs);
    assert_eq!(app.visible().len(), 2);
    key(&mut app, &mut fs, '/');
    typed(&mut app, &mut fs, "alp");
    assert_eq!(app.visible().len(), 1);
    assert_eq!(app.entries[app.visible()[0]].name, "alpha.md");
    // The filter ignores case.
    press(&mut app, &mut fs, KeyCode::Backspace);
    press(&mut app, &mut fs, KeyCode::Backspace);
    typed(&mut app, &mut fs, "LP");
    assert_eq!(app.visible().len(), 1);
}

#[test]
fn create_while_filtering_clears_search_and_selects_new() {
    let mut fs = Fs::new();
    fs.add("/s/alpha.md", false);
    let mut app = start(&mut fs);
    key(&mut app, &mut fs, '/');
    typed(&mut app, &mut fs, "alp");
    press(&mut app, &mut fs, KeyCode::Enter);
    assert_eq!(app.search, "alp");
    key(&mut app, &mut fs, 'n');
    app.input.clear();
    typed(&mut app, &mut fs, "report.md");
    press(&mut app, &mut fs, KeyCode::Enter);
    assert!(app.search.is_empty());
    assert_eq!(app.selected_entry().map(|e| e.name.as_str()), Some("report.md"));
}

#[test]
fn enter_cancels_delete_confirm() {
    let mut fs = Fs::new();
    fs.add("/s/keep.md", false);
    let mut app = start(&mut fs);
    key(&mut app, &mut fs, 'd');
    assert_eq!(app.mode, Mode::ConfirmDelete);
    press(&mut app, &mut fs, KeyCode::Enter);
    assert_eq!(app.mode, Mode::Browse);
    assert!(fs.has("/s/keep.md"));
}

#[test]
fn preview_skips_non_regular_file() {
    assert!(preview_before_read(Lang::En, &FileProbe::Special).unwrap().contains("special file"));
    assert!(preview_before_read(Lang::En, &FileProbe::Regular(10)).is_none());
    assert_eq!(preview_before_read(Lang::En, &FileProbe::Regular(2_000_000)).unwrap(), "(large file: 2000000 bytes)");
    assert_eq!(preview_of_contents(Lang::En, Some("body".to_string())), "body");
    assert_eq!(preview_of_contents(Lang::En, None), "(binary / unreadable)");
}

#[test]
fn t_with_no_actions_shows_status_and_stays_browse() {
    let mut fs = Fs::new();
    let mut app = start(&mut fs);
    key(&mut app, &mut fs, 't');
    assert_eq!(app.mode, Mode::Browse);
    assert!(!app.status.is_empty());
}

#[test]
fn action_flow_creates_dir_and_requests_run_on_confirm() {
    let mut fs = Fs::new();
    let mut app = start(&mut fs);
    app.actions = vec![demo_action("git init -q")];
    key(&mut app, &mut fs, 't');
    assert_eq!(app.mode, Mode::ActionPick);
    press(&mut app, &mut fs, KeyCode::Enter);
    assert!(matches!(app.mode, Mode::Input(InputKind::NewDir)));
    app.input.clear();
    typed(&mut app, &mut fs, "ws");
    press(&mut app, &mut fs, KeyCode::Enter);
    assert_eq!(app.mode, Mode::ConfirmAction);
    assert!(!fs.has("/s/ws"), "nothing is created before the confirmation");
    assert_eq!(app.pending_name(), "ws");
    assert_eq!(app.pending_action().map(|a| a.run.as_str()), Some("git init -q"));
    key(&mut app, &mut fs, 'y');
    assert_eq!(app.mode, Mode::Browse);
    assert!(fs.is_dir("/s/ws"));
    match app.pending.take() {
        Some(Pending::Run { dir, root, command }) => {
            assert!(dir.ends_with("ws"));
            assert!(dir.starts_with('/'));
            assert!(root.starts_with('/'));
            assert_eq!(command, "git init -q");
        }
        _ => panic!("y on the confirmation should request the run"),
    }
}

#[test]
fn action_confirm_cancel_creates_nothing() {
    let mut fs = Fs::new();
    let mut app = start(&mut fs);
    app.actions = vec![demo_action("git init -q")];
    key(&mut app, &mut fs, 't');
    press(&mut app, &mut fs, KeyCode::Enter);
    app.input.clear();
    typed(&mut app, &mut fs, "ws");
    press(&mut app, &mut fs, KeyCode::Enter);
    assert_eq!(app.mode, Mode::ConfirmAction);
    press(&mut app, &mut fs, KeyCode::Esc);
    assert_eq!(app.mode, Mode::Browse);
    assert!(!fs.has("/s/ws"));
    assert!(app.pending.is_none());
}

#[test]
fn input_esc_clears_action_so_plain_n_makes_empty_dir() {
    let mut fs = Fs::new();
    let mut app = start(&mut fs);
    app.actions = vec![demo_action("true")];
    key(&mut app, &mut fs, 't');
    press(&mut app, &mut fs, KeyCode::Enter);
    assert!(matches!(app.mode, Mode::Input(InputKind::NewDir)));
    press(&mut app, &mut fs, KeyCode::Esc);
    assert_eq!(app.mode, Mode::Browse);
    key(&mut app, &mut fs, 'N');
    app.input.clear();
    typed(&mut app, &mut fs, "plain");
    press(&mut app, &mut fs, KeyCode::Enter);
    assert_eq!(app.mode, Mode::Browse);
    assert!(fs.is_dir("/s/plain"));
    assert!(app.pending.is_none());
}

#[test]
fn invalid_names_are_refused_without_a_request() {
    let mut fs = Fs::new();
    let mut app = start(&mut fs);
    key(&mut app, &mut fs, 'n');
    app.input.clear();
    typed(&mut app, &mut fs, ".hidden");
    press(&mut app, &mut fs, KeyCode::Enter);
    assert_eq!(app.status, "Failed to create: invalid name");
    assert!(fs.items.is_empty());
}

#[test]
fn rename_moves_the_entry_and_selects_it() {
    let mut fs = Fs::new();
    fs.add("/s/a.md", false);
    fs.add("/s/b.md", false);
    let mut app = start(&mut fs);
    assert_eq!(app.selected_entry().unwrap().name, "b.md");
    key(&mut app, &mut fs, 'r');
    assert_eq!(app.input, "b.md");
    app.input.clear();
    typed(&mut app, &mut fs, "  c.md  ");
    press(&mut app, &mut fs, KeyCode::Enter);
    assert!(fs.has("/s/c.md") && !fs.has("/s/b.md"));
    assert_eq!(app.status, "Renamed");
    assert_eq!(app.selected_entry().unwrap().name, "c.md");
    // Onto an existing name: refused, reported.
    key(&mut app, &mut fs, 'r');
    app.input.clear();
    typed(&mut app, &mut fs, "a.md");
    press(&mut app, &mut fs, KeyCode::Enter);
    assert!(app.status.starts_with("Failed to rename"));
    assert!(fs.has("/s/c.md"));
}

#[test]
fn cursor_moves_and_stops_at_the_ends() {
    let mut fs = Fs::new();
    fs.add("/s/a", false);
    fs.add("/s/b", false);
    fs.add("/s/c", false);
    let mut app = start(&mut fs);
    assert_eq!(app.selected, 0);
    key(&mut app, &mut fs, 'j');
    key(&mut app, &mut fs, 'j');
    key(&mut app, &mut fs, 'j');
    assert_eq!(app.selected, 2);
    key(&mut app, &mut fs, 'k');
    assert_eq!(app.selected, 1);
    key(&mut app, &mut fs, 'g');
    assert_eq!(app.selected, 0);
    key(&mut app, &mut fs, 'G');
    assert_eq!(app.selected, 2);
    assert!(app.preview_stale);
    key(&mut app, &mut fs, 'q');
    assert!(app.should_quit);
}

#[test]
fn shell_opens_in_selected_directory_or_current() {
    let mut fs = Fs::new();
    fs.add("/s/a.md", false);
    let mut app = start(&mut fs);
    key(&mut app, &mut fs, 's');
    assert!(matches!(app.pending.take(), Some(Pending::Shell(d)) if d == "/s"));
    fs.add("/s/ws", true);
    app.refresh();
    settle(&mut app, &mut fs);
    key(&mut app, &mut fs, 'g');
    key(&mut app, &mut fs, 's');
    assert!(matches!(app.pending.take(), Some(Pending::Shell(d)) if d == "/s/ws"));
}

#[test]
fn released_keys_are_ignored() {
    let mut fs = Fs::new();
    let mut app = start(&mut fs);
    app.on_key(Key { code: KeyCode::Char('q'), ctrl: false, press: false });
    assert!(!app.should_quit);
}

#[test]
fn default_action_makes_plain_n_go_through_the_action() {
    let mut fs = Fs::new();
    let mut app = start(&mut fs);
    app.actions = vec![demo_action("git init -q")];
    app.default_action = Some("demo".to_string());
    key(&mut app, &mut fs, 'N');
    app.input.clear();
    typed(&mut app, &mut fs, "ws");
    press(&mut app, &mut fs, KeyCode::Enter);
    assert_eq!(app.mode, Mode::ConfirmAction);
    assert!(!fs.has("/s/ws"));
    key(&mut app, &mut fs, 'y');
    assert!(fs.is_dir("/s/ws"));
    assert!(matches!(app.pending, Some(Pending::Run { .. })));
}

#[test]
fn unknown_default_action_keeps_plain_n() {
    let mut fs = Fs::new();
    let mut app = start(&mut fs);
    app.actions = vec![demo_action("git init -q")];
    app.default_action = Some("missing".to_string());
    key(&mut app, &mut fs, 'N');
    app.input.clear();
    typed(&mut app, &mut fs, "ws");
    press(&mut app, &mut fs, KeyCode::Enter);
    assert_eq!(app.mode, Mode::Browse);
    assert!(fs.is_dir("/s/ws"));
    assert!(app.pending.is_none());
}

#[test]
fn new_resolves_the_root() {
    let app = App::new(None, Some("~/scratch"), None, Some("/home/u"), Lang::En).unwrap();
    assert_eq!(app.root, "/home/u/scratch");
    assert!(matches!(&app.io, Some(Request::List { dir }) if dir == "/home/u/scratch"));
    assert!(App::new(None, None, None, None, Lang::En).is_err());
}

#[test]
fn comma_asks_for_the_configuration_screen() {
    let mut fs = Fs::new();
    let mut app = start(&mut fs);
    key(&mut app, &mut fs, ',');
    assert!(matches!(app.pending.take(), Some(Pending::Settings)));
    assert_eq!(app.mode, Mode::Browse);
}

#[test]
fn header_path_keeps_the_rest_of_cwd_as_written() {
    let mut fs = Fs::new();
    let mut app = start(&mut fs);
    app.cwd = "/s/a//b".to_string();
    assert_eq!(app.rel_path(), "chira/a//b");
    app.cwd = "/s/./a/".to_string();
    assert_eq!(app.rel_path(), "chira/a");
    app.cwd = "/elsewhere".to_string();
    assert_eq!(app.rel_path(), "/elsewhere");
}
