//! The TUI's state machine. Key presses and the outcomes of file-system requests come in;
//! the next state comes out, together with at most one request for the file system that the
//! driver performs before the next key (a listing, a creation, a rename or a removal) and the
//! external program to run, if any.
use vstd::prelude::*;
use vstd::string::*;

use crate::clock::{written_at_some_reading, NameTemplate};
use crate::config::Action;
use crate::i18n::{
    status_create_failed, status_create_failed_text, status_created_dir, status_created_dir_text,
    status_delete_failed, status_delete_failed_text, status_deleted, status_deleted_text,
    status_no_actions, status_no_actions_text, status_rename_failed, status_rename_failed_text,
    status_renamed, status_renamed_text, status_run_action, status_run_action_text, Lang,
    preview_binary, preview_binary_text, preview_large_file, preview_large_file_text,
    preview_special_file, preview_special_file_text, preview_unreadable, preview_unreadable_text,
};
use crate::path::{join, join_path, parent, path_eq, path_equal, path_parent, path_strip_prefix, strip_prefix};
use crate::scratch::{list, newest_order, opt_str, opt_string, resolve_root, root_choice, shown, valid_name, validate_name, Entry};
use crate::text::{
    chars_of, concat2, contains, has_substring, lowercase, owned, str_eq, to_lowercase,
    trim, trimmed, without_last,
};

verus! {

/// What the name prompt is for.
#[derive(Clone, Copy, PartialEq, Eq, Debug, Structural)]
pub enum InputKind {
    NewFile,
    NewDir,
    Rename,
}

/// The screen the TUI is on.
#[derive(Clone, Copy, PartialEq, Eq, Debug, Structural)]
pub enum Mode {
    Browse,
    Search,
    Input(InputKind),
    ConfirmDelete,
    /// Choosing an action (`t`).
    ActionPick,
    /// Confirming the command of the chosen action before it runs.
    ConfirmAction,
    Help,
}

/// A key, as far as the TUI reads it.
#[derive(Clone, Copy, PartialEq, Eq, Debug, Structural)]
pub enum KeyCode {
    Char(char),
    Enter,
    Esc,
    Backspace,
    Up,
    Down,
    Left,
    Right,
    Home,
    End,
    Other,
}

/// A key event: the key, whether Control was held, and whether it is a press (as opposed to a
/// release or a repeat).
#[derive(Clone, Copy, PartialEq, Eq, Debug, Structural)]
pub struct Key {
    pub code: KeyCode,
    pub ctrl: bool,
    pub press: bool,
}

/// An external program to run with the TUI suspended.
pub enum Pending {
    /// Open this file in the editor.
    Editor(String),
    /// Open a shell in this directory.
    Shell(String),
    /// Run an action's command inside the new directory `dir`; `root` is the scratch root.
    Run { dir: String, root: String, command: String },
    /// Show the configuration screen.
    Settings,
}

/// A file-system operation the driver performs for the state machine.
pub enum Request {
    /// Read the entries of `dir` (an unreadable directory counts as empty).
    List { dir: String },
    /// Create the empty file `path`, refusing an existing entry.
    CreateFile { path: String },
    /// Create the directory `path`.
    CreateDir { path: String },
    /// Rename `from` to `to`, refusing to replace another entry.
    Rename { from: String, to: String },
    /// Remove `path`, recursively when it is a directory.
    Remove { path: String, is_dir: bool },
}

/// What the state machine does once the outstanding request is answered.
enum FollowUp {
    Idle,
    Refresh { select: Option<String> },
    Delete { name: String },
    NewFile { name: String, path: String },
    NewDir { name: String },
    Rename { name: String },
    RunAction { name: String, path: String, action_name: String, command: String },
}

pub ghost enum PendingV {
    Editor(Seq<char>),
    Shell(Seq<char>),
    Run { dir: Seq<char>, root: Seq<char>, command: Seq<char> },
    Settings,
}

pub ghost enum RequestV {
    List { dir: Seq<char> },
    CreateFile { path: Seq<char> },
    CreateDir { path: Seq<char> },
    Rename { from: Seq<char>, to: Seq<char> },
    Remove { path: Seq<char>, is_dir: bool },
}

pub ghost enum FollowUpV {
    Idle,
    Refresh { select: Option<Seq<char>> },
    Delete { name: Seq<char> },
    NewFile { name: Seq<char>, path: Seq<char> },
    NewDir { name: Seq<char> },
    Rename { name: Seq<char> },
    RunAction { name: Seq<char>, path: Seq<char>, action_name: Seq<char>, command: Seq<char> },
}

impl View for Pending {
    type V = PendingV;

    open spec fn view(&self) -> PendingV {
        match self {
            Pending::Editor(p) => PendingV::Editor(p@),
            Pending::Shell(p) => PendingV::Shell(p@),
            Pending::Run { dir, root, command } => PendingV::Run { dir: dir@, root: root@, command: command@ },
            Pending::Settings => PendingV::Settings,
        }
    }
}

impl View for Request {
    type V = RequestV;

    open spec fn view(&self) -> RequestV {
        match self {
            Request::List { dir } => RequestV::List { dir: dir@ },
            Request::CreateFile { path } => RequestV::CreateFile { path: path@ },
            Request::CreateDir { path } => RequestV::CreateDir { path: path@ },
            Request::Rename { from, to } => RequestV::Rename { from: from@, to: to@ },
            Request::Remove { path, is_dir } => RequestV::Remove { path: path@, is_dir: *is_dir },
        }
    }
}

impl View for FollowUp {
    type V = FollowUpV;

    closed spec fn view(&self) -> FollowUpV {
        match self {
            FollowUp::Idle => FollowUpV::Idle,
            FollowUp::Refresh { select } => FollowUpV::Refresh {
                select: match select {
                    Some(s) => Some(s@),
                    None => None,
                },
            },
            FollowUp::Delete { name } => FollowUpV::Delete { name: name@ },
            FollowUp::NewFile { name, path } => FollowUpV::NewFile { name: name@, path: path@ },
            FollowUp::NewDir { name } => FollowUpV::NewDir { name: name@ },
            FollowUp::Rename { name } => FollowUpV::Rename { name: name@ },
            FollowUp::RunAction { name, path, action_name, command } => FollowUpV::RunAction {
                name: name@,
                path: path@,
                action_name: action_name@,
                command: command@,
            },
        }
    }
}

/// The TUI state.
pub struct App {
    pub root: String,
    pub cwd: String,
    pub entries: Vec<Entry>,
    pub selected: usize,
    pub mode: Mode,
    pub search: String,
    pub input: String,
    pub preview: String,
    pub status: String,
    pub pending: Option<Pending>,
    pub should_quit: bool,
    pub lang: Lang,
    /// The configured actions, by name.
    pub actions: Vec<Action>,
    /// The action that a plain new directory (`N`) goes through, when it names one of them.
    pub default_action: Option<String>,
    /// Cursor of the action picker (an index into `actions`).
    pub action_cursor: usize,
    /// The action chosen in the picker, carried through the name prompt to the confirmation.
    selected_action: Option<usize>,
    /// Name of the directory the chosen action will create.
    pending_name: String,
    /// The file-system request the driver must answer before the next key.
    pub io: Option<Request>,
    follow_up: FollowUp,
    /// The preview no longer matches the selection; the driver recomputes it.
    pub preview_stale: bool,
    /// The time formats that a new file's and a new directory's names start from.
    file_template: NameTemplate,
    dir_template: NameTemplate,
}

/// The state as values.
pub ghost struct AppV {
    pub root: Seq<char>,
    pub cwd: Seq<char>,
    pub entries: Seq<Entry>,
    pub selected: int,
    pub mode: Mode,
    pub search: Seq<char>,
    pub input: Seq<char>,
    pub preview: Seq<char>,
    pub status: Seq<char>,
    pub pending: Option<PendingV>,
    pub should_quit: bool,
    pub lang: Lang,
    pub actions: Seq<Action>,
    pub default_action: Option<Seq<char>>,
    pub action_cursor: int,
    pub selected_action: Option<int>,
    pub pending_name: Seq<char>,
    pub io: Option<RequestV>,
    pub follow_up: FollowUpV,
    pub preview_stale: bool,
}

impl View for App {
    type V = AppV;

    closed spec fn view(&self) -> AppV {
        AppV {
            root: self.root@,
            cwd: self.cwd@,
            entries: self.entries@,
            selected: self.selected as int,
            mode: self.mode,
            search: self.search@,
            input: self.input@,
            preview: self.preview@,
            status: self.status@,
            pending: match self.pending {
                Some(p) => Some(p@),
                None => None,
            },
            should_quit: self.should_quit,
            lang: self.lang,
            actions: self.actions@,
            default_action: opt_string(self.default_action),
            action_cursor: self.action_cursor as int,
            selected_action: match self.selected_action {
                Some(i) => Some(i as int),
                None => None,
            },
            pending_name: self.pending_name@,
            io: match self.io {
                Some(r) => Some(r@),
                None => None,
            },
            follow_up: self.follow_up@,
            preview_stale: self.preview_stale,
        }
    }
}

/// An entry passes the search filter when its lowercased name contains the lowercased query
/// (the empty query passes every entry).
pub open spec fn matches_search(name: Seq<char>, search: Seq<char>) -> bool {
    contains(lowercase(name), lowercase(search))
}

/// Whether a name passes the search filter.
pub fn name_matches(name: &str, search: &str) -> (r: bool)
    ensures
        r == matches_search(name@, search@),
{
    let n = to_lowercase(name);
    let q = to_lowercase(search);
    let nv = chars_of(n.as_str());
    let qv = chars_of(q.as_str());
    has_substring(&nv, &qv)
}

/// Indices of the entries that pass the search filter, in order.
pub open spec fn visible_spec(entries: Seq<Entry>, search: Seq<char>) -> Seq<int>
    decreases entries.len(),
{
    if entries.len() == 0 {
        Seq::<int>::empty()
    } else {
        let v = visible_spec(entries.drop_last(), search);
        if matches_search(entries.last().name@, search) {
            v.push(entries.len() - 1)
        } else {
            v
        }
    }
}

/// The entry under the cursor, if the cursor is on a visible entry.
pub open spec fn selected_of(a: AppV) -> Option<Entry> {
    let vis = visible_spec(a.entries, a.search);
    if 0 <= a.selected < vis.len() {
        Some(a.entries[vis[a.selected]])
    } else {
        None
    }
}

pub proof fn lemma_visible_in_range(entries: Seq<Entry>, search: Seq<char>)
    ensures
        forall|k: int| 0 <= k < visible_spec(entries, search).len() ==> 0 <= #[trigger] visible_spec(entries, search)[k] < entries.len(),
        visible_spec(entries, search).len() <= entries.len(),
    decreases entries.len(),
{
    if entries.len() > 0 {
        lemma_visible_in_range(entries.drop_last(), search);
    }
}

/// The driver's answer to a request.
pub enum Reply {
    /// The entries read from the listed directory, hidden ones included, in any order.
    Listing(Vec<Entry>),
    /// The outcome of a creation, rename or removal (the error's text on failure).
    Done(Result<(), String>),
}

pub ghost enum ReplyV {
    Listing(Seq<Entry>),
    Done(Result<(), Seq<char>>),
}

impl View for Reply {
    type V = ReplyV;

    open spec fn view(&self) -> ReplyV {
        match self {
            Reply::Listing(v) => ReplyV::Listing(v@),
            Reply::Done(Ok(())) => ReplyV::Done(Ok(())),
            Reply::Done(Err(e)) => ReplyV::Done(Err(e@)),
        }
    }
}

pub open spec fn visible_count(a: AppV) -> int {
    visible_spec(a.entries, a.search).len() as int
}

/// Asks the driver for the listing of `cwd`; when it arrives, the entry named `select` (if
/// any) is selected.
pub open spec fn refresh_spec(a: AppV, select: Option<Seq<char>>) -> AppV {
    AppV { io: Some(RequestV::List { dir: a.cwd }), follow_up: FollowUpV::Refresh { select }, ..a }
}

/// Moves into `dest` with the cursor on top and no search.
pub open spec fn set_cwd_spec(a: AppV, dest: Seq<char>) -> AppV {
    refresh_spec(AppV { cwd: dest, selected: 0, search: Seq::<char>::empty(), ..a }, None)
}

/// A selected file is handed to the editor.
pub open spec fn edit_selected_spec(a: AppV) -> AppV {
    match selected_of(a) {
        Some(e) => if !e.is_dir {
            AppV { pending: Some(PendingV::Editor(e.path@)), ..a }
        } else {
            a
        },
        None => a,
    }
}

/// A selected directory is entered, a selected file edited.
pub open spec fn open_selected_spec(a: AppV) -> AppV {
    match selected_of(a) {
        Some(e) => if e.is_dir {
            set_cwd_spec(a, e.path@)
        } else {
            edit_selected_spec(a)
        },
        None => a,
    }
}

/// Goes up one directory, but never above the root.
pub open spec fn ascend_spec(a: AppV) -> AppV {
    if !path_eq(a.cwd, a.root) && parent(a.cwd) is Some {
        set_cwd_spec(a, parent(a.cwd)->0)
    } else {
        a
    }
}

/// Opens the name prompt: a new entry's name starts as the clock's text `stamp`, a rename's as
/// the current name.
pub open spec fn begin_input_spec(a: AppV, kind: InputKind, stamp: Seq<char>) -> AppV {
    let input = match kind {
        InputKind::Rename => match selected_of(a) {
            Some(e) => e.name@,
            None => Seq::<char>::empty(),
        },
        _ => stamp,
    };
    AppV { input, mode: Mode::Input(kind), status: Seq::<char>::empty(), ..a }
}

pub open spec fn is_key(code: KeyCode, c: char) -> bool {
    code == KeyCode::Char(c)
}

/// One step down, stopping at the last of `len` items.
pub open spec fn step_down(i: int, len: int) -> int {
    if i + 1 < len - 1 {
        i + 1
    } else {
        len - 1
    }
}

pub open spec fn step_up(i: int) -> int {
    if i > 0 {
        i - 1
    } else {
        0
    }
}

pub open spec fn last_index(len: int) -> int {
    if len > 0 {
        len - 1
    } else {
        0
    }
}

/// Index of the first action named `name`.
pub open spec fn action_index(actions: Seq<Action>, name: Seq<char>) -> Option<int>
    decreases actions.len(),
{
    if actions.len() == 0 {
        None
    } else {
        match action_index(actions.drop_last(), name) {
            Some(i) => Some(i),
            None => if actions.last().name@ == name {
                Some(actions.len() - 1)
            } else {
                None
            },
        }
    }
}

/// The action a plain `N` goes through: the configured default, when an action has that name.
pub open spec fn default_action_index(a: AppV) -> Option<int> {
    match a.default_action {
        Some(n) => action_index(a.actions, n),
        None => None,
    }
}

proof fn lemma_action_index_extends(actions: Seq<Action>, k: int, name: Seq<char>)
    requires
        0 <= k <= actions.len(),
        action_index(actions.subrange(0, k), name) is Some,
    ensures
        action_index(actions, name) == action_index(actions.subrange(0, k), name),
    decreases actions.len(),
{
    if k == actions.len() {
        assert(actions.subrange(0, k) =~= actions);
    } else {
        assert(actions.drop_last().subrange(0, k) =~= actions.subrange(0, k));
        lemma_action_index_extends(actions.drop_last(), k, name);
    }
}

proof fn lemma_action_index_in_range(actions: Seq<Action>, name: Seq<char>)
    ensures
        action_index(actions, name) matches Some(i) ==> 0 <= i < actions.len(),
    decreases actions.len(),
{
    if actions.len() > 0 {
        lemma_action_index_in_range(actions.drop_last(), name);
    }
}

/// The clock text `stamp` that a key starts a new entry's name with is the template of that
/// kind (`templates`: files, directories) written for some reading of the clock, whenever the
/// key opens the name prompt of a new file or directory.
pub open spec fn stamp_fits(templates: (Seq<char>, Seq<char>), before: Mode, after: Mode, stamp: Seq<char>) -> bool {
    match after {
        Mode::Input(InputKind::NewFile) => (before matches Mode::Input(_)) || written_at_some_reading(templates.0, stamp),
        Mode::Input(InputKind::NewDir) => (before matches Mode::Input(_)) || written_at_some_reading(templates.1, stamp),
        _ => true,
    }
}

/// A key in the list.
pub open spec fn browse_step(a: AppV, code: KeyCode, stamp: Seq<char>) -> AppV {
    let len = visible_count(a);
    if is_key(code, 'q') {
        AppV { should_quit: true, ..a }
    } else if is_key(code, 'j') || code == KeyCode::Down {
        if len > 0 {
            AppV { selected: step_down(a.selected, len), preview_stale: true, ..a }
        } else {
            a
        }
    } else if is_key(code, 'k') || code == KeyCode::Up {
        AppV { selected: step_up(a.selected), preview_stale: true, ..a }
    } else if is_key(code, 'g') || code == KeyCode::Home {
        AppV { selected: 0, preview_stale: true, ..a }
    } else if is_key(code, 'G') || code == KeyCode::End {
        AppV { selected: last_index(len), preview_stale: true, ..a }
    } else if code == KeyCode::Enter || is_key(code, 'l') || code == KeyCode::Right {
        open_selected_spec(a)
    } else if is_key(code, 'h') || code == KeyCode::Backspace || code == KeyCode::Left {
        ascend_spec(a)
    } else if is_key(code, 'e') {
        edit_selected_spec(a)
    } else if is_key(code, 's') {
        let target = match selected_of(a) {
            Some(e) => if e.is_dir {
                e.path@
            } else {
                a.cwd
            },
            None => a.cwd,
        };
        AppV { pending: Some(PendingV::Shell(target)), ..a }
    } else if is_key(code, 'n') {
        begin_input_spec(a, InputKind::NewFile, stamp)
    } else if is_key(code, 'N') {
        match default_action_index(a) {
            Some(i) => begin_input_spec(AppV { selected_action: Some(i), ..a }, InputKind::NewDir, stamp),
            None => begin_input_spec(a, InputKind::NewDir, stamp),
        }
    } else if is_key(code, 't') {
        if a.actions.len() == 0 {
            AppV { status: status_no_actions_text(a.lang), ..a }
        } else {
            AppV { action_cursor: 0, status: Seq::<char>::empty(), mode: Mode::ActionPick, ..a }
        }
    } else if is_key(code, 'r') {
        if selected_of(a) is Some {
            begin_input_spec(a, InputKind::Rename, stamp)
        } else {
            a
        }
    } else if is_key(code, 'd') {
        if selected_of(a) is Some {
            AppV { mode: Mode::ConfirmDelete, ..a }
        } else {
            a
        }
    } else if is_key(code, '/') {
        AppV { mode: Mode::Search, status: Seq::<char>::empty(), ..a }
    } else if is_key(code, '?') {
        AppV { mode: Mode::Help, ..a }
    } else if is_key(code, ',') {
        AppV { pending: Some(PendingV::Settings), ..a }
    } else if code == KeyCode::Esc && a.search.len() > 0 {
        AppV { search: Seq::<char>::empty(), selected: 0, preview_stale: true, ..a }
    } else {
        a
    }
}

/// A key while typing the search query.
pub open spec fn search_step(a: AppV, code: KeyCode) -> AppV {
    if code == KeyCode::Esc {
        AppV {
            search: Seq::<char>::empty(),
            selected: 0,
            mode: Mode::Browse,
            preview_stale: true,
            ..a
        }
    } else if code == KeyCode::Enter || code == KeyCode::Down || code == KeyCode::Up {
        AppV { mode: Mode::Browse, ..a }
    } else if code == KeyCode::Backspace {
        let search = if a.search.len() > 0 {
            a.search.drop_last()
        } else {
            a.search
        };
        AppV { search, selected: 0, preview_stale: true, ..a }
    } else if code is Char {
        AppV { search: a.search.push(code->Char_0), selected: 0, preview_stale: true, ..a }
    } else {
        a
    }
}

/// The name typed for a new entry or a rename, once trimmed, and what it leads to. `b` is the
/// state with the prompt already closed.
pub open spec fn commit_spec(b: AppV, kind: InputKind, name: Seq<char>) -> AppV {
    match kind {
        InputKind::NewFile => if valid_name(name) {
            let path = join(b.cwd, name);
            AppV {
                io: Some(RequestV::CreateFile { path }),
                follow_up: FollowUpV::NewFile { name, path },
                ..b
            }
        } else {
            AppV { status: status_create_failed_text(b.lang, "invalid name"@), ..b }
        },
        InputKind::NewDir => if b.selected_action is Some {
            AppV { pending_name: name, mode: Mode::ConfirmAction, ..b }
        } else if valid_name(name) {
            AppV {
                io: Some(RequestV::CreateDir { path: join(b.cwd, name) }),
                follow_up: FollowUpV::NewDir { name },
                ..b
            }
        } else {
            AppV { status: status_create_failed_text(b.lang, "invalid name"@), ..b }
        },
        InputKind::Rename => match selected_of(b) {
            Some(e) => if !valid_name(name) {
                AppV { status: status_rename_failed_text(b.lang, "invalid name"@), ..b }
            } else if parent(e.path@) is None {
                AppV {
                    status: status_rename_failed_text(b.lang, "could not determine parent directory"@),
                    ..b
                }
            } else if path_eq(join(parent(e.path@)->0, name), e.path@) {
                renamed_spec(b, name)
            } else {
                AppV {
                    io: Some(RequestV::Rename { from: e.path@, to: join(parent(e.path@)->0, name) }),
                    follow_up: FollowUpV::Rename { name },
                    ..b
                }
            },
            None => b,
        },
    }
}

/// After a successful rename: no search, a fresh listing with the new name selected.
pub open spec fn renamed_spec(a: AppV, name: Seq<char>) -> AppV {
    refresh_spec(
        AppV { search: Seq::<char>::empty(), status: status_renamed_text(a.lang), ..a },
        Some(name),
    )
}

/// A key in the name prompt.
pub open spec fn input_step(a: AppV, key: Key) -> AppV {
    let code = key.code;
    if code == KeyCode::Esc {
        AppV { input: Seq::<char>::empty(), selected_action: None, mode: Mode::Browse, ..a }
    } else if code == KeyCode::Enter {
        match a.mode {
            Mode::Input(kind) => commit_spec(
                AppV { input: Seq::<char>::empty(), mode: Mode::Browse, ..a },
                kind,
                trim(a.input),
            ),
            _ => a,
        }
    } else if code == KeyCode::Backspace {
        if a.input.len() > 0 {
            AppV { input: a.input.drop_last(), ..a }
        } else {
            a
        }
    } else if code is Char && !key.ctrl {
        AppV { input: a.input.push(code->Char_0), ..a }
    } else {
        a
    }
}

/// A key while the deletion waits for confirmation: only `y` deletes.
pub open spec fn confirm_step(a: AppV, code: KeyCode) -> AppV {
    if is_key(code, 'y') {
        match selected_of(a) {
            Some(e) => AppV {
                io: Some(RequestV::Remove { path: e.path@, is_dir: e.is_dir }),
                follow_up: FollowUpV::Delete { name: e.name@ },
                mode: Mode::Browse,
                ..a
            },
            None => AppV { mode: Mode::Browse, ..a },
        }
    } else {
        AppV { mode: Mode::Browse, ..a }
    }
}

/// A key in the action picker.
pub open spec fn pick_step(a: AppV, code: KeyCode, stamp: Seq<char>) -> AppV {
    let len = a.actions.len() as int;
    if code == KeyCode::Esc {
        AppV { mode: Mode::Browse, ..a }
    } else if is_key(code, 'j') || code == KeyCode::Down {
        if len > 0 {
            AppV { action_cursor: step_down(a.action_cursor, len), ..a }
        } else {
            a
        }
    } else if is_key(code, 'k') || code == KeyCode::Up {
        AppV { action_cursor: step_up(a.action_cursor), ..a }
    } else if is_key(code, 'g') || code == KeyCode::Home {
        AppV { action_cursor: 0, ..a }
    } else if is_key(code, 'G') || code == KeyCode::End {
        AppV { action_cursor: last_index(len), ..a }
    } else if (code == KeyCode::Enter || is_key(code, 'l') || code == KeyCode::Right)
        && a.action_cursor < len {
        begin_input_spec(
            AppV { selected_action: Some(a.action_cursor), ..a },
            InputKind::NewDir,
            stamp,
        )
    } else {
        a
    }
}

/// `y` on the confirmation of an action: the chosen action's directory is requested; the
/// command runs once it exists.
pub open spec fn run_action_spec(a: AppV) -> AppV {
    let b = AppV { mode: Mode::Browse, selected_action: None, pending_name: Seq::<char>::empty(), ..a };
    match a.selected_action {
        Some(i) => if 0 <= i < a.actions.len() {
            let name = a.pending_name;
            if valid_name(name) {
                let path = join(a.cwd, name);
                AppV {
                    io: Some(RequestV::CreateDir { path }),
                    follow_up: FollowUpV::RunAction {
                        name,
                        path,
                        action_name: a.actions[i].name@,
                        command: a.actions[i].run@,
                    },
                    ..b
                }
            } else {
                AppV { status: status_create_failed_text(a.lang, "invalid name"@), ..b }
            }
        } else {
            b
        },
        None => b,
    }
}

/// A key while an action waits for confirmation: only `y` runs it.
pub open spec fn confirm_action_step(a: AppV, code: KeyCode) -> AppV {
    if is_key(code, 'y') {
        run_action_spec(a)
    } else {
        AppV { selected_action: None, pending_name: Seq::<char>::empty(), mode: Mode::Browse, ..a }
    }
}

/// What a key does. `stamp` is the clock's text that a new entry's name starts with.
pub open spec fn key_step(a: AppV, key: Key, stamp: Seq<char>) -> AppV {
    if !key.press {
        a
    } else {
        match a.mode {
            Mode::Browse => browse_step(a, key.code, stamp),
            Mode::Search => search_step(a, key.code),
            Mode::Input(_) => input_step(a, key),
            Mode::ConfirmDelete => confirm_step(a, key.code),
            Mode::ActionPick => pick_step(a, key.code, stamp),
            Mode::ConfirmAction => confirm_action_step(a, key.code),
            Mode::Help => AppV { mode: Mode::Browse, ..a },
        }
    }
}

/// Position, among the visible entries, of the first one named `name`.
pub open spec fn position_named(entries: Seq<Entry>, vis: Seq<int>, name: Seq<char>) -> Option<int>
    decreases vis.len(),
{
    if vis.len() == 0 {
        None
    } else {
        match position_named(entries, vis.drop_last(), name) {
            Some(p) => Some(p),
            None => if entries[vis.last()].name@ == name {
                Some(vis.len() - 1)
            } else {
                None
            },
        }
    }
}

/// A listing arrives: the entries are replaced, the cursor kept on the list, then moved to the
/// entry named `select` if it is visible.
pub open spec fn listed_spec(a: AppV, raw: Seq<Entry>, select: Option<Seq<char>>) -> AppV {
    let entries = newest_order(shown(raw));
    let vis = visible_spec(entries, a.search);
    let kept = if a.selected >= vis.len() {
        last_index(vis.len() as int)
    } else {
        a.selected
    };
    let selected = match select {
        Some(n) => match position_named(entries, vis, n) {
            Some(p) => p,
            None => kept,
        },
        None => kept,
    };
    AppV { entries, selected, preview_stale: true, io: None, follow_up: FollowUpV::Idle, ..a }
}

/// A failed operation only reports its error.
pub open spec fn failed_spec(a: AppV, status: Seq<char>) -> AppV {
    AppV { status, io: None, follow_up: FollowUpV::Idle, ..a }
}

/// What the driver's answer does.
pub open spec fn answer_step(a: AppV, reply: ReplyV) -> AppV {
    match a.follow_up {
        FollowUpV::Idle => a,
        FollowUpV::Refresh { select } => match reply {
            ReplyV::Listing(raw) => listed_spec(a, raw, select),
            ReplyV::Done(_) => a,
        },
        FollowUpV::Delete { name } => match reply {
            ReplyV::Done(Ok(())) => refresh_spec(AppV { status: status_deleted_text(a.lang, name), ..a }, None),
            ReplyV::Done(Err(e)) => refresh_spec(AppV { status: status_delete_failed_text(a.lang, e), ..a }, None),
            ReplyV::Listing(_) => a,
        },
        FollowUpV::NewFile { name, path } => match reply {
            ReplyV::Done(Ok(())) => refresh_spec(
                AppV { search: Seq::<char>::empty(), pending: Some(PendingV::Editor(path)), ..a },
                Some(name),
            ),
            ReplyV::Done(Err(e)) => failed_spec(a, status_create_failed_text(a.lang, e)),
            ReplyV::Listing(_) => a,
        },
        FollowUpV::NewDir { name } => match reply {
            ReplyV::Done(Ok(())) => refresh_spec(
                AppV { search: Seq::<char>::empty(), status: status_created_dir_text(a.lang, name), ..a },
                Some(name),
            ),
            ReplyV::Done(Err(e)) => failed_spec(a, status_create_failed_text(a.lang, e)),
            ReplyV::Listing(_) => a,
        },
        FollowUpV::Rename { name } => match reply {
            ReplyV::Done(Ok(())) => renamed_spec(a, name),
            ReplyV::Done(Err(e)) => failed_spec(a, status_rename_failed_text(a.lang, e)),
            ReplyV::Listing(_) => a,
        },
        FollowUpV::RunAction { name, path, action_name, command } => match reply {
            ReplyV::Done(Ok(())) => refresh_spec(
                AppV {
                    search: Seq::<char>::empty(),
                    status: status_run_action_text(a.lang, action_name),
                    pending: Some(PendingV::Run { dir: path, root: a.root, command }),
                    ..a
                },
                Some(name),
            ),
            ReplyV::Done(Err(e)) => failed_spec(a, status_create_failed_text(a.lang, e)),
            ReplyV::Listing(_) => a,
        },
    }
}


proof fn lemma_position_extends(entries: Seq<Entry>, vis: Seq<int>, k: int, name: Seq<char>)
    requires
        0 <= k <= vis.len(),
        position_named(entries, vis.subrange(0, k), name) is Some,
    ensures
        position_named(entries, vis, name) == position_named(entries, vis.subrange(0, k), name),
    decreases vis.len(),
{
    if k == vis.len() {
        assert(vis.subrange(0, k) =~= vis);
    } else {
        assert(vis.drop_last().subrange(0, k) =~= vis.subrange(0, k));
        lemma_position_extends(entries, vis.drop_last(), k, name);
    }
}

/// Help is closed by any key, which does nothing else.
pub proof fn law_help_closes_on_any_key(a: AppV, key: Key, stamp: Seq<char>)
    requires
        a.mode == Mode::Help,
        key.press,
    ensures
        key_step(a, key, stamp) == (AppV { mode: Mode::Browse, ..a }),
{
}

/// Releases and repeats of a key change nothing.
pub proof fn law_only_presses_count(a: AppV, key: Key, stamp: Seq<char>)
    requires
        !key.press,
    ensures
        key_step(a, key, stamp) == a,
{
}

/// Only `y` deletes: any other key, `Enter` included, closes the confirmation and changes
/// nothing else.
pub proof fn law_delete_needs_y(a: AppV, key: Key, stamp: Seq<char>)
    requires
        a.mode == Mode::ConfirmDelete,
        key.press,
        key.code != KeyCode::Char('y'),
    ensures
        key_step(a, key, stamp) == (AppV { mode: Mode::Browse, ..a }),
{
}

/// `y` asks for the removal of the selected entry, recursively for a directory.
pub proof fn law_delete_removes_selected(a: AppV, key: Key, stamp: Seq<char>, e: Entry)
    requires
        a.mode == Mode::ConfirmDelete,
        key.press,
        key.code == KeyCode::Char('y'),
        selected_of(a) == Some(e),
    ensures
        key_step(a, key, stamp).io == Some(RequestV::Remove { path: e.path@, is_dir: e.is_dir }),
        key_step(a, key, stamp).mode == Mode::Browse,
{
}

/// Only `y` runs an action: any other key cancels it; nothing is created and no command is
/// handed over.
pub proof fn law_action_needs_y(a: AppV, key: Key, stamp: Seq<char>)
    requires
        a.mode == Mode::ConfirmAction,
        key.press,
        key.code != KeyCode::Char('y'),
    ensures
        key_step(a, key, stamp) == (AppV {
            selected_action: None,
            pending_name: Seq::<char>::empty(),
            mode: Mode::Browse,
            ..a
        }),
{
}

/// With an action chosen, the typed directory name goes to the confirmation first: nothing is
/// requested and nothing is run yet.
pub proof fn law_action_confirmed_before_creation(a: AppV, key: Key, stamp: Seq<char>)
    requires
        a.mode == Mode::Input(InputKind::NewDir),
        a.selected_action is Some,
        key.press,
        key.code == KeyCode::Enter,
    ensures
        key_step(a, key, stamp).mode == Mode::ConfirmAction,
        key_step(a, key, stamp).pending_name == trim(a.input),
        key_step(a, key, stamp).io == a.io,
        key_step(a, key, stamp).pending == a.pending,
        key_step(a, key, stamp).selected_action == a.selected_action,
{
}

/// Leaving the name prompt with `Esc` forgets the chosen action, so a later plain `N` makes a
/// plain directory.
pub proof fn law_escape_forgets_action(a: AppV, key: Key, stamp: Seq<char>)
    requires
        a.mode is Input,
        key.press,
        key.code == KeyCode::Esc,
    ensures
        key_step(a, key, stamp).selected_action is None,
        key_step(a, key, stamp).mode == Mode::Browse,
        key_step(a, key, stamp).io == a.io,
{
}

/// Going up never leaves the root.
pub proof fn law_no_ascent_above_root(a: AppV, key: Key, stamp: Seq<char>)
    requires
        a.mode == Mode::Browse,
        key.press,
        is_key(key.code, 'h') || key.code == KeyCode::Backspace || key.code == KeyCode::Left,
        path_eq(a.cwd, a.root),
    ensures
        key_step(a, key, stamp) == a,
{
}

/// In the list, Down moves like `j` and Up like `k`: one row down (stopping at the last visible
/// entry) and one row up (stopping at the first).
pub proof fn law_arrows_move_like_j_and_k(a: AppV, ctrl: bool, stamp: Seq<char>)
    requires
        a.mode == Mode::Browse,
    ensures
        key_step(a, Key { code: KeyCode::Down, ctrl, press: true }, stamp) == key_step(
            a,
            Key { code: KeyCode::Char('j'), ctrl, press: true },
            stamp,
        ),
        key_step(a, Key { code: KeyCode::Up, ctrl, press: true }, stamp) == key_step(
            a,
            Key { code: KeyCode::Char('k'), ctrl, press: true },
            stamp,
        ),
        0 <= a.selected && a.selected + 1 < visible_count(a) ==> key_step(
            a,
            Key { code: KeyCode::Down, ctrl, press: true },
            stamp,
        ).selected == a.selected + 1,
        0 <= a.selected && a.selected + 1 == visible_count(a) ==> key_step(
            a,
            Key { code: KeyCode::Down, ctrl, press: true },
            stamp,
        ).selected == a.selected,
        a.selected > 0 ==> key_step(a, Key { code: KeyCode::Up, ctrl, press: true }, stamp).selected == a.selected - 1,
{
}

/// The filter shows exactly the entries whose lowercased name contains the lowercased query,
/// in their order.
pub proof fn law_filter_shows_exactly_matches(entries: Seq<Entry>, search: Seq<char>)
    ensures
        forall|k: int| 0 <= k < visible_spec(entries, search).len() ==> matches_search(
            entries[#[trigger] visible_spec(entries, search)[k]].name@,
            search,
        ),
        forall|k: int, l: int| 0 <= k < l < visible_spec(entries, search).len() ==> #[trigger] visible_spec(entries, search)[k] < #[trigger] visible_spec(entries, search)[l],
        forall|i: int| 0 <= i < entries.len() && #[trigger] matches_search(entries[i].name@, search) ==> visible_spec(entries, search).contains(i),
    decreases entries.len(),
{
    lemma_visible_in_range(entries, search);
    if entries.len() > 0 {
        let rest = entries.drop_last();
        law_filter_shows_exactly_matches(rest, search);
        lemma_visible_in_range(rest, search);
        let v = visible_spec(rest, search);
        assert forall|k: int| 0 <= k < v.len() implies #[trigger] rest[v[k]] == entries[v[k]] by {
        }
        assert forall|i: int| 0 <= i < entries.len() && #[trigger] matches_search(entries[i].name@, search) implies visible_spec(entries, search).contains(i) by {
            if i < entries.len() - 1 {
                assert(rest[i] == entries[i]);
                assert(matches_search(rest[i].name@, search));
                assert(v.contains(i));
                let k = choose|k: int| 0 <= k < v.len() && v[k] == i;
                if matches_search(entries.last().name@, search) {
                    assert(visible_spec(entries, search)[k] == i);
                } else {
                    assert(visible_spec(entries, search)[k] == i);
                }
            } else {
                let vs = visible_spec(entries, search);
                assert(vs[vs.len() - 1] == i);
            }
        }
    }
}

/// Once a listing arrives the cursor is on the list, or at the top of an empty one.
pub proof fn law_listing_keeps_cursor_on_list(a: AppV, raw: Seq<Entry>, select: Option<Seq<char>>)
    requires
        a.selected >= 0,
    ensures
        ({
            let b = listed_spec(a, raw, select);
            let n = visible_count(b);
            (0 <= b.selected < n) || (n == 0 && b.selected == 0)
        }),
{
    let b = listed_spec(a, raw, select);
    let entries = newest_order(shown(raw));
    let vis = visible_spec(entries, a.search);
    match select {
        Some(n) => {
            lemma_position_in_range(entries, vis, n);
        },
        None => {},
    }
}

proof fn lemma_position_in_range(entries: Seq<Entry>, vis: Seq<int>, name: Seq<char>)
    ensures
        position_named(entries, vis, name) matches Some(p) ==> 0 <= p < vis.len(),
    decreases vis.len(),
{
    if vis.len() > 0 {
        lemma_position_in_range(entries, vis.drop_last(), name);
    }
}

/// The state of a fresh TUI on `root`, before its first listing.
pub open spec fn initial_spec(root: Seq<char>, lang: Lang) -> AppV {
    AppV {
        root,
        cwd: root,
        entries: Seq::<Entry>::empty(),
        selected: 0,
        mode: Mode::Browse,
        search: Seq::<char>::empty(),
        input: Seq::<char>::empty(),
        preview: Seq::<char>::empty(),
        status: Seq::<char>::empty(),
        pending: None,
        should_quit: false,
        lang,
        actions: Seq::<Action>::empty(),
        default_action: None,
        action_cursor: 0,
        selected_action: None,
        pending_name: Seq::<char>::empty(),
        io: None,
        follow_up: FollowUpV::Idle,
        preview_stale: false,
    }
}

/// The action the confirmation is about.
pub open spec fn pending_action_of(a: AppV) -> Option<Action> {
    match a.selected_action {
        Some(i) => if 0 <= i < a.actions.len() {
            Some(a.actions[i])
        } else {
            None
        },
        None => None,
    }
}

/// The header's path: the current directory relative to the root, as `chira/...`.
pub open spec fn rel_path_spec(cwd: Seq<char>, root: Seq<char>) -> Seq<char> {
    match strip_prefix(cwd, root) {
        Some(p) => if p.len() == 0 {
            "chira"@
        } else {
            "chira/"@ + p
        },
        None => cwd,
    }
}

/// Files larger than this many bytes are not previewed.
pub const PREVIEW_MAX_BYTES: u64 = 1048576;

/// What the driver learned of a file before reading it for the preview.
pub enum FileProbe {
    /// Its metadata could not be read (the error's text).
    Unreadable(String),
    /// Not a regular file: reading a FIFO would block and a device may never end.
    Special,
    /// A regular file of this many bytes.
    Regular(u64),
}

/// The preview of a file that is not to be read, or `None` when its contents are wanted.
pub fn preview_before_read(lang: Lang, probe: &FileProbe) -> (r: Option<String>)
    ensures
        match probe {
            FileProbe::Unreadable(e) => r matches Some(t) && t@ == preview_unreadable_text(lang, e@),
            FileProbe::Special => r matches Some(t) && t@ == preview_special_file_text(lang),
            FileProbe::Regular(n) => if *n > PREVIEW_MAX_BYTES {
                r matches Some(t) && t@ == preview_large_file_text(lang, *n)
            } else {
                r is None
            },
        },
{
    match probe {
        FileProbe::Unreadable(e) => Some(preview_unreadable(lang, e.as_str())),
        FileProbe::Special => Some(owned(preview_special_file(lang))),
        FileProbe::Regular(n) => if *n > PREVIEW_MAX_BYTES {
            Some(preview_large_file(lang, *n))
        } else {
            None
        },
    }
}

/// The preview of a read file: its text, or a notice when it was not valid UTF-8 or could not
/// be read.
pub fn preview_of_contents(lang: Lang, contents: Option<String>) -> (r: String)
    ensures
        r@ == (match contents {
            Some(t) => t@,
            None => preview_binary_text(lang),
        }),
{
    match contents {
        Some(t) => t,
        None => owned(preview_binary(lang)),
    }
}

impl App {
    /// A TUI on `root`, asking for its first listing.
    pub fn with_root(root: String, lang: Lang) -> (app: App)
        ensures
            app@ == refresh_spec(initial_spec(root@, lang), None),
    {
        let mut app = App {
            cwd: root.clone(),
            root,
            entries: Vec::new(),
            selected: 0,
            mode: Mode::Browse,
            search: String::new(),
            input: String::new(),
            preview: String::new(),
            status: String::new(),
            pending: None,
            should_quit: false,
            lang,
            actions: Vec::new(),
            default_action: None,
            action_cursor: 0,
            selected_action: None,
            pending_name: String::new(),
            io: None,
            follow_up: FollowUp::Idle,
            preview_stale: false,
            file_template: NameTemplate::file_default(),
            dir_template: NameTemplate::dir_default(),
        };
        proof {
            assert(app@.entries =~= Seq::<Entry>::empty());
            assert(app@.actions =~= Seq::<Action>::empty());
        }
        app.refresh();
        app
    }

    /// A TUI on the scratch root that the environment and the configuration choose (see
    /// `resolve_root`); the caller makes sure the directory exists before the first listing.
    pub fn new(
        chira_dir: Option<String>,
        config_dir: Option<&str>,
        xdg_data: Option<String>,
        home: Option<&str>,
        lang: Lang,
    ) -> (r: Result<App, String>)
        ensures
            match r {
                Ok(app) => root_choice(opt_string(chira_dir), opt_str(config_dir), opt_string(xdg_data), opt_str(home)) matches Ok(root)
                    && app@ == refresh_spec(initial_spec(root, lang), None),
                Err(e) => root_choice(opt_string(chira_dir), opt_str(config_dir), opt_string(xdg_data), opt_str(home)) == Err::<Seq<char>, Seq<char>>(e@),
            },
    {
        let root = resolve_root(chira_dir, config_dir, xdg_data, home)?;
        Ok(App::with_root(root, lang))
    }

    /// The formats a new file's and a new directory's names start from.
    pub closed spec fn templates(&self) -> (Seq<char>, Seq<char>) {
        (self.file_template.text(), self.dir_template.text())
    }

    /// Starts the names of new files and directories from these formats; nothing else changes.
    pub fn set_templates(&mut self, file: NameTemplate, dir: NameTemplate)
        ensures
            final(self)@ == old(self)@,
            final(self).templates() == (file.text(), dir.text()),
    {
        self.file_template = file;
        self.dir_template = dir;
    }

    /// Takes the configured actions (sorted by name) and the action a plain new directory goes
    /// through; nothing else changes.
    pub fn set_actions(&mut self, actions: Vec<Action>, default_action: Option<String>)
        ensures
            final(self)@ == (AppV { actions: actions@, default_action: opt_string(default_action), ..old(self)@ }),
            final(self).templates() == old(self).templates(),
    {
        self.actions = actions;
        self.default_action = default_action;
    }

    /// The cursors of a real state are never negative.
    pub proof fn lemma_cursors_are_natural(&self)
        ensures
            self@.selected >= 0,
            self@.action_cursor >= 0,
            self@.selected_action matches Some(i) ==> i >= 0,
    {
    }

    /// The action chosen for the confirmation, if any.
    pub fn pending_action(&self) -> (r: Option<&Action>)
        ensures
            match r {
                Some(x) => pending_action_of(self@) == Some(*x),
                None => pending_action_of(self@) is None,
            },
    {
        match self.selected_action {
            Some(i) => if i < self.actions.len() {
                Some(&self.actions[i])
            } else {
                None
            },
            None => None,
        }
    }

    /// Name of the directory the chosen action will create.
    pub fn pending_name(&self) -> (r: &str)
        ensures
            r@ == self@.pending_name,
    {
        self.pending_name.as_str()
    }

    /// The current directory for the header: `chira` at the root, `chira/<sub>` below it.
    pub fn rel_path(&self) -> (r: String)
        ensures
            r@ == rel_path_spec(self@.cwd, self@.root),
    {
        match path_strip_prefix(self.cwd.as_str(), self.root.as_str()) {
            Some(p) => if p.as_str().unicode_len() == 0 {
                owned("chira")
            } else {
                concat2("chira/", p.as_str())
            },
            None => self.cwd.clone(),
        }
    }

    fn request_listing(&mut self, select: Option<String>)
        ensures
            final(self)@ == refresh_spec(old(self)@, opt_string(select)),
    {
        self.io = Some(Request::List { dir: self.cwd.clone() });
        self.follow_up = FollowUp::Refresh { select };
    }

    /// Asks for a fresh listing of the current directory.
    pub fn refresh(&mut self)
        ensures
            final(self)@ == refresh_spec(old(self)@, None),
    {
        self.request_listing(None);
    }

    fn set_cwd(&mut self, dest: String)
        ensures
            final(self)@ == set_cwd_spec(old(self)@, dest@),
    {
        self.cwd = dest;
        self.selected = 0;
        self.search = String::new();
        self.refresh();
    }

    fn edit_selected(&mut self)
        ensures
            final(self)@ == edit_selected_spec(old(self)@),
    {
        let target = match self.selected_entry() {
            Some(e) => if !e.is_dir {
                Some(e.path.clone())
            } else {
                None
            },
            None => None,
        };
        if let Some(p) = target {
            self.pending = Some(Pending::Editor(p));
        }
    }

    fn open_selected(&mut self)
        ensures
            final(self)@ == open_selected_spec(old(self)@),
    {
        let target = match self.selected_entry() {
            Some(e) => Some((e.is_dir, e.path.clone())),
            None => None,
        };
        match target {
            Some((true, p)) => self.set_cwd(p),
            Some((false, _)) => self.edit_selected(),
            None => {},
        }
    }

    fn ascend(&mut self)
        ensures
            final(self)@ == ascend_spec(old(self)@),
    {
        if !path_equal(self.cwd.as_str(), self.root.as_str()) {
            if let Some(p) = path_parent(self.cwd.as_str()) {
                self.set_cwd(p);
            }
        }
    }

    fn begin_input(&mut self, kind: InputKind)
        ensures
            exists|stamp: Seq<char>|
                final(self)@ == begin_input_spec(old(self)@, kind, stamp) && (kind == InputKind::NewFile
                    ==> written_at_some_reading(old(self).templates().0, stamp)) && (kind == InputKind::NewDir
                    ==> written_at_some_reading(old(self).templates().1, stamp)),
            final(self).templates() == old(self).templates(),
    {
        let ghost a = self@;
        let input = match kind {
            InputKind::NewFile => self.file_template.render(),
            InputKind::NewDir => self.dir_template.render(),
            InputKind::Rename => match self.selected_entry() {
                Some(e) => e.name.clone(),
                None => String::new(),
            },
        };
        self.input = input;
        self.mode = Mode::Input(kind);
        self.status = String::new();
        assert(self@ == begin_input_spec(a, kind, input@));
    }

    fn default_action_index(&self) -> (r: Option<usize>)
        ensures
            match r {
                Some(i) => default_action_index(self@) == Some(i as int),
                None => default_action_index(self@) is None,
            },
    {
        let name = match &self.default_action {
            Some(n) => n,
            None => {
                return None;
            },
        };
        assert(self.default_action == Some(*name));
        assert(self@.default_action == Some(name@));
        let ghost acts = self.actions@;
        let mut i: usize = 0;
        assert(acts.subrange(0, 0) =~= Seq::<Action>::empty());
        while i < self.actions.len()
            invariant
                i <= acts.len(),
                acts == self.actions@,
                self@.actions == acts,
                self@.default_action == Some(name@),
                action_index(acts.subrange(0, i as int), name@) is None,
            decreases self.actions.len() - i,
        {
            assert(acts.subrange(0, i + 1).drop_last() =~= acts.subrange(0, i as int));
            assert(acts.subrange(0, i + 1).last() == acts[i as int]);
            if str_eq(self.actions[i].name.as_str(), name.as_str()) {
                proof {
                    lemma_action_index_extends(acts, i + 1, name@);
                    assert(self@.actions == acts);
                }
                return Some(i);
            }
            i = i + 1;
        }
        assert(acts.subrange(0, acts.len() as int) =~= acts);
        assert(self@.actions == acts);
        None
    }

    fn on_key_browse(&mut self, key: Key)
        requires
            old(self)@.mode == Mode::Browse,
        ensures
            exists|stamp: Seq<char>|
                final(self)@ == browse_step(old(self)@, key.code, stamp) && stamp_fits(
                    old(self).templates(),
                    old(self)@.mode,
                    final(self)@.mode,
                    stamp,
                ),
    {
        let ghost a = self@;
        let len = self.visible().len();
        let code = key.code;
        if code == KeyCode::Char('q') {
            self.should_quit = true;
            assert(self@ == browse_step(a, code, Seq::<char>::empty()));
        } else if code == KeyCode::Char('j') || code == KeyCode::Down {
            if len > 0 {
                self.selected = if self.selected < len - 1 && self.selected + 1 < len - 1 {
                    self.selected + 1
                } else {
                    len - 1
                };
                self.preview_stale = true;
            }
            assert(self@ == browse_step(a, code, Seq::<char>::empty()));
        } else if code == KeyCode::Char('k') || code == KeyCode::Up {
            self.selected = if self.selected > 0 {
                self.selected - 1
            } else {
                0
            };
            self.preview_stale = true;
            assert(self@ == browse_step(a, code, Seq::<char>::empty()));
        } else if code == KeyCode::Char('g') || code == KeyCode::Home {
            self.selected = 0;
            self.preview_stale = true;
            assert(self@ == browse_step(a, code, Seq::<char>::empty()));
        } else if code == KeyCode::Char('G') || code == KeyCode::End {
            self.selected = if len > 0 {
                len - 1
            } else {
                0
            };
            self.preview_stale = true;
            assert(self@ == browse_step(a, code, Seq::<char>::empty()));
        } else if code == KeyCode::Enter || code == KeyCode::Char('l') || code == KeyCode::Right {
            self.open_selected();
            assert(self@ == browse_step(a, code, Seq::<char>::empty()));
        } else if code == KeyCode::Char('h') || code == KeyCode::Backspace || code == KeyCode::Left {
            self.ascend();
            assert(self@ == browse_step(a, code, Seq::<char>::empty()));
        } else if code == KeyCode::Char('e') {
            self.edit_selected();
            assert(self@ == browse_step(a, code, Seq::<char>::empty()));
        } else if code == KeyCode::Char('s') {
            let target = match self.selected_entry() {
                Some(e) => if e.is_dir {
                    e.path.clone()
                } else {
                    self.cwd.clone()
                },
                None => self.cwd.clone(),
            };
            self.pending = Some(Pending::Shell(target));
            assert(self@ == browse_step(a, code, Seq::<char>::empty()));
        } else if code == KeyCode::Char('n') {
            self.begin_input(InputKind::NewFile);
            let ghost st = choose|st: Seq<char>|
                self@ == begin_input_spec(a, InputKind::NewFile, st) && written_at_some_reading(self.templates().0, st);
            assert(self@ == browse_step(a, code, st));
        } else if code == KeyCode::Char('N') {
            let idx = self.default_action_index();
            if idx.is_some() {
                self.selected_action = idx;
            }
            let ghost b = self@;
            self.begin_input(InputKind::NewDir);
            let ghost st = choose|st: Seq<char>|
                self@ == begin_input_spec(b, InputKind::NewDir, st) && written_at_some_reading(self.templates().1, st);
            assert(self@ == browse_step(a, code, st));
        } else if code == KeyCode::Char('t') {
            if self.actions.len() == 0 {
                self.status = owned(status_no_actions(self.lang));
            } else {
                self.action_cursor = 0;
                self.status = String::new();
                self.mode = Mode::ActionPick;
            }
            assert(self@ == browse_step(a, code, Seq::<char>::empty()));
        } else if code == KeyCode::Char('r') {
            if self.selected_entry().is_some() {
                self.begin_input(InputKind::Rename);
                let ghost st = choose|st: Seq<char>| self@ == begin_input_spec(a, InputKind::Rename, st);
                assert(self@ == browse_step(a, code, st));
            } else {
                assert(self@ == browse_step(a, code, Seq::<char>::empty()));
            }
        } else if code == KeyCode::Char('d') {
            if self.selected_entry().is_some() {
                self.mode = Mode::ConfirmDelete;
            }
            assert(self@ == browse_step(a, code, Seq::<char>::empty()));
        } else if code == KeyCode::Char('/') {
            self.mode = Mode::Search;
            self.status = String::new();
            assert(self@ == browse_step(a, code, Seq::<char>::empty()));
        } else if code == KeyCode::Char('?') {
            self.mode = Mode::Help;
            assert(self@ == browse_step(a, code, Seq::<char>::empty()));
        } else if code == KeyCode::Char(',') {
            self.pending = Some(Pending::Settings);
            assert(self@ == browse_step(a, code, Seq::<char>::empty()));
        } else if code == KeyCode::Esc && self.search.as_str().unicode_len() > 0 {
            self.search = String::new();
            self.selected = 0;
            self.preview_stale = true;
            assert(self@ == browse_step(a, code, Seq::<char>::empty()));
        } else {
            assert(self@ == browse_step(a, code, Seq::<char>::empty()));
        }
    }

    fn on_key_search(&mut self, code: KeyCode)
        ensures
            final(self)@ == search_step(old(self)@, code),
    {
        if code == KeyCode::Esc {
            self.search = String::new();
            self.selected = 0;
            self.mode = Mode::Browse;
            self.preview_stale = true;
        } else if code == KeyCode::Enter || code == KeyCode::Down || code == KeyCode::Up {
            self.mode = Mode::Browse;
        } else if code == KeyCode::Backspace {
            self.search = without_last(self.search.as_str());
            self.selected = 0;
            self.preview_stale = true;
        } else if let KeyCode::Char(c) = code {
            self.search.push(c);
            self.selected = 0;
            self.preview_stale = true;
        }
    }

    fn commit_input(&mut self)
        ensures
            final(self)@ == (match old(self)@.mode {
                Mode::Input(kind) => commit_spec(
                    AppV { input: Seq::<char>::empty(), mode: Mode::Browse, ..old(self)@ },
                    kind,
                    trim(old(self)@.input),
                ),
                _ => old(self)@,
            }),
    {
        let kind = match self.mode {
            Mode::Input(k) => k,
            _ => {
                return;
            },
        };
        let name = trimmed(self.input.as_str());
        self.input = String::new();
        self.mode = Mode::Browse;
        let ghost b = self@;
        match kind {
            InputKind::NewFile => {
                if validate_name(name.as_str()).is_ok() {
                    let path = join_path(self.cwd.as_str(), name.as_str());
                    self.io = Some(Request::CreateFile { path: path.clone() });
                    self.follow_up = FollowUp::NewFile { name, path };
                } else {
                    self.status = status_create_failed(self.lang, "invalid name");
                }
            },
            InputKind::NewDir => {
                if self.selected_action.is_some() {
                    self.pending_name = name;
                    self.mode = Mode::ConfirmAction;
                } else if validate_name(name.as_str()).is_ok() {
                    let path = join_path(self.cwd.as_str(), name.as_str());
                    self.io = Some(Request::CreateDir { path });
                    self.follow_up = FollowUp::NewDir { name };
                } else {
                    self.status = status_create_failed(self.lang, "invalid name");
                }
            },
            InputKind::Rename => {
                let target = match self.selected_entry() {
                    Some(e) => Some(e.path.clone()),
                    None => None,
                };
                if let Some(from) = target {
                    if validate_name(name.as_str()).is_err() {
                        self.status = status_rename_failed(self.lang, "invalid name");
                    } else {
                        match path_parent(from.as_str()) {
                            None => {
                                self.status = status_rename_failed(
                                    self.lang,
                                    "could not determine parent directory",
                                );
                            },
                            Some(dir) => {
                                let dest = join_path(dir.as_str(), name.as_str());
                                if path_equal(dest.as_str(), from.as_str()) {
                                    self.renamed(name);
                                } else {
                                    self.io = Some(Request::Rename { from, to: dest });
                                    self.follow_up = FollowUp::Rename { name };
                                }
                            },
                        }
                    }
                }
            },
        }
        assert(self@ == commit_spec(b, kind, name@));
    }

    fn renamed(&mut self, name: String)
        ensures
            final(self)@ == renamed_spec(old(self)@, name@),
    {
        self.search = String::new();
        self.status = owned(status_renamed(self.lang));
        self.request_listing(Some(name));
    }

    fn on_key_input(&mut self, key: Key)
        ensures
            final(self)@ == input_step(old(self)@, key),
    {
        let code = key.code;
        if code == KeyCode::Esc {
            self.input = String::new();
            self.selected_action = None;
            self.mode = Mode::Browse;
        } else if code == KeyCode::Enter {
            self.commit_input();
        } else if code == KeyCode::Backspace {
            self.input = without_last(self.input.as_str());
        } else if let KeyCode::Char(c) = code {
            if !key.ctrl {
                self.input.push(c);
            }
        }
    }

    fn on_key_confirm(&mut self, code: KeyCode)
        ensures
            final(self)@ == confirm_step(old(self)@, code),
    {
        if code == KeyCode::Char('y') {
            let target = match self.selected_entry() {
                Some(e) => Some(e.clone()),
                None => None,
            };
            if let Some(e) = target {
                self.io = Some(Request::Remove { path: e.path, is_dir: e.is_dir });
                self.follow_up = FollowUp::Delete { name: e.name };
            }
        }
        self.mode = Mode::Browse;
    }

    fn on_key_action_pick(&mut self, code: KeyCode)
        requires
            old(self)@.mode == Mode::ActionPick,
        ensures
            exists|stamp: Seq<char>|
                final(self)@ == pick_step(old(self)@, code, stamp) && stamp_fits(
                    old(self).templates(),
                    old(self)@.mode,
                    final(self)@.mode,
                    stamp,
                ),
    {
        let ghost a = self@;
        let len = self.actions.len();
        if code == KeyCode::Esc {
            self.mode = Mode::Browse;
        } else if code == KeyCode::Char('j') || code == KeyCode::Down {
            if len > 0 {
                self.action_cursor = if self.action_cursor < len - 1 && self.action_cursor + 1 < len - 1 {
                    self.action_cursor + 1
                } else {
                    len - 1
                };
            }
        } else if code == KeyCode::Char('k') || code == KeyCode::Up {
            self.action_cursor = if self.action_cursor > 0 {
                self.action_cursor - 1
            } else {
                0
            };
        } else if code == KeyCode::Char('g') || code == KeyCode::Home {
            self.action_cursor = 0;
        } else if code == KeyCode::Char('G') || code == KeyCode::End {
            self.action_cursor = if len > 0 {
                len - 1
            } else {
                0
            };
        } else if (code == KeyCode::Enter || code == KeyCode::Char('l') || code == KeyCode::Right)
            && self.action_cursor < len {
            self.selected_action = Some(self.action_cursor);
            let ghost b = self@;
            self.begin_input(InputKind::NewDir);
            let ghost st = choose|st: Seq<char>|
                self@ == begin_input_spec(b, InputKind::NewDir, st) && written_at_some_reading(self.templates().1, st);
            assert(self@ == pick_step(a, code, st));
            return;
        }
        assert(self@ == pick_step(a, code, Seq::<char>::empty()));
    }

    fn run_pending_action(&mut self)
        ensures
            final(self)@ == run_action_spec(old(self)@),
    {
        let ghost a = self@;
        self.mode = Mode::Browse;
        let chosen = match self.selected_action {
            Some(i) => if i < self.actions.len() {
                Some((self.actions[i].name.clone(), self.actions[i].run.clone()))
            } else {
                None
            },
            None => None,
        };
        let name = self.pending_name.clone();
        self.pending_name = String::new();
        self.selected_action = None;
        if let Some((action_name, command)) = chosen {
            if validate_name(name.as_str()).is_ok() {
                let path = join_path(self.cwd.as_str(), name.as_str());
                self.io = Some(Request::CreateDir { path: path.clone() });
                self.follow_up = FollowUp::RunAction { name, path, action_name, command };
            } else {
                self.status = status_create_failed(self.lang, "invalid name");
            }
        }
    }

    fn on_key_confirm_action(&mut self, code: KeyCode)
        ensures
            final(self)@ == confirm_action_step(old(self)@, code),
    {
        if code == KeyCode::Char('y') {
            self.run_pending_action();
        } else {
            self.selected_action = None;
            self.pending_name = String::new();
            self.mode = Mode::Browse;
        }
    }

    /// Handles one key.
    pub fn on_key(&mut self, key: Key)
        ensures
            exists|stamp: Seq<char>|
                final(self)@ == key_step(old(self)@, key, stamp) && stamp_fits(
                    old(self).templates(),
                    old(self)@.mode,
                    final(self)@.mode,
                    stamp,
                ),
    {
        let ghost a = self@;
        let ghost tp = self.templates();
        if !key.press {
            assert(self@ == key_step(a, key, Seq::<char>::empty()));
            return;
        }
        match self.mode {
            Mode::Browse => {
                self.on_key_browse(key);
                let ghost st = choose|st: Seq<char>|
                    self@ == browse_step(a, key.code, st) && stamp_fits(tp, a.mode, self@.mode, st);
                assert(self@ == key_step(a, key, st));
            },
            Mode::Search => {
                self.on_key_search(key.code);
                assert(self@ == key_step(a, key, Seq::<char>::empty()));
            },
            Mode::Input(_) => {
                self.on_key_input(key);
                assert(self@ == key_step(a, key, Seq::<char>::empty()));
            },
            Mode::ConfirmDelete => {
                self.on_key_confirm(key.code);
                assert(self@ == key_step(a, key, Seq::<char>::empty()));
            },
            Mode::ActionPick => {
                self.on_key_action_pick(key.code);
                let ghost st = choose|st: Seq<char>|
                    self@ == pick_step(a, key.code, st) && stamp_fits(tp, a.mode, self@.mode, st);
                assert(self@ == key_step(a, key, st));
            },
            Mode::ConfirmAction => {
                self.on_key_confirm_action(key.code);
                assert(self@ == key_step(a, key, Seq::<char>::empty()));
            },
            Mode::Help => {
                self.mode = Mode::Browse;
                assert(self@ == key_step(a, key, Seq::<char>::empty()));
            },
        }
    }

    /// Position among the visible entries of the first one named `name`.
    fn position_named(&self, name: &str) -> (r: Option<usize>)
        ensures
            match r {
                Some(p) => position_named(self@.entries, visible_spec(self@.entries, self@.search), name@) == Some(p as int),
                None => position_named(self@.entries, visible_spec(self@.entries, self@.search), name@) is None,
            },
    {
        let vis = self.visible();
        let ghost vs = visible_spec(self@.entries, self@.search);
        proof {
            lemma_visible_in_range(self@.entries, self@.search);
            assert(vis@.len() == vs.len());
        }
        let mut p: usize = 0;
        while p < vis.len()
            invariant
                p <= vis@.len(),
                vis@.len() == vs.len(),
                vs == visible_spec(self@.entries, self@.search),
                forall|k: int| 0 <= k < vis@.len() ==> vis@[k] as int == #[trigger] vs[k],
                forall|k: int| 0 <= k < vs.len() ==> 0 <= #[trigger] vs[k] < self@.entries.len(),
                position_named(self@.entries, vs.subrange(0, p as int), name@) is None,
            decreases vis.len() - p,
        {
            let i = vis[p];
            assert(vs.subrange(0, p + 1).drop_last() =~= vs.subrange(0, p as int));
            assert(vs.subrange(0, p + 1).last() == vs[p as int]);
            if str_eq(self.entries[i].name.as_str(), name) {
                proof {
                    lemma_position_extends(self@.entries, vs, p + 1, name@);
                }
                return Some(p);
            }
            p = p + 1;
        }
        assert(vs.subrange(0, vs.len() as int) =~= vs);
        None
    }

    fn select_by_name(&mut self, name: &str)
        ensures
            final(self)@ == (match position_named(old(self)@.entries, visible_spec(old(self)@.entries, old(self)@.search), name@) {
                Some(p) => AppV { selected: p, preview_stale: true, ..old(self)@ },
                None => old(self)@,
            }),
    {
        if let Some(p) = self.position_named(name) {
            self.selected = p;
            self.preview_stale = true;
        }
    }

    fn listed(&mut self, raw: Vec<Entry>, select: Option<String>)
        ensures
            final(self)@ == listed_spec(old(self)@, raw@, opt_string(select)),
    {
        self.entries = list(raw);
        let len = self.visible().len();
        if self.selected >= len {
            self.selected = if len > 0 {
                len - 1
            } else {
                0
            };
        }
        self.preview_stale = true;
        self.io = None;
        self.follow_up = FollowUp::Idle;
        if let Some(n) = select {
            self.select_by_name(n.as_str());
        }
    }

    fn fail(&mut self, status: String)
        ensures
            final(self)@ == failed_spec(old(self)@, status@),
    {
        self.status = status;
        self.io = None;
        self.follow_up = FollowUp::Idle;
    }

    /// Takes the driver's answer to the outstanding request.
    pub fn answer(&mut self, reply: Reply)
        ensures
            final(self)@ == answer_step(old(self)@, reply@),
    {
        match reply {
            Reply::Listing(raw) => {
                let select = match &self.follow_up {
                    FollowUp::Refresh { select } => Some(match select {
                        Some(n) => Some(n.clone()),
                        None => None,
                    }),
                    _ => None,
                };
                if let Some(sel) = select {
                    self.listed(raw, sel);
                }
            },
            Reply::Done(outcome) => {
                let follow = self.take_follow_up();
                match follow {
                    FollowUp::Idle => {
                        self.follow_up = FollowUp::Idle;
                    },
                    FollowUp::Refresh { select } => {
                        self.follow_up = FollowUp::Refresh { select };
                    },
                    FollowUp::Delete { name } => {
                        self.status = match outcome {
                            Ok(()) => status_deleted(self.lang, name.as_str()),
                            Err(e) => status_delete_failed(self.lang, e.as_str()),
                        };
                        self.refresh();
                    },
                    FollowUp::NewFile { name, path } => match outcome {
                        Ok(()) => {
                            self.search = String::new();
                            self.pending = Some(Pending::Editor(path));
                            self.request_listing(Some(name));
                        },
                        Err(e) => self.fail(status_create_failed(self.lang, e.as_str())),
                    },
                    FollowUp::NewDir { name } => match outcome {
                        Ok(()) => {
                            self.search = String::new();
                            self.status = status_created_dir(self.lang, name.as_str());
                            self.request_listing(Some(name));
                        },
                        Err(e) => self.fail(status_create_failed(self.lang, e.as_str())),
                    },
                    FollowUp::Rename { name } => match outcome {
                        Ok(()) => self.renamed(name),
                        Err(e) => self.fail(status_rename_failed(self.lang, e.as_str())),
                    },
                    FollowUp::RunAction { name, path, action_name, command } => match outcome {
                        Ok(()) => {
                            self.search = String::new();
                            self.status = status_run_action(self.lang, action_name.as_str());
                            self.pending = Some(Pending::Run { dir: path, root: self.root.clone(), command });
                            self.request_listing(Some(name));
                        },
                        Err(e) => self.fail(status_create_failed(self.lang, e.as_str())),
                    },
                }
            },
        }
    }

    fn take_follow_up(&mut self) -> (r: FollowUp)
        ensures
            r@ == old(self)@.follow_up,
            final(self)@ == (AppV { follow_up: FollowUpV::Idle, ..old(self)@ }),
    {
        let mut r = FollowUp::Idle;
        core::mem::swap(&mut r, &mut self.follow_up);
        r
    }

    /// Indices of the entries that pass the search filter.
    pub fn visible(&self) -> (r: Vec<usize>)
        ensures
            r@.len() == visible_spec(self@.entries, self@.search).len(),
            forall|k: int| 0 <= k < r@.len() ==> r@[k] as int == #[trigger] visible_spec(self@.entries, self@.search)[k],
    {
        let q = to_lowercase(self.search.as_str());
        let qv = chars_of(q.as_str());
        let mut r: Vec<usize> = Vec::new();
        let mut i: usize = 0;
        while i < self.entries.len()
            invariant
                i <= self.entries.len(),
                qv@ == lowercase(self.search@),
                r@.len() == visible_spec(self.entries@.subrange(0, i as int), self.search@).len(),
                forall|k: int| 0 <= k < r@.len() ==> r@[k] as int == #[trigger] visible_spec(self.entries@.subrange(0, i as int), self.search@)[k],
            decreases self.entries.len() - i,
        {
            proof {
                assert(self.entries@.subrange(0, i + 1).drop_last() =~= self.entries@.subrange(0, i as int));
            }
            let n = to_lowercase(self.entries[i].name.as_str());
            let nv = chars_of(n.as_str());
            if has_substring(&nv, &qv) {
                r.push(i);
            }
            i = i + 1;
        }
        proof {
            assert(self.entries@.subrange(0, self.entries@.len() as int) =~= self.entries@);
            assert(self@.entries == self.entries@);
            assert(self@.search == self.search@);
        }
        r
    }

    /// The entry under the cursor.
    pub fn selected_entry(&self) -> (r: Option<&Entry>)
        ensures
            match r {
                Some(e) => selected_of(self@) == Some(*e),
                None => selected_of(self@) is None,
            },
    {
        let vis = self.visible();
        proof {
            lemma_visible_in_range(self@.entries, self@.search);
        }
        if self.selected < vis.len() {
            let i = vis[self.selected];
            assert(i as int == visible_spec(self@.entries, self@.search)[self.selected as int]);
            Some(&self.entries[i])
        } else {
            None
        }
    }
}

/// Every successful creation, rename or action, and every deletion attempt, is followed by a
/// fresh listing of the current directory, so the list shows the change at once.
pub proof fn law_changes_are_listed_again(a: AppV, reply: ReplyV)
    requires
        a.follow_up is Delete || (reply == ReplyV::Done(Ok(())) && (a.follow_up is NewFile
            || a.follow_up is NewDir || a.follow_up is Rename || a.follow_up is RunAction)),
        reply is Done,
    ensures
        answer_step(a, reply).io == Some(RequestV::List { dir: a.cwd }),
{
}

/// A failed creation or rename only reports the error: nothing else is requested, nothing is
/// run and the list stays as it was.
pub proof fn law_failures_only_report(a: AppV, e: Seq<char>)
    requires
        a.follow_up is NewFile || a.follow_up is NewDir || a.follow_up is Rename || a.follow_up is RunAction,
    ensures
        answer_step(a, ReplyV::Done(Err(e))).io is None,
        answer_step(a, ReplyV::Done(Err(e))).pending == a.pending,
        answer_step(a, ReplyV::Done(Err(e))).entries == a.entries,
{
}

/// Without a matching default action, a plain `N` asks for a plain directory name: no action
/// is chosen.
pub proof fn law_plain_new_directory_without_default_action(a: AppV, key: Key, stamp: Seq<char>)
    requires
        a.mode == Mode::Browse,
        key.press,
        key.code == KeyCode::Char('N'),
        default_action_index(a) is None,
    ensures
        key_step(a, key, stamp).selected_action == a.selected_action,
        key_step(a, key, stamp).mode == Mode::Input(InputKind::NewDir),
{
}

/// The cursor is on the list, or at the top of an empty one.
pub open spec fn cursor_on_list(a: AppV) -> bool {
    (0 <= a.selected < visible_count(a)) || (visible_count(a) == 0 && a.selected == 0)
}

/// Moving in the list (`j`, `k`, `g`, `G` and the arrow, Home and End keys) keeps the cursor
/// on the list.
pub proof fn law_moves_keep_cursor_on_list(a: AppV, key: Key, stamp: Seq<char>)
    requires
        a.mode == Mode::Browse,
        key.press,
        cursor_on_list(a),
        is_key(key.code, 'j') || is_key(key.code, 'k') || is_key(key.code, 'g') || is_key(key.code, 'G')
            || key.code == KeyCode::Down || key.code == KeyCode::Up || key.code == KeyCode::Home
            || key.code == KeyCode::End,
    ensures
        cursor_on_list(key_step(a, key, stamp)),
{
}

} // verus!
