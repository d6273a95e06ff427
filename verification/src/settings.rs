//! The configuration screen: the settings it lists, how keys edit them, and the changes it
//! writes back to the configuration file.
use vstd::prelude::*;
use vstd::string::*;

use crate::app::{is_key, Key, KeyCode};
use crate::archive::lemma_digits_prefix_monotone;
use crate::config::{Config, ConfigV};
use crate::i18n::{
    config_item_archive_dir, config_item_archive_keep, config_item_archive_on_startup, config_item_archive_ttl,
    config_item_dir, config_item_editor, config_item_shell, config_source_config, config_source_config_text,
    config_source_default, config_source_default_text, config_source_env, config_source_env_text, ConfigItemHelp,
    status_config_invalid_number, status_config_invalid_number_text, status_config_no_save_path,
    status_config_no_save_path_text, status_config_save_failed, status_config_save_failed_text,
    status_config_saved, status_config_saved_text, status_config_ttl_too_large, status_config_ttl_too_large_text,
    Lang,
};
use crate::scratch::{opt_string, res_view};
use crate::text::{all_digits, chars_of, decimal, decimal_string, digits_value, is_ascii_digit, str_eq, trim, trimmed, without_last};

verus! {

/// How many settings the screen lists: `dir`, `editor`, `shell`, then `archive.ttl_days`,
/// `archive.dir`, `archive.on_startup` and `archive.keep`, in that order.
pub const SETTING_COUNT: usize = 7;

/// Position of `archive.ttl_days` in the list.
pub const TTL_ITEM: usize = 3;

/// Position of `archive.on_startup` in the list.
pub const ON_STARTUP_ITEM: usize = 5;

/// Position of `archive.keep` in the list.
pub const KEEP_ITEM: usize = 6;

/// The values the screen edits, one per setting.
pub struct Draft {
    pub dir: Option<String>,
    pub editor: Option<String>,
    pub shell: Option<String>,
    pub ttl_days: Option<u64>,
    pub archive_dir: Option<String>,
    pub on_startup: bool,
    pub keep: Vec<String>,
}

pub ghost struct DraftV {
    pub dir: Option<Seq<char>>,
    pub editor: Option<Seq<char>>,
    pub shell: Option<Seq<char>>,
    pub ttl_days: Option<u64>,
    pub archive_dir: Option<Seq<char>>,
    pub on_startup: bool,
    pub keep: Seq<Seq<char>>,
}

pub open spec fn strings_view(v: Seq<String>) -> Seq<Seq<char>> {
    v.map_values(|s: String| s@)
}

impl View for Draft {
    type V = DraftV;

    open spec fn view(&self) -> DraftV {
        DraftV {
            dir: opt_string(self.dir),
            editor: opt_string(self.editor),
            shell: opt_string(self.shell),
            ttl_days: self.ttl_days,
            archive_dir: opt_string(self.archive_dir),
            on_startup: self.on_startup,
            keep: strings_view(self.keep@),
        }
    }
}

/// The values a configuration gives the screen.
pub open spec fn draft_of(c: ConfigV) -> DraftV {
    DraftV {
        dir: c.dir,
        editor: c.editor,
        shell: c.shell,
        ttl_days: c.archive.ttl_days,
        archive_dir: c.archive.dir,
        on_startup: c.archive.on_startup,
        keep: c.archive.keep,
    }
}

fn clone_opt(o: &Option<String>) -> (r: Option<String>)
    ensures
        opt_string(r) == opt_string(*o),
{
    match o {
        Some(s) => Some(s.clone()),
        None => None,
    }
}

fn clone_strings(v: &Vec<String>) -> (r: Vec<String>)
    ensures
        strings_view(r@) == strings_view(v@),
{
    let mut r: Vec<String> = Vec::new();
    let mut i: usize = 0;
    while i < v.len()
        invariant
            i <= v@.len(),
            strings_view(r@) == strings_view(v@.subrange(0, i as int)),
        decreases v.len() - i,
    {
        let ghost before = r@;
        r.push(v[i].clone());
        assert(strings_view(r@) =~= strings_view(before).push(v@[i as int]@));
        assert(strings_view(v@.subrange(0, i + 1)) =~= strings_view(v@.subrange(0, i as int)).push(v@[i as int]@));
        i = i + 1;
    }
    assert(v@.subrange(0, v@.len() as int) =~= v@);
    r
}

impl Draft {
    /// The values of a loaded configuration.
    pub fn from_config(c: &Config) -> (r: Draft)
        ensures
            r@ == draft_of(c@),
    {
        Draft {
            dir: clone_opt(&c.dir),
            editor: clone_opt(&c.editor),
            shell: clone_opt(&c.shell),
            ttl_days: c.archive.ttl_days,
            archive_dir: clone_opt(&c.archive.dir),
            on_startup: c.archive.on_startup,
            keep: clone_strings(&c.archive.keep),
        }
    }

    pub fn duplicate(&self) -> (r: Draft)
        ensures
            r@ == self@,
    {
        Draft {
            dir: clone_opt(&self.dir),
            editor: clone_opt(&self.editor),
            shell: clone_opt(&self.shell),
            ttl_days: self.ttl_days,
            archive_dir: clone_opt(&self.archive_dir),
            on_startup: self.on_startup,
            keep: clone_strings(&self.keep),
        }
    }
}

/// The text setting at position `i` (`dir`, `editor`, `shell` or `archive.dir`).
pub open spec fn text_value(d: DraftV, i: int) -> Option<Seq<char>> {
    if i == 0 {
        d.dir
    } else if i == 1 {
        d.editor
    } else if i == 2 {
        d.shell
    } else if i == 4 {
        d.archive_dir
    } else {
        None
    }
}

/// The draft with the text setting at position `i` replaced.
pub open spec fn with_text(d: DraftV, i: int, v: Option<Seq<char>>) -> DraftV {
    if i == 0 {
        DraftV { dir: v, ..d }
    } else if i == 1 {
        DraftV { editor: v, ..d }
    } else if i == 2 {
        DraftV { shell: v, ..d }
    } else if i == 4 {
        DraftV { archive_dir: v, ..d }
    } else {
        d
    }
}

/// What the editor of the setting at position `i` starts with: its value as text, or nothing
/// when it is unset.
pub open spec fn edit_start(d: DraftV, i: int) -> Seq<char> {
    if i == TTL_ITEM {
        match d.ttl_days {
            Some(n) => decimal(n as nat),
            None => Seq::<char>::empty(),
        }
    } else {
        match text_value(d, i) {
            Some(s) => s,
            None => Seq::<char>::empty(),
        }
    }
}

/// What an edit of `archive.ttl_days` means.
pub ghost enum DaysEntry {
    /// Blank: the setting is removed.
    Unset,
    Days(nat),
    /// Not a non-negative whole number.
    Invalid,
    /// So many days that their seconds overflow a `u64`.
    TooLarge,
}

pub open spec fn days_entry(s: Seq<char>) -> DaysEntry {
    let t = trim(s);
    if t.len() == 0 {
        DaysEntry::Unset
    } else if !all_digits(t) {
        DaysEntry::Invalid
    } else if digits_value(t) * 86_400 > u64::MAX {
        DaysEntry::TooLarge
    } else {
        DaysEntry::Days(digits_value(t))
    }
}

/// What the screen is doing.
#[derive(Clone, Copy, PartialEq, Eq, Debug, Structural)]
pub enum SettingsMode {
    /// The list of settings.
    List,
    /// Editing the text of the selected setting.
    Edit,
    /// The list of `archive.keep` patterns.
    Keep,
    /// Editing (or adding) one `archive.keep` pattern.
    KeepEdit,
}

/// The configuration screen. `base` holds the values as last loaded or saved, so that a save
/// writes only what changed since.
pub struct Settings {
    pub lang: Lang,
    pub draft: Draft,
    pub base: Draft,
    /// Whether `$CHIRA_DIR`, `$EDITOR` and `$SHELL` are set: they win over the file.
    pub env_dir: bool,
    pub env_editor: bool,
    pub env_shell: bool,
    /// The configuration file the changes go to, when one resolves.
    pub save_path: Option<String>,
    pub cursor: usize,
    pub mode: SettingsMode,
    pub input: String,
    pub keep_cursor: usize,
    /// The pattern being edited; `None` while a new one is added.
    pub keep_editing: Option<usize>,
    pub status: String,
    /// The screen was left.
    pub closed: bool,
    /// A save the driver must perform: write the changes to this file and call `saved`.
    pub save: Option<String>,
}

pub ghost struct SettingsV {
    pub lang: Lang,
    pub draft: DraftV,
    pub base: DraftV,
    pub env_dir: bool,
    pub env_editor: bool,
    pub env_shell: bool,
    pub save_path: Option<Seq<char>>,
    pub cursor: int,
    pub mode: SettingsMode,
    pub input: Seq<char>,
    pub keep_cursor: int,
    pub keep_editing: Option<int>,
    pub status: Seq<char>,
    pub closed: bool,
    pub save: Option<Seq<char>>,
}

impl View for Settings {
    type V = SettingsV;

    open spec fn view(&self) -> SettingsV {
        SettingsV {
            lang: self.lang,
            draft: self.draft@,
            base: self.base@,
            env_dir: self.env_dir,
            env_editor: self.env_editor,
            env_shell: self.env_shell,
            save_path: opt_string(self.save_path),
            cursor: self.cursor as int,
            mode: self.mode,
            input: self.input@,
            keep_cursor: self.keep_cursor as int,
            keep_editing: match self.keep_editing {
                Some(i) => Some(i as int),
                None => None,
            },
            status: self.status@,
            closed: self.closed,
            save: opt_string(self.save),
        }
    }
}

/// The screen's invariant: the cursors point into their lists (the pattern cursor at 0 when
/// there is none), and a pattern is marked as edited only while its editor is open, and exists.
pub open spec fn settings_wf(s: SettingsV) -> bool {
    &&& 0 <= s.cursor < SETTING_COUNT
    &&& (if s.draft.keep.len() == 0 {
        s.keep_cursor == 0
    } else {
        0 <= s.keep_cursor < s.draft.keep.len()
    })
    &&& (s.keep_editing matches Some(i) ==> 0 <= i < s.draft.keep.len())
    &&& (s.mode != SettingsMode::KeepEdit ==> s.keep_editing is None)
}

/// The screen as it opens on a configuration: the first setting selected, nothing edited.
pub open spec fn opened(lang: Lang, c: ConfigV, env: (bool, bool, bool), save_path: Option<Seq<char>>) -> SettingsV {
    SettingsV {
        lang,
        draft: draft_of(c),
        base: draft_of(c),
        env_dir: env.0,
        env_editor: env.1,
        env_shell: env.2,
        save_path,
        cursor: 0,
        mode: SettingsMode::List,
        input: Seq::<char>::empty(),
        keep_cursor: 0,
        keep_editing: None,
        status: Seq::<char>::empty(),
        closed: false,
        save: None,
    }
}

/// A typing key in an editor: Backspace drops the last character, a character is appended.
pub open spec fn typed(input: Seq<char>, key: Key) -> Seq<char> {
    if key.code == KeyCode::Backspace {
        if input.len() > 0 {
            input.drop_last()
        } else {
            input
        }
    } else if key.code is Char && !key.ctrl {
        input.push(key.code->Char_0)
    } else {
        input
    }
}

/// `archive.on_startup` flipped.
pub open spec fn toggled(s: SettingsV) -> SettingsV {
    SettingsV { draft: DraftV { on_startup: !s.draft.on_startup, ..s.draft }, ..s }
}

/// A key in the list of settings.
pub open spec fn list_step(s: SettingsV, code: KeyCode) -> SettingsV {
    if code == KeyCode::Up || is_key(code, 'k') {
        SettingsV { cursor: if s.cursor > 0 { s.cursor - 1 } else { 0 }, ..s }
    } else if code == KeyCode::Down || is_key(code, 'j') {
        SettingsV { cursor: if s.cursor + 1 < SETTING_COUNT { s.cursor + 1 } else { s.cursor }, ..s }
    } else if code == KeyCode::Enter {
        if s.cursor == ON_STARTUP_ITEM {
            toggled(s)
        } else if s.cursor == KEEP_ITEM {
            SettingsV { mode: SettingsMode::Keep, keep_cursor: 0, status: Seq::<char>::empty(), ..s }
        } else {
            SettingsV {
                mode: SettingsMode::Edit,
                input: edit_start(s.draft, s.cursor),
                status: Seq::<char>::empty(),
                ..s
            }
        }
    } else if is_key(code, ' ') {
        if s.cursor == ON_STARTUP_ITEM {
            toggled(s)
        } else {
            s
        }
    } else if is_key(code, 's') {
        match s.save_path {
            Some(p) => SettingsV { save: Some(p), ..s },
            None => SettingsV { status: status_config_no_save_path_text(s.lang), ..s },
        }
    } else if code == KeyCode::Esc {
        SettingsV { closed: true, ..s }
    } else {
        s
    }
}

/// Enter in the editor of a setting: a blank text unsets it, a text setting takes the trimmed
/// text; `archive.ttl_days` takes a whole number of days, and anything else keeps the editor
/// open with a message.
pub open spec fn commit_edit(s: SettingsV) -> SettingsV {
    let done = SettingsV { mode: SettingsMode::List, input: Seq::<char>::empty(), status: Seq::<char>::empty(), ..s };
    if s.cursor == TTL_ITEM {
        match days_entry(s.input) {
            DaysEntry::Unset => SettingsV { draft: DraftV { ttl_days: None, ..s.draft }, ..done },
            DaysEntry::Days(n) => SettingsV { draft: DraftV { ttl_days: Some(n as u64), ..s.draft }, ..done },
            DaysEntry::Invalid => SettingsV { status: status_config_invalid_number_text(s.lang), ..s },
            DaysEntry::TooLarge => SettingsV { status: status_config_ttl_too_large_text(s.lang), ..s },
        }
    } else {
        let t = trim(s.input);
        SettingsV {
            draft: with_text(s.draft, s.cursor, if t.len() == 0 { None } else { Some(t) }),
            ..done
        }
    }
}

/// A key in the editor of a setting.
pub open spec fn edit_step(s: SettingsV, key: Key) -> SettingsV {
    if key.code == KeyCode::Esc {
        SettingsV { mode: SettingsMode::List, input: Seq::<char>::empty(), status: Seq::<char>::empty(), ..s }
    } else if key.code == KeyCode::Enter {
        commit_edit(s)
    } else {
        SettingsV { input: typed(s.input, key), ..s }
    }
}

/// The pattern cursor after the pattern under it was removed from a list that now has `len`.
pub open spec fn cursor_after_removal(k: int, len: int) -> int {
    if k < len {
        k
    } else if len > 0 {
        len - 1
    } else {
        0
    }
}

/// A key in the list of `archive.keep` patterns.
pub open spec fn keep_step(s: SettingsV, code: KeyCode) -> SettingsV {
    let len = s.draft.keep.len();
    let k = s.keep_cursor;
    if code == KeyCode::Up || is_key(code, 'k') {
        SettingsV { keep_cursor: if k > 0 { k - 1 } else { 0 }, ..s }
    } else if code == KeyCode::Down || is_key(code, 'j') {
        SettingsV { keep_cursor: if k + 1 < len { k + 1 } else { k }, ..s }
    } else if is_key(code, 'a') {
        SettingsV {
            mode: SettingsMode::KeepEdit,
            keep_editing: None,
            input: Seq::<char>::empty(),
            status: Seq::<char>::empty(),
            ..s
        }
    } else if is_key(code, 'd') {
        if k < len {
            let rest = s.draft.keep.remove(k);
            SettingsV {
                draft: DraftV { keep: rest, ..s.draft },
                keep_cursor: cursor_after_removal(k, rest.len() as int),
                ..s
            }
        } else {
            s
        }
    } else if code == KeyCode::Enter {
        if k < len {
            SettingsV {
                mode: SettingsMode::KeepEdit,
                keep_editing: Some(k),
                input: s.draft.keep[k],
                status: Seq::<char>::empty(),
                ..s
            }
        } else {
            s
        }
    } else if code == KeyCode::Esc {
        SettingsV { mode: SettingsMode::List, ..s }
    } else {
        s
    }
}

/// Enter in the editor of a pattern: a blank text changes nothing; otherwise the trimmed text
/// replaces the edited pattern, or is added at the end (and selected).
pub open spec fn commit_keep(s: SettingsV) -> SettingsV {
    let t = trim(s.input);
    let back = SettingsV { mode: SettingsMode::Keep, input: Seq::<char>::empty(), keep_editing: None, ..s };
    if t.len() == 0 {
        back
    } else {
        match s.keep_editing {
            Some(i) => SettingsV { draft: DraftV { keep: s.draft.keep.update(i, t), ..s.draft }, ..back },
            None => SettingsV {
                draft: DraftV { keep: s.draft.keep.push(t), ..s.draft },
                keep_cursor: s.draft.keep.len() as int,
                ..back
            },
        }
    }
}

/// A key in the editor of a pattern.
pub open spec fn keep_edit_step(s: SettingsV, key: Key) -> SettingsV {
    if key.code == KeyCode::Esc {
        SettingsV { mode: SettingsMode::Keep, input: Seq::<char>::empty(), keep_editing: None, ..s }
    } else if key.code == KeyCode::Enter {
        commit_keep(s)
    } else {
        SettingsV { input: typed(s.input, key), ..s }
    }
}

/// What a key does on the screen; releases and repeats do nothing.
pub open spec fn settings_step(s: SettingsV, key: Key) -> SettingsV {
    if !key.press {
        s
    } else {
        match s.mode {
            SettingsMode::List => list_step(s, key.code),
            SettingsMode::Edit => edit_step(s, key),
            SettingsMode::Keep => keep_step(s, key.code),
            SettingsMode::KeepEdit => keep_edit_step(s, key),
        }
    }
}

/// What the outcome of a save does: on success the saved values become the base and the
/// message names the file; on failure the message gives the reason.
pub open spec fn saved_step(s: SettingsV, r: Result<(), Seq<char>>) -> SettingsV {
    match s.save {
        Some(p) => match r {
            Ok(()) => SettingsV { save: None, base: s.draft, status: status_config_saved_text(s.lang, p), ..s },
            Err(e) => SettingsV { save: None, status: status_config_save_failed_text(s.lang, e), ..s },
        },
        None => s,
    }
}

proof fn lemma_step_keeps_wf(s: SettingsV, key: Key)
    requires
        settings_wf(s),
    ensures
        settings_wf(settings_step(s, key)),
{
    if key.press {
        if s.mode == SettingsMode::List {
            assert(settings_wf(list_step(s, key.code)));
        } else if s.mode == SettingsMode::Edit {
            assert(settings_wf(edit_step(s, key)));
        } else if s.mode == SettingsMode::Keep {
            assert(settings_wf(keep_step(s, key.code)));
        } else {
            assert(settings_wf(keep_edit_step(s, key)));
        }
    }
}

/// An edit of `archive.ttl_days`, read.
pub enum DaysParse {
    Unset,
    Days(u64),
    Invalid,
    TooLarge,
}

/// Reads an edit of `archive.ttl_days` (surrounding whitespace ignored).
pub fn parse_days(s: &str) -> (r: DaysParse)
    ensures
        match r {
            DaysParse::Unset => days_entry(s@) == DaysEntry::Unset,
            DaysParse::Days(n) => days_entry(s@) == DaysEntry::Days(n as nat),
            DaysParse::Invalid => days_entry(s@) == DaysEntry::Invalid,
            DaysParse::TooLarge => days_entry(s@) == DaysEntry::TooLarge,
        },
{
    let t = trimmed(s);
    let v = chars_of(t.as_str());
    if v.len() == 0 {
        return DaysParse::Unset;
    }
    let mut k: usize = 0;
    let mut n: u64 = 0;
    let mut overflow = false;
    while k < v.len()
        invariant
            k <= v@.len(),
            v@ == trim(s@),
            forall|i: int| 0 <= i < k ==> is_ascii_digit(#[trigger] v@[i]),
            !overflow ==> n as nat == digits_value(v@.subrange(0, k as int)),
            overflow ==> digits_value(v@.subrange(0, k as int)) > u64::MAX,
        decreases v.len() - k,
    {
        if !('0' <= v[k] && v[k] <= '9') {
            assert(!is_ascii_digit(v@[k as int]));
            return DaysParse::Invalid;
        }
        let d: u64 = ((v[k] as u32) - 48) as u64;
        proof {
            assert(v@.subrange(0, k + 1).drop_last() =~= v@.subrange(0, k as int));
            lemma_digits_prefix_monotone(v@, k as int, k + 1);
        }
        if !overflow {
            if n > (u64::MAX - d) / 10 {
                overflow = true;
            } else {
                n = n * 10 + d;
            }
        }
        k = k + 1;
    }
    assert(v@.subrange(0, v@.len() as int) =~= v@);
    assert(all_digits(v@));
    if overflow || n > u64::MAX / 86_400 {
        DaysParse::TooLarge
    } else {
        DaysParse::Days(n)
    }
}

impl Draft {
    fn set_text(&mut self, i: usize, v: Option<String>)
        ensures
            final(self)@ == with_text(old(self)@, i as int, opt_string(v)),
    {
        if i == 0 {
            self.dir = v;
        } else if i == 1 {
            self.editor = v;
        } else if i == 2 {
            self.shell = v;
        } else if i == 4 {
            self.archive_dir = v;
        }
    }

    fn text_at(&self, i: usize) -> (r: String)
        ensures
            r@ == edit_start(self@, i as int),
    {
        if i == TTL_ITEM {
            match self.ttl_days {
                Some(n) => decimal_string(n),
                None => String::new(),
            }
        } else {
            let v = if i == 0 {
                &self.dir
            } else if i == 1 {
                &self.editor
            } else if i == 2 {
                &self.shell
            } else if i == 4 {
                &self.archive_dir
            } else {
                return String::new();
            };
            match v {
                Some(s) => s.clone(),
                None => String::new(),
            }
        }
    }
}

impl Settings {
    pub closed spec fn wf(&self) -> bool {
        settings_wf(self@)
    }

    /// The screen on the loaded configuration. `env` tells which of `$CHIRA_DIR`, `$EDITOR`
    /// and `$SHELL` are set; `save_path` is where the configuration file is.
    pub fn open(lang: Lang, config: &Config, env: (bool, bool, bool), save_path: Option<String>) -> (r: Settings)
        ensures
            r.wf(),
            r@ == opened(lang, config@, env, opt_string(save_path)),
    {
        let draft = Draft::from_config(config);
        let base = draft.duplicate();
        let r = Settings {
            lang,
            draft,
            base,
            env_dir: env.0,
            env_editor: env.1,
            env_shell: env.2,
            save_path,
            cursor: 0,
            mode: SettingsMode::List,
            input: String::new(),
            keep_cursor: 0,
            keep_editing: None,
            status: String::new(),
            closed: false,
            save: None,
        };
        assert(r@ == opened(lang, config@, env, opt_string(r.save_path)));
        r
    }

    fn type_key(&mut self, key: Key)
        ensures
            final(self)@ == (SettingsV { input: typed(old(self)@.input, key), ..old(self)@ }),
    {
        if key.code == KeyCode::Backspace {
            self.input = without_last(self.input.as_str());
        } else if let KeyCode::Char(c) = key.code {
            if !key.ctrl {
                self.input.push(c);
            }
        }
    }

    fn on_list_key(&mut self, code: KeyCode)
        requires
            old(self).wf(),
        ensures
            final(self)@ == list_step(old(self)@, code),
    {
        if code == KeyCode::Up || code == KeyCode::Char('k') {
            if self.cursor > 0 {
                self.cursor = self.cursor - 1;
            }
        } else if code == KeyCode::Down || code == KeyCode::Char('j') {
            if self.cursor + 1 < SETTING_COUNT {
                self.cursor = self.cursor + 1;
            }
        } else if code == KeyCode::Enter {
            if self.cursor == ON_STARTUP_ITEM {
                self.draft.on_startup = !self.draft.on_startup;
            } else if self.cursor == KEEP_ITEM {
                self.mode = SettingsMode::Keep;
                self.keep_cursor = 0;
                self.status = String::new();
            } else {
                self.input = self.draft.text_at(self.cursor);
                self.mode = SettingsMode::Edit;
                self.status = String::new();
            }
        } else if code == KeyCode::Char(' ') {
            if self.cursor == ON_STARTUP_ITEM {
                self.draft.on_startup = !self.draft.on_startup;
            }
        } else if code == KeyCode::Char('s') {
            match &self.save_path {
                Some(p) => {
                    self.save = Some(p.clone());
                },
                None => {
                    self.status = status_config_no_save_path(self.lang).to_string();
                },
            }
        } else if code == KeyCode::Esc {
            self.closed = true;
        }
    }

    fn commit_edit(&mut self)
        requires
            old(self).wf(),
        ensures
            final(self)@ == commit_edit(old(self)@),
    {
        if self.cursor == TTL_ITEM {
            match parse_days(self.input.as_str()) {
                DaysParse::Unset => {
                    self.draft.ttl_days = None;
                    self.mode = SettingsMode::List;
                    self.input = String::new();
                    self.status = String::new();
                },
                DaysParse::Days(n) => {
                    self.draft.ttl_days = Some(n);
                    self.mode = SettingsMode::List;
                    self.input = String::new();
                    self.status = String::new();
                },
                DaysParse::Invalid => {
                    self.status = status_config_invalid_number(self.lang).to_string();
                },
                DaysParse::TooLarge => {
                    self.status = status_config_ttl_too_large(self.lang).to_string();
                },
            }
        } else {
            let t = trimmed(self.input.as_str());
            let v = if t.unicode_len() == 0 {
                None
            } else {
                Some(t)
            };
            self.draft.set_text(self.cursor, v);
            self.mode = SettingsMode::List;
            self.input = String::new();
            self.status = String::new();
        }
    }

    fn on_keep_key(&mut self, code: KeyCode)
        requires
            old(self).wf(),
        ensures
            final(self)@ == keep_step(old(self)@, code),
    {
        let len = self.draft.keep.len();
        let k = self.keep_cursor;
        if code == KeyCode::Up || code == KeyCode::Char('k') {
            if k > 0 {
                self.keep_cursor = k - 1;
            }
        } else if code == KeyCode::Down || code == KeyCode::Char('j') {
            if k + 1 < len {
                self.keep_cursor = k + 1;
            }
        } else if code == KeyCode::Char('a') {
            self.mode = SettingsMode::KeepEdit;
            self.keep_editing = None;
            self.input = String::new();
            self.status = String::new();
        } else if code == KeyCode::Char('d') {
            if k < len {
                let ghost before = self.draft.keep@;
                self.draft.keep.remove(k);
                assert(strings_view(self.draft.keep@) =~= strings_view(before).remove(k as int));
                let rest = self.draft.keep.len();
                self.keep_cursor = if k < rest {
                    k
                } else if rest > 0 {
                    rest - 1
                } else {
                    0
                };
            }
        } else if code == KeyCode::Enter {
            if k < len {
                self.input = self.draft.keep[k].clone();
                self.mode = SettingsMode::KeepEdit;
                self.keep_editing = Some(k);
                self.status = String::new();
            }
        } else if code == KeyCode::Esc {
            self.mode = SettingsMode::List;
        }
    }

    fn commit_keep(&mut self)
        requires
            old(self).wf(),
        ensures
            final(self)@ == commit_keep(old(self)@),
    {
        let t = trimmed(self.input.as_str());
        if t.unicode_len() > 0 {
            let ghost before = self.draft.keep@;
            match self.keep_editing {
                Some(i) => {
                    self.draft.keep.set(i, t);
                    assert(strings_view(self.draft.keep@) =~= strings_view(before).update(i as int, trim(old(self)@.input)));
                },
                None => {
                    self.keep_cursor = self.draft.keep.len();
                    self.draft.keep.push(t);
                    assert(strings_view(self.draft.keep@) =~= strings_view(before).push(trim(old(self)@.input)));
                },
            }
        }
        self.mode = SettingsMode::Keep;
        self.input = String::new();
        self.keep_editing = None;
    }

    /// Takes a key.
    pub fn on_key(&mut self, key: Key)
        requires
            old(self).wf(),
        ensures
            final(self).wf(),
            final(self)@ == settings_step(old(self)@, key),
    {
        proof {
            lemma_step_keeps_wf(self@, key);
        }
        if !key.press {
            return;
        }
        match self.mode {
            SettingsMode::List => self.on_list_key(key.code),
            SettingsMode::Edit => {
                if key.code == KeyCode::Esc {
                    self.mode = SettingsMode::List;
                    self.input = String::new();
                    self.status = String::new();
                } else if key.code == KeyCode::Enter {
                    self.commit_edit();
                } else {
                    self.type_key(key);
                }
            },
            SettingsMode::Keep => self.on_keep_key(key.code),
            SettingsMode::KeepEdit => {
                if key.code == KeyCode::Esc {
                    self.mode = SettingsMode::Keep;
                    self.input = String::new();
                    self.keep_editing = None;
                } else if key.code == KeyCode::Enter {
                    self.commit_keep();
                } else {
                    self.type_key(key);
                }
            },
        }
    }

    /// Takes the outcome of the save the screen asked for.
    pub fn saved(&mut self, r: Result<(), String>)
        requires
            old(self).wf(),
        ensures
            final(self).wf(),
            final(self)@ == saved_step(old(self)@, match r {
                Ok(()) => Ok(()),
                Err(e) => Err(e@),
            }),
    {
        if let Some(p) = &self.save {
            let status = match &r {
                Ok(()) => status_config_saved(self.lang, p.as_str()),
                Err(e) => status_config_save_failed(self.lang, e.as_str()),
            };
            if r.is_ok() {
                self.base = self.draft.duplicate();
            }
            self.status = status;
            self.save = None;
        }
    }
}

/// A value written to the configuration file.
pub enum SettingValue {
    Text(String),
    Whole(u64),
    Flag(bool),
    Texts(Vec<String>),
}

pub ghost enum SettingValueV {
    Text(Seq<char>),
    Whole(u64),
    Flag(bool),
    Texts(Seq<Seq<char>>),
}

impl View for SettingValue {
    type V = SettingValueV;

    open spec fn view(&self) -> SettingValueV {
        match self {
            SettingValue::Text(s) => SettingValueV::Text(s@),
            SettingValue::Whole(n) => SettingValueV::Whole(*n),
            SettingValue::Flag(b) => SettingValueV::Flag(*b),
            SettingValue::Texts(v) => SettingValueV::Texts(strings_view(v@)),
        }
    }
}

/// What toml_edit makes of `text` with the top-level `key` set to `value` and printed again, or
/// its error when the text is not valid TOML.
pub uninterp spec fn toml_set_root(text: Seq<char>, key: Seq<char>, value: SettingValueV) -> Result<Seq<char>, Seq<char>>;

/// What toml_edit makes of `text` with `key` set to `value` in the table `section` (created
/// when missing); `None` when `section` holds something other than a table.
pub uninterp spec fn toml_set_in(text: Seq<char>, section: Seq<char>, key: Seq<char>, value: SettingValueV) -> Result<Option<Seq<char>>, Seq<char>>;

/// What toml_edit makes of `text` without the top-level `key`.
pub uninterp spec fn toml_remove_root(text: Seq<char>, key: Seq<char>) -> Result<Seq<char>, Seq<char>>;

/// What toml_edit makes of `text` without `key` in the table `section`.
pub uninterp spec fn toml_remove_in(text: Seq<char>, section: Seq<char>, key: Seq<char>) -> Result<Seq<char>, Seq<char>>;

/// toml_edit's `Item`, carried from the conversion below into the wrappers.
#[verifier::external_type_specification]
#[verifier::external_body]
pub struct ExTomlEditItem(toml_edit::Item);

/// A value TOML can hold: a whole number must fit an `i64`.
pub open spec fn value_fits(v: SettingValueV) -> bool {
    v matches SettingValueV::Whole(n) ==> n <= i64::MAX
}

/// Converts a value into a toml_edit item: a string, an integer, a boolean or an array of
/// strings. Nothing is stated of it: the wrappers below name their results as a whole.
#[verifier::external_body]
fn edit_item(v: &SettingValue) -> toml_edit::Item
    requires
        value_fits(v@),
{
    match v {
        SettingValue::Text(s) => toml_edit::value(s.as_str()),
        SettingValue::Whole(n) => toml_edit::value(*n as i64),
        SettingValue::Flag(b) => toml_edit::value(*b),
        SettingValue::Texts(items) => toml_edit::value(items.iter().map(|s| s.as_str()).collect::<toml_edit::Array>()),
    }
}

/// toml_edit: parses `text` as a `DocumentMut`, assigns `doc[key]` (an existing entry keeps its
/// key, place and the comments before it; a new one comes after the others) and prints the
/// document; the parse error's text otherwise. The contract names the result as a function of
/// the arguments.
#[verifier::external_body]
fn set_root(text: &str, key: &str, value: &SettingValue) -> (r: Result<String, String>)
    requires
        value_fits(value@),
    ensures
        res_view(r) == toml_set_root(text@, key@, value@),
{
    let mut doc = text.parse::<toml_edit::DocumentMut>().map_err(|e| e.to_string())?;
    doc[key] = edit_item(value);
    Ok(doc.to_string())
}

/// toml_edit: parses `text`, takes the table `section` (inserting an empty one when missing),
/// assigns its entry `key` as `doc[key]` does and prints the document; `None` when `section`
/// is not a table.
#[verifier::external_body]
fn set_in(text: &str, section: &str, key: &str, value: &SettingValue) -> (r: Result<Option<String>, String>)
    requires
        value_fits(value@),
    ensures
        match r {
            Ok(Some(t)) => toml_set_in(text@, section@, key@, value@) == Ok::<Option<Seq<char>>, Seq<char>>(Some(t@)),
            Ok(None) => toml_set_in(text@, section@, key@, value@) == Ok::<Option<Seq<char>>, Seq<char>>(None),
            Err(e) => toml_set_in(text@, section@, key@, value@) == Err::<Option<Seq<char>>, Seq<char>>(e@),
        },
{
    let mut doc = text.parse::<toml_edit::DocumentMut>().map_err(|e| e.to_string())?;
    match doc.entry(section).or_insert(toml_edit::table()).as_table_like_mut() {
        Some(t) => {
            *t.entry(key).or_insert(toml_edit::Item::None) = edit_item(value);
        },
        None => return Ok(None),
    }
    Ok(Some(doc.to_string()))
}

/// toml_edit: parses `text`, removes the top-level `key` and prints the document.
#[verifier::external_body]
fn remove_root(text: &str, key: &str) -> (r: Result<String, String>)
    ensures
        res_view(r) == toml_remove_root(text@, key@),
{
    let mut doc = text.parse::<toml_edit::DocumentMut>().map_err(|e| e.to_string())?;
    doc.remove(key);
    Ok(doc.to_string())
}

/// toml_edit: parses `text`, removes `key` from the table `section` when there is one, and
/// prints the document.
#[verifier::external_body]
fn remove_in(text: &str, section: &str, key: &str) -> (r: Result<String, String>)
    ensures
        res_view(r) == toml_remove_in(text@, section@, key@),
{
    let mut doc = text.parse::<toml_edit::DocumentMut>().map_err(|e| e.to_string())?;
    if let Some(item) = doc.get_mut(section) {
        if let Some(t) = item.as_table_like_mut() {
            t.remove(key);
        }
    }
    Ok(doc.to_string())
}

/// One change to the configuration file: `key` at the top level or in `[archive]`, set to a
/// value or removed.
pub struct Change {
    pub archive: bool,
    pub key: &'static str,
    pub value: Option<SettingValue>,
}

pub ghost struct ChangeV {
    pub archive: bool,
    pub key: Seq<char>,
    pub value: Option<SettingValueV>,
}

impl View for Change {
    type V = ChangeV;

    open spec fn view(&self) -> ChangeV {
        ChangeV {
            archive: self.archive,
            key: self.key@,
            value: match self.value {
                Some(v) => Some(v@),
                None => None,
            },
        }
    }
}

pub open spec fn changes_view(v: Seq<Change>) -> Seq<ChangeV> {
    v.map_values(|c: Change| c@)
}

/// The message of a save into an `archive` entry that is not a table.
pub open spec fn not_a_table_text() -> Seq<char> {
    "`archive` is not a table"@
}

/// The message of a save of a whole number TOML cannot hold.
pub open spec fn too_large_text() -> Seq<char> {
    "a number too large for TOML"@
}

/// The file's text after one change.
pub open spec fn apply_change(text: Seq<char>, c: ChangeV) -> Result<Seq<char>, Seq<char>> {
    if c.value matches Some(v) && !value_fits(v) {
        Err(too_large_text())
    } else if c.archive {
        match c.value {
            Some(v) => match toml_set_in(text, "archive"@, c.key, v) {
                Ok(Some(t)) => Ok(t),
                Ok(None) => Err(not_a_table_text()),
                Err(e) => Err(e),
            },
            None => toml_remove_in(text, "archive"@, c.key),
        }
    } else {
        match c.value {
            Some(v) => toml_set_root(text, c.key, v),
            None => toml_remove_root(text, c.key),
        }
    }
}

/// The file's text after the changes, in order; the first failure stops them.
pub open spec fn apply_changes(text: Seq<char>, cs: Seq<ChangeV>) -> Result<Seq<char>, Seq<char>>
    decreases cs.len(),
{
    if cs.len() == 0 {
        Ok(text)
    } else {
        match apply_changes(text, cs.drop_last()) {
            Ok(t) => apply_change(t, cs.last()),
            Err(e) => Err(e),
        }
    }
}

/// The change of a text setting, when it changed.
pub open spec fn text_change(archive: bool, key: Seq<char>, old: Option<Seq<char>>, new: Option<Seq<char>>) -> Seq<ChangeV> {
    if old == new {
        Seq::<ChangeV>::empty()
    } else {
        seq![ChangeV {
            archive,
            key,
            value: match new {
                Some(s) => Some(SettingValueV::Text(s)),
                None => None,
            },
        }]
    }
}

/// What a save writes: each setting that differs from `base`, in the order of the list; an unset
/// setting is removed from the file.
pub open spec fn changes(base: DraftV, d: DraftV) -> Seq<ChangeV> {
    text_change(false, "dir"@, base.dir, d.dir) + text_change(false, "editor"@, base.editor, d.editor) + text_change(
        false,
        "shell"@,
        base.shell,
        d.shell,
    ) + (if base.ttl_days == d.ttl_days {
        Seq::<ChangeV>::empty()
    } else {
        seq![ChangeV {
            archive: true,
            key: "ttl_days"@,
            value: match d.ttl_days {
                Some(n) => Some(SettingValueV::Whole(n)),
                None => None,
            },
        }]
    }) + text_change(true, "dir"@, base.archive_dir, d.archive_dir) + (if base.on_startup == d.on_startup {
        Seq::<ChangeV>::empty()
    } else {
        seq![ChangeV { archive: true, key: "on_startup"@, value: Some(SettingValueV::Flag(d.on_startup)) }]
    }) + (if base.keep == d.keep {
        Seq::<ChangeV>::empty()
    } else {
        seq![ChangeV { archive: true, key: "keep"@, value: Some(SettingValueV::Texts(d.keep)) }]
    })
}

fn opt_eq(a: &Option<String>, b: &Option<String>) -> (r: bool)
    ensures
        r == (opt_string(*a) == opt_string(*b)),
{
    match (a, b) {
        (Some(x), Some(y)) => str_eq(x.as_str(), y.as_str()),
        (None, None) => true,
        _ => false,
    }
}

fn strings_eq(a: &Vec<String>, b: &Vec<String>) -> (r: bool)
    ensures
        r == (strings_view(a@) == strings_view(b@)),
{
    if a.len() != b.len() {
        assert(strings_view(a@).len() != strings_view(b@).len());
        return false;
    }
    let mut i: usize = 0;
    while i < a.len()
        invariant
            i <= a@.len(),
            a@.len() == b@.len(),
            forall|j: int| 0 <= j < i ==> a@[j]@ == b@[j]@,
        decreases a.len() - i,
    {
        if !str_eq(a[i].as_str(), b[i].as_str()) {
            assert(strings_view(a@)[i as int] != strings_view(b@)[i as int]);
            return false;
        }
        i = i + 1;
    }
    assert(strings_view(a@) =~= strings_view(b@));
    true
}

fn push_text_change(out: &mut Vec<Change>, archive: bool, key: &'static str, was: &Option<String>, now: &Option<String>)
    ensures
        changes_view(final(out)@) == changes_view(old(out)@) + text_change(archive, key@, opt_string(*was), opt_string(*now)),
{
    let ghost before = changes_view(out@);
    if !opt_eq(was, now) {
        let value = match now {
            Some(s) => Some(SettingValue::Text(s.clone())),
            None => None,
        };
        out.push(Change { archive, key, value });
        assert(changes_view(out@) =~= before + text_change(archive, key@, opt_string(*was), opt_string(*now)));
    } else {
        assert(before + text_change(archive, key@, opt_string(*was), opt_string(*now)) =~= before);
    }
}

/// The changes a save writes.
pub fn changes_between(base: &Draft, d: &Draft) -> (r: Vec<Change>)
    ensures
        changes_view(r@) == changes(base@, d@),
{
    let mut out: Vec<Change> = Vec::new();
    assert(changes_view(out@) =~= Seq::<ChangeV>::empty());
    push_text_change(&mut out, false, "dir", &base.dir, &d.dir);
    push_text_change(&mut out, false, "editor", &base.editor, &d.editor);
    push_text_change(&mut out, false, "shell", &base.shell, &d.shell);
    let ghost before = changes_view(out@);
    if base.ttl_days != d.ttl_days {
        let value = match d.ttl_days {
            Some(n) => Some(SettingValue::Whole(n)),
            None => None,
        };
        out.push(Change { archive: true, key: "ttl_days", value });
    }
    let ghost ttl_part = if base@.ttl_days == d@.ttl_days {
        Seq::<ChangeV>::empty()
    } else {
        seq![ChangeV {
            archive: true,
            key: "ttl_days"@,
            value: match d@.ttl_days {
                Some(n) => Some(SettingValueV::Whole(n)),
                None => None,
            },
        }]
    };
    assert(changes_view(out@) =~= before + ttl_part);
    push_text_change(&mut out, true, "dir", &base.archive_dir, &d.archive_dir);
    let ghost before2 = changes_view(out@);
    if base.on_startup != d.on_startup {
        out.push(Change { archive: true, key: "on_startup", value: Some(SettingValue::Flag(d.on_startup)) });
    }
    let ghost flag_part = if base@.on_startup == d@.on_startup {
        Seq::<ChangeV>::empty()
    } else {
        seq![ChangeV { archive: true, key: "on_startup"@, value: Some(SettingValueV::Flag(d@.on_startup)) }]
    };
    assert(changes_view(out@) =~= before2 + flag_part);
    let ghost before3 = changes_view(out@);
    if !strings_eq(&base.keep, &d.keep) {
        out.push(Change { archive: true, key: "keep", value: Some(SettingValue::Texts(clone_strings(&d.keep))) });
    }
    let ghost keep_part = if base@.keep == d@.keep {
        Seq::<ChangeV>::empty()
    } else {
        seq![ChangeV { archive: true, key: "keep"@, value: Some(SettingValueV::Texts(d@.keep)) }]
    };
    assert(changes_view(out@) =~= before3 + keep_part);
    proof {
        reveal_strlit("dir");
        reveal_strlit("editor");
        reveal_strlit("shell");
        reveal_strlit("ttl_days");
        reveal_strlit("on_startup");
        reveal_strlit("keep");
    }
    assert(changes_view(out@) =~= changes(base@, d@));
    out
}

fn apply_one(text: &str, c: &Change) -> (r: Result<String, String>)
    ensures
        res_view(r) == apply_change(text@, c@),
{
    proof {
        reveal_strlit("archive");
    }
    if let Some(SettingValue::Whole(n)) = &c.value {
        if *n > 9223372036854775807u64 {
            proof {
                reveal_strlit("a number too large for TOML");
            }
            return Err("a number too large for TOML".to_string());
        }
    }
    match &c.value {
        Some(v) => if c.archive {
            match set_in(text, "archive", c.key, v) {
                Ok(Some(t)) => Ok(t),
                Ok(None) => {
                    proof {
                        reveal_strlit("`archive` is not a table");
                    }
                    Err("`archive` is not a table".to_string())
                },
                Err(e) => Err(e),
            }
        } else {
            set_root(text, c.key, v)
        },
        None => if c.archive {
            remove_in(text, "archive", c.key)
        } else {
            remove_root(text, c.key)
        },
    }
}

/// The configuration file's text with the changes applied in order (toml_edit keeps the
/// formatting and comments of everything else), or the first error.
pub fn apply_all(text: &str, cs: &Vec<Change>) -> (r: Result<String, String>)
    ensures
        res_view(r) == apply_changes(text@, changes_view(cs@)),
{
    let mut cur = text.to_string();
    let mut i: usize = 0;
    let ghost all = changes_view(cs@);
    assert(all.subrange(0, 0) =~= Seq::<ChangeV>::empty());
    while i < cs.len()
        invariant
            i <= cs@.len(),
            all == changes_view(cs@),
            apply_changes(text@, all.subrange(0, i as int)) == Ok::<Seq<char>, Seq<char>>(cur@),
        decreases cs.len() - i,
    {
        assert(all.subrange(0, i + 1).drop_last() =~= all.subrange(0, i as int));
        assert(all.subrange(0, i + 1).last() == cs@[i as int]@);
        match apply_one(cur.as_str(), &cs[i]) {
            Ok(t) => {
                cur = t;
            },
            Err(e) => {
                proof {
                    lemma_failure_stays(text@, all, i as int + 1);
                }
                return Err(e);
            },
        }
        i = i + 1;
    }
    assert(all.subrange(0, cs@.len() as int) =~= all);
    Ok(cur)
}

proof fn lemma_failure_stays(text: Seq<char>, cs: Seq<ChangeV>, k: int)
    requires
        0 <= k <= cs.len(),
        apply_changes(text, cs.subrange(0, k)) is Err,
    ensures
        apply_changes(text, cs) == apply_changes(text, cs.subrange(0, k)),
    decreases cs.len() - k,
{
    if k < cs.len() {
        assert(cs.subrange(0, k + 1).drop_last() =~= cs.subrange(0, k));
        lemma_failure_stays(text, cs, k + 1);
    } else {
        assert(cs.subrange(0, k) =~= cs);
    }
}

impl Settings {
    /// The configuration file's new text: `text` (its current contents; empty when there is
    /// none) with every setting changed since the last load or save written in, or the error.
    pub fn file_text(&self, text: &str) -> (r: Result<String, String>)
        ensures
            res_view(r) == apply_changes(text@, changes(self@.base, self@.draft)),
    {
        let cs = changes_between(&self.base, &self.draft);
        apply_all(text, &cs)
    }
}

/// A save without changes leaves the file's text as it is.
pub proof fn law_unchanged_settings_leave_the_file_alone(text: Seq<char>, d: DraftV)
    ensures
        apply_changes(text, changes(d, d)) == Ok::<Seq<char>, Seq<char>>(text),
{
    assert(changes(d, d) =~= Seq::<ChangeV>::empty());
}

/// The name of the setting at position `i`, as the file and the screen write it.
pub open spec fn item_label(i: int) -> Seq<char> {
    if i == 0 {
        "dir"@
    } else if i == 1 {
        "editor"@
    } else if i == 2 {
        "shell"@
    } else if i == 3 {
        "archive.ttl_days"@
    } else if i == 4 {
        "archive.dir"@
    } else if i == 5 {
        "archive.on_startup"@
    } else {
        "archive.keep"@
    }
}

/// The environment variable that wins over the setting at position `i`, if any.
pub open spec fn env_var_of(i: int) -> Option<Seq<char>> {
    if i == 0 {
        Some("CHIRA_DIR"@)
    } else if i == 1 {
        Some("EDITOR"@)
    } else if i == 2 {
        Some("SHELL"@)
    } else {
        None
    }
}

/// Whether the environment overrides the setting at position `i`.
pub open spec fn env_overrides(s: SettingsV, i: int) -> bool {
    (i == 0 && s.env_dir) || (i == 1 && s.env_editor) || (i == 2 && s.env_shell)
}

/// The patterns joined by `, `.
pub open spec fn joined(v: Seq<Seq<char>>) -> Seq<char>
    decreases v.len(),
{
    if v.len() == 0 {
        Seq::<char>::empty()
    } else if v.len() == 1 {
        v[0]
    } else {
        joined(v.drop_last()) + ", "@ + v.last()
    }
}

/// How the screen shows the value of the setting at position `i`: the text, the number of
/// days, `true`/`false`, or the patterns separated by `, `; nothing when unset.
pub open spec fn value_text(d: DraftV, i: int) -> Seq<char> {
    if i == ON_STARTUP_ITEM {
        if d.on_startup {
            "true"@
        } else {
            "false"@
        }
    } else if i == KEEP_ITEM {
        joined(d.keep)
    } else {
        edit_start(d, i)
    }
}

/// Whether the setting at position `i` has a value of its own (the built-in default applies
/// otherwise): a text or a number is set, `on_startup` is on, `keep` is not empty.
pub open spec fn is_set(d: DraftV, i: int) -> bool {
    if i == TTL_ITEM {
        d.ttl_days is Some
    } else if i == ON_STARTUP_ITEM {
        d.on_startup
    } else if i == KEEP_ITEM {
        d.keep.len() > 0
    } else {
        text_value(d, i) is Some
    }
}

/// Where the value in effect for the setting at position `i` comes from: the environment,
/// the file, or the built-in default.
pub open spec fn source_text(s: SettingsV, i: int) -> Seq<char> {
    if env_overrides(s, i) {
        config_source_env_text(s.lang, env_var_of(i)->0)
    } else if is_set(s.draft, i) {
        config_source_config_text(s.lang)
    } else {
        config_source_default_text(s.lang)
    }
}

fn join_patterns(v: &Vec<String>) -> (r: String)
    ensures
        r@ == joined(strings_view(v@)),
{
    let mut r = String::new();
    let mut i: usize = 0;
    while i < v.len()
        invariant
            i <= v@.len(),
            r@ == joined(strings_view(v@).subrange(0, i as int)),
        decreases v.len() - i,
    {
        let ghost part = strings_view(v@).subrange(0, i + 1);
        assert(part.drop_last() =~= strings_view(v@).subrange(0, i as int));
        assert(part.last() == v@[i as int]@);
        if i > 0 {
            r.append(", ");
        } else {
            assert(part =~= seq![v@[0]@]);
        }
        r.append(v[i].as_str());
        i = i + 1;
    }
    assert(strings_view(v@).subrange(0, v@.len() as int) =~= strings_view(v@));
    r
}

impl Settings {
    /// The value of the setting at position `i`, as shown.
    pub fn value_text(&self, i: usize) -> (r: String)
        requires
            i < SETTING_COUNT,
        ensures
            r@ == value_text(self@.draft, i as int),
    {
        if i == ON_STARTUP_ITEM {
            proof {
                reveal_strlit("true");
                reveal_strlit("false");
            }
            if self.draft.on_startup {
                "true".to_string()
            } else {
                "false".to_string()
            }
        } else if i == KEEP_ITEM {
            join_patterns(&self.draft.keep)
        } else {
            self.draft.text_at(i)
        }
    }

    /// The environment variable that overrides the setting at position `i`, when it is set.
    pub fn overriding_env(&self, i: usize) -> (r: Option<&'static str>)
        ensures
            match r {
                Some(v) => env_overrides(self@, i as int) && env_var_of(i as int) == Some(v@),
                None => !env_overrides(self@, i as int),
            },
    {
        proof {
            reveal_strlit("CHIRA_DIR");
            reveal_strlit("EDITOR");
            reveal_strlit("SHELL");
        }
        if i == 0 && self.env_dir {
            Some("CHIRA_DIR")
        } else if i == 1 && self.env_editor {
            Some("EDITOR")
        } else if i == 2 && self.env_shell {
            Some("SHELL")
        } else {
            None
        }
    }

    /// Where the value in effect for the setting at position `i` comes from.
    pub fn source_text(&self, i: usize) -> (r: String)
        requires
            i < SETTING_COUNT,
        ensures
            r@ == source_text(self@, i as int),
    {
        match self.overriding_env(i) {
            Some(v) => config_source_env(self.lang, v),
            None => {
                let set = if i == TTL_ITEM {
                    self.draft.ttl_days.is_some()
                } else if i == ON_STARTUP_ITEM {
                    self.draft.on_startup
                } else if i == KEEP_ITEM {
                    self.draft.keep.len() > 0
                } else {
                    let t = if i == 0 {
                        &self.draft.dir
                    } else if i == 1 {
                        &self.draft.editor
                    } else if i == 2 {
                        &self.draft.shell
                    } else {
                        &self.draft.archive_dir
                    };
                    t.is_some()
                };
                if set {
                    config_source_config(self.lang).to_string()
                } else {
                    config_source_default(self.lang).to_string()
                }
            },
        }
    }
}

/// The label, type, description and resolution order of the setting at position `i`, as the
/// `config_item_*` texts give them.
pub open spec fn item_help_text(lang: Lang, i: int) -> (Seq<char>, Seq<char>, Seq<char>, Seq<char>) {
    if i == 0 {
        match lang {
            Lang::Ja => ("dir"@, "string"@, "scratch エントリの保存先ディレクトリ。"@, "$CHIRA_DIR → config.dir → $XDG_DATA_HOME/chira → ~/.local/share/chira"@),
            Lang::En => ("dir"@, "string"@, "Storage location for scratch entries."@, "$CHIRA_DIR → config.dir → $XDG_DATA_HOME/chira → ~/.local/share/chira"@),
        }
    } else if i == 1 {
        match lang {
            Lang::Ja => ("editor"@, "string"@, "ファイルを開くときに使う $EDITOR (引数可)。"@, "$EDITOR → config.editor → vi"@),
            Lang::En => ("editor"@, "string"@, "Editor command used to open files (arguments allowed)."@, "$EDITOR → config.editor → vi"@),
        }
    } else if i == 2 {
        match lang {
            Lang::Ja => ("shell"@, "string"@, "`s` で開く $SHELL (引数可)。"@, "$SHELL → config.shell → /bin/sh"@),
            Lang::En => ("shell"@, "string"@, "Shell opened with `s` (arguments allowed)."@, "$SHELL → config.shell → /bin/sh"@),
        }
    } else if i == 3 {
        match lang {
            Lang::Ja => ("archive.ttl_days"@, "u64 (日)"@, "mtime がこの日数を超えたエントリを archive 対象にする。0 or 未設定で off。"@, "config 値のみ (env 経由なし)"@),
            Lang::En => ("archive.ttl_days"@, "u64 (days)"@, "Entries whose mtime exceeds this are archived. 0 / unset disables archive."@, "config only (no env override)"@),
        }
    } else if i == 4 {
        match lang {
            Lang::Ja => ("archive.dir"@, "string"@, "archive 先ディレクトリ。未設定で <CHIRA_DIR>/.archive を使う。"@, "config 値のみ"@),
            Lang::En => ("archive.dir"@, "string"@, "Archive destination. Defaults to <CHIRA_DIR>/.archive when unset."@, "config only"@),
        }
    } else if i == 5 {
        match lang {
            Lang::Ja => ("archive.on_startup"@, "bool"@, "TUI 起動時に archive sweep を走らせるか。"@, "config 値のみ"@),
            Lang::En => ("archive.on_startup"@, "bool"@, "Run archive sweep when the TUI starts."@, "config only"@),
        }
    } else {
        match lang {
            Lang::Ja => ("archive.keep"@, "string[]"@, "archive 対象から除外するファイル名 glob (例: pinned-*, longterm/)。"@, "config 値のみ"@),
            Lang::En => ("archive.keep"@, "string[]"@, "Globs whose names are kept (e.g. pinned-*, longterm/)."@, "config only"@),
        }
    }
}

/// The label, type, description and resolution order of the setting at position `i` (the
/// texts of `config_item_dir` and its siblings).
pub fn item_help(lang: Lang, i: usize) -> (r: ConfigItemHelp)
    requires
        i < SETTING_COUNT,
    ensures
        r.label@ == item_label(i as int),
        (r.label@, r.type_hint@, r.description@, r.resolution@) == item_help_text(lang, i as int),
{
    if i == 0 {
        config_item_dir(lang)
    } else if i == 1 {
        config_item_editor(lang)
    } else if i == 2 {
        config_item_shell(lang)
    } else if i == 3 {
        config_item_archive_ttl(lang)
    } else if i == 4 {
        config_item_archive_dir(lang)
    } else if i == 5 {
        config_item_archive_on_startup(lang)
    } else {
        config_item_archive_keep(lang)
    }
}

/// Once a save succeeded, saving again without further edits writes nothing.
pub proof fn law_saved_settings_are_not_written_again(s: SettingsV, text: Seq<char>)
    requires
        s.save is Some,
    ensures
        apply_changes(text, changes(saved_step(s, Ok(())).base, saved_step(s, Ok(())).draft)) == Ok::<Seq<char>, Seq<char>>(text),
{
    law_unchanged_settings_leave_the_file_alone(text, s.draft);
}

/// Keys edit the draft only: what was last loaded or saved stays, and no key writes the file
/// except `s`, which asks for a save to the known path.
pub proof fn law_keys_only_edit_the_draft(s: SettingsV, key: Key)
    ensures
        settings_step(s, key).base == s.base,
        settings_step(s, key).save != s.save ==> s.mode == SettingsMode::List && key.press && key.code == KeyCode::Char('s')
            && settings_step(s, key).save == s.save_path,
{
}

/// Leaving an editor with Esc keeps every setting as it was.
pub proof fn law_escape_discards_the_edit(s: SettingsV, key: Key)
    requires
        key.press,
        key.code == KeyCode::Esc,
        s.mode == SettingsMode::Edit || s.mode == SettingsMode::KeepEdit,
    ensures
        settings_step(s, key).draft == s.draft,
{
}

/// A day count that is not a whole number, or too large, leaves `archive.ttl_days` as it was
/// and the editor open.
pub proof fn law_bad_day_counts_are_refused(s: SettingsV, key: Key)
    requires
        key.press,
        key.code == KeyCode::Enter,
        s.mode == SettingsMode::Edit,
        s.cursor == TTL_ITEM,
        days_entry(s.input) == DaysEntry::Invalid || days_entry(s.input) == DaysEntry::TooLarge,
    ensures
        settings_step(s, key).draft == s.draft,
        settings_step(s, key).mode == SettingsMode::Edit,
{
}

} // verus!
