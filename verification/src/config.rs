//! Configuration: where the file lives, and the settings read from its TOML table.
use vstd::prelude::*;
use vstd::string::*;

use crate::i18n::{warn_config_parse, warn_config_parse_text, warn_config_unreadable, warn_config_unreadable_text, Lang};
use crate::path::{join, join_path};
use crate::scratch::{lemma_name_lt_irrefl, lemma_name_lt_trans, name_less, name_lt, opt_string};
use crate::text::{str_eq, trim, trimmed};

verus! {

/// One `[actions.<name>]` entry: a shell command run inside a freshly created directory.
#[derive(Debug, PartialEq, Eq)]
pub struct Action {
    pub name: String,
    pub description: Option<String>,
    pub run: String,
}

impl Clone for Action {
    fn clone(&self) -> (r: Self)
        ensures
            r == *self,
    {
        Action {
            name: self.name.clone(),
            description: match &self.description {
                Some(d) => Some(d.clone()),
                None => None,
            },
            run: self.run.clone(),
        }
    }
}

pub ghost struct ActionV {
    pub name: Seq<char>,
    pub description: Option<Seq<char>>,
    pub run: Seq<char>,
}

impl View for Action {
    type V = ActionV;

    open spec fn view(&self) -> ActionV {
        ActionV { name: self.name@, description: opt_string(self.description), run: self.run@ }
    }
}

pub open spec fn actions_view(s: Seq<Action>) -> Seq<ActionV> {
    s.map_values(|a: Action| a@)
}

/// The `[archive]` section. A missing or zero `ttl_days` leaves the archive off.
#[derive(Debug, PartialEq, Eq)]
pub struct ArchiveConfig {
    pub ttl_days: Option<u64>,
    pub dir: Option<String>,
    pub on_startup: bool,
    pub keep: Vec<String>,
}

pub ghost struct ArchiveV {
    pub ttl_days: Option<u64>,
    pub dir: Option<Seq<char>>,
    pub on_startup: bool,
    pub keep: Seq<Seq<char>>,
}

impl View for ArchiveConfig {
    type V = ArchiveV;

    open spec fn view(&self) -> ArchiveV {
        ArchiveV {
            ttl_days: self.ttl_days,
            dir: opt_string(self.dir),
            on_startup: self.on_startup,
            keep: self.keep@.map_values(|s: String| s@),
        }
    }
}

pub open spec fn archive_default() -> ArchiveV {
    ArchiveV { ttl_days: None, dir: None, on_startup: false, keep: Seq::<Seq<char>>::empty() }
}

impl Default for ArchiveConfig {
    fn default() -> (r: Self)
        ensures
            r@ == archive_default(),
    {
        let r = ArchiveConfig { ttl_days: None, dir: None, on_startup: false, keep: Vec::new() };
        assert(r@.keep =~= Seq::<Seq<char>>::empty());
        r
    }
}

/// The `[new]` section: the chrono time formats that name a new file and a new directory when
/// no name is given. Surrounding whitespace is trimmed; a blank value is unset.
#[derive(Debug, PartialEq, Eq)]
pub struct NewConfig {
    pub name_template: Option<String>,
    pub dir_template: Option<String>,
}

pub ghost struct NewV {
    pub name_template: Option<Seq<char>>,
    pub dir_template: Option<Seq<char>>,
}

impl View for NewConfig {
    type V = NewV;

    open spec fn view(&self) -> NewV {
        NewV { name_template: opt_string(self.name_template), dir_template: opt_string(self.dir_template) }
    }
}

impl Default for NewConfig {
    fn default() -> (r: Self)
        ensures
            r@ == (NewV { name_template: None, dir_template: None }),
    {
        NewConfig { name_template: None, dir_template: None }
    }
}

/// The settings read from the configuration file. A missing key, an empty string or a value of
/// another type leaves a setting unset, and the caller falls back to the environment or a
/// built-in default.
#[derive(Debug, PartialEq, Eq)]
pub struct Config {
    pub dir: Option<String>,
    pub editor: Option<String>,
    pub shell: Option<String>,
    pub archive: ArchiveConfig,
    pub new: NewConfig,
    pub actions: Vec<Action>,
    /// The action that a plain new directory (`N`) runs through; unset keeps `N` plain.
    pub default_action: Option<String>,
}

pub ghost struct ConfigV {
    pub dir: Option<Seq<char>>,
    pub editor: Option<Seq<char>>,
    pub shell: Option<Seq<char>>,
    pub archive: ArchiveV,
    pub new: NewV,
    pub actions: Seq<ActionV>,
    pub default_action: Option<Seq<char>>,
}

impl View for Config {
    type V = ConfigV;

    open spec fn view(&self) -> ConfigV {
        ConfigV {
            dir: opt_string(self.dir),
            editor: opt_string(self.editor),
            shell: opt_string(self.shell),
            archive: self.archive@,
            new: self.new@,
            actions: actions_view(self.actions@),
            default_action: opt_string(self.default_action),
        }
    }
}

pub open spec fn config_default() -> ConfigV {
    ConfigV {
        dir: None,
        editor: None,
        shell: None,
        archive: archive_default(),
        new: NewV { name_template: None, dir_template: None },
        actions: Seq::<ActionV>::empty(),
        default_action: None,
    }
}

impl Default for Config {
    fn default() -> (r: Self)
        ensures
            r@ == config_default(),
    {
        let r = Config {
            dir: None,
            editor: None,
            shell: None,
            archive: ArchiveConfig::default(),
            new: NewConfig::default(),
            actions: Vec::new(),
            default_action: None,
        };
        assert(r@.actions =~= Seq::<ActionV>::empty());
        r
    }
}

/// Where the configuration file is: `$CHIRA_CONFIG`, else `$XDG_CONFIG_HOME/chira/config.toml`,
/// else `~/.config/chira/config.toml`; nowhere when none of them is known.
pub open spec fn config_path(
    chira_config: Option<Seq<char>>,
    xdg_config: Option<Seq<char>>,
    home: Option<Seq<char>>,
) -> Option<Seq<char>> {
    if chira_config is Some {
        chira_config
    } else if xdg_config is Some {
        Some(join(xdg_config->0, "chira/config.toml"@))
    } else if home is Some {
        Some(join(home->0, ".config/chira/config.toml"@))
    } else {
        None
    }
}

/// Resolves the configuration file's path from the three environment values.
pub fn resolve_path(
    chira_config: Option<String>,
    xdg_config: Option<String>,
    home: Option<String>,
) -> (r: Option<String>)
    ensures
        opt_string(r) == config_path(opt_string(chira_config), opt_string(xdg_config), opt_string(home)),
{
    if let Some(p) = chira_config {
        return Some(p);
    }
    if let Some(d) = xdg_config {
        return Some(join_path(d.as_str(), "chira/config.toml"));
    }
    match home {
        Some(h) => Some(join_path(h.as_str(), ".config/chira/config.toml")),
        None => None,
    }
}

/// A TOML value as the configuration reads it; floats and datetimes are `Other`.
pub enum TomlValue {
    Str(String),
    Int(i64),
    Bool(bool),
    Array(Vec<TomlValue>),
    Table(Vec<(String, TomlValue)>),
    Other,
}

/// The value of a [`TomlValue`].
pub ghost enum TomlV {
    Str(Seq<char>),
    Int(i64),
    Bool(bool),
    Array(Seq<TomlV>),
    Table(Seq<(Seq<char>, TomlV)>),
    Other,
}

pub open spec fn value_of(v: TomlValue) -> TomlV
    decreases v, 0int,
{
    match v {
        TomlValue::Str(s) => TomlV::Str(s@),
        TomlValue::Int(n) => TomlV::Int(n),
        TomlValue::Bool(b) => TomlV::Bool(b),
        TomlValue::Array(items) => TomlV::Array(values_of(items@)),
        TomlValue::Table(entries) => TomlV::Table(entries_of(entries@)),
        TomlValue::Other => TomlV::Other,
    }
}

pub open spec fn values_of(s: Seq<TomlValue>) -> Seq<TomlV>
    decreases s, s.len(),
{
    if s.len() == 0 {
        Seq::<TomlV>::empty()
    } else {
        values_of(s.drop_last()).push(value_of(s.last()))
    }
}

pub open spec fn entries_of(s: Seq<(String, TomlValue)>) -> Seq<(Seq<char>, TomlV)>
    decreases s, s.len(),
{
    if s.len() == 0 {
        Seq::<(Seq<char>, TomlV)>::empty()
    } else {
        entries_of(s.drop_last()).push((s.last().0@, value_of(s.last().1)))
    }
}

impl View for TomlValue {
    type V = TomlV;

    open spec fn view(&self) -> TomlV {
        value_of(*self)
    }
}

proof fn lemma_entries_of(s: Seq<(String, TomlValue)>)
    ensures
        entries_of(s).len() == s.len(),
        forall|k: int| 0 <= k < s.len() ==> #[trigger] entries_of(s)[k] == (s[k].0@, value_of(s[k].1)),
    decreases s.len(),
{
    if s.len() > 0 {
        lemma_entries_of(s.drop_last());
    }
}

proof fn lemma_values_of(s: Seq<TomlValue>)
    ensures
        values_of(s).len() == s.len(),
        forall|k: int| 0 <= k < s.len() ==> #[trigger] values_of(s)[k] == value_of(s[k]),
    decreases s.len(),
{
    if s.len() > 0 {
        lemma_values_of(s.drop_last());
    }
}

/// The value of the first entry named `key`.
pub open spec fn lookup(t: Seq<(Seq<char>, TomlV)>, key: Seq<char>) -> Option<TomlV>
    decreases t.len(),
{
    if t.len() == 0 {
        None
    } else if t[0].0 == key {
        Some(t[0].1)
    } else {
        lookup(t.drop_first(), key)
    }
}

/// A string setting: a non-empty string value, anything else unset.
pub open spec fn str_value(v: Option<TomlV>) -> Option<Seq<char>> {
    match v {
        Some(TomlV::Str(s)) => if s.len() > 0 {
            Some(s)
        } else {
            None
        },
        _ => None,
    }
}

pub open spec fn table_value(v: Option<TomlV>) -> Option<Seq<(Seq<char>, TomlV)>> {
    match v {
        Some(TomlV::Table(t)) => Some(t),
        _ => None,
    }
}

/// The non-empty strings of an array, in order; other elements are left out one by one.
pub open spec fn keep_names(items: Seq<TomlV>) -> Seq<Seq<char>>
    decreases items.len(),
{
    if items.len() == 0 {
        Seq::<Seq<char>>::empty()
    } else {
        let front = keep_names(items.drop_last());
        match items.last() {
            TomlV::Str(s) => if s.len() > 0 {
                front.push(s)
            } else {
                front
            },
            _ => front,
        }
    }
}

/// The `[archive]` section: `ttl_days` must be a non-negative integer, `on_startup` a boolean.
pub open spec fn archive_spec(t: Option<Seq<(Seq<char>, TomlV)>>) -> ArchiveV {
    match t {
        None => archive_default(),
        Some(t) => ArchiveV {
            ttl_days: match lookup(t, "ttl_days"@) {
                Some(TomlV::Int(n)) => if n >= 0 {
                    Some(n as u64)
                } else {
                    None
                },
                _ => None,
            },
            dir: str_value(lookup(t, "dir"@)),
            on_startup: match lookup(t, "on_startup"@) {
                Some(TomlV::Bool(b)) => b,
                _ => false,
            },
            keep: match lookup(t, "keep"@) {
                Some(TomlV::Array(items)) => keep_names(items),
                _ => Seq::<Seq<char>>::empty(),
            },
        },
    }
}

/// An `[actions.<name>]` entry is an action when its `run` is a string that is not blank; the
/// command is kept trimmed.
pub open spec fn action_of(name: Seq<char>, v: TomlV) -> Option<ActionV> {
    match v {
        TomlV::Table(tbl) => match lookup(tbl, "run"@) {
            Some(TomlV::Str(r)) => if trim(r).len() > 0 {
                Some(ActionV { name, description: str_value(lookup(tbl, "description"@)), run: trim(r) })
            } else {
                None
            },
            _ => None,
        },
        _ => None,
    }
}

/// The actions in the order the table lists them.
pub open spec fn declared_actions(t: Seq<(Seq<char>, TomlV)>) -> Seq<ActionV>
    decreases t.len(),
{
    if t.len() == 0 {
        Seq::<ActionV>::empty()
    } else {
        let front = declared_actions(t.drop_last());
        match action_of(t.last().0, t.last().1) {
            Some(a) => front.push(a),
            None => front,
        }
    }
}

/// How many leading actions of `s` do not come after the name `n`.
pub open spec fn count_not_after(s: Seq<ActionV>, n: Seq<char>) -> nat
    decreases s.len(),
{
    if s.len() == 0 {
        0
    } else if !name_lt(n, s[0].name) {
        1 + count_not_after(s.drop_first(), n)
    } else {
        0
    }
}

/// Sorted by name, actions with the same name keeping their order.
pub open spec fn by_name(s: Seq<ActionV>) -> Seq<ActionV>
    decreases s.len(),
{
    if s.len() == 0 {
        Seq::<ActionV>::empty()
    } else {
        let o = by_name(s.drop_last());
        o.insert(count_not_after(o, s.last().name) as int, s.last())
    }
}

pub open spec fn actions_spec(t: Option<Seq<(Seq<char>, TomlV)>>) -> Seq<ActionV> {
    match t {
        Some(t) => by_name(declared_actions(t)),
        None => Seq::<ActionV>::empty(),
    }
}

/// A template setting: a string with something besides whitespace, trimmed.
pub open spec fn template_value(v: Option<TomlV>) -> Option<Seq<char>> {
    match v {
        Some(TomlV::Str(s)) => if trim(s).len() > 0 {
            Some(trim(s))
        } else {
            None
        },
        _ => None,
    }
}

/// What the `[new]` section gives.
pub open spec fn new_spec(t: Option<Seq<(Seq<char>, TomlV)>>) -> NewV {
    match t {
        Some(t) => NewV {
            name_template: template_value(lookup(t, "name_template"@)),
            dir_template: template_value(lookup(t, "dir_template"@)),
        },
        None => NewV { name_template: None, dir_template: None },
    }
}

/// The settings that a parsed configuration table gives.
pub open spec fn config_spec(t: Seq<(Seq<char>, TomlV)>) -> ConfigV {
    ConfigV {
        dir: str_value(lookup(t, "dir"@)),
        editor: str_value(lookup(t, "editor"@)),
        shell: str_value(lookup(t, "shell"@)),
        archive: archive_spec(table_value(lookup(t, "archive"@))),
        new: new_spec(table_value(lookup(t, "new"@))),
        actions: actions_spec(table_value(lookup(t, "actions"@))),
        default_action: str_value(lookup(t, "default_action"@)),
    }
}

fn lookup_value<'a>(t: &'a Vec<(String, TomlValue)>, key: &str) -> (r: Option<&'a TomlValue>)
    ensures
        match r {
            Some(v) => lookup(entries_of(t@), key@) == Some(v@),
            None => lookup(entries_of(t@), key@) is None,
        },
{
    let ghost es = entries_of(t@);
    proof {
        lemma_entries_of(t@);
        assert(es.subrange(0, es.len() as int) =~= es);
    }
    let mut i: usize = 0;
    while i < t.len()
        invariant
            i <= t@.len(),
            es == entries_of(t@),
            es.len() == t@.len(),
            forall|k: int| 0 <= k < t@.len() ==> #[trigger] es[k] == (t@[k].0@, value_of(t@[k].1)),
            lookup(es, key@) == lookup(es.subrange(i as int, es.len() as int), key@),
        decreases t.len() - i,
    {
        let ghost rest = es.subrange(i as int, es.len() as int);
        assert(rest[0] == es[i as int]);
        assert(rest.drop_first() =~= es.subrange(i + 1, es.len() as int));
        if str_eq(t[i].0.as_str(), key) {
            return Some(&t[i].1);
        }
        i = i + 1;
    }
    None
}

/// A string setting of the table: unset unless it is a non-empty string.
fn get_str(t: &Vec<(String, TomlValue)>, key: &str) -> (r: Option<String>)
    ensures
        opt_string(r) == str_value(lookup(entries_of(t@), key@)),
{
    match lookup_value(t, key) {
        Some(TomlValue::Str(s)) => if s.as_str().unicode_len() > 0 {
            Some(s.clone())
        } else {
            None
        },
        _ => None,
    }
}

fn get_table<'a>(t: &'a Vec<(String, TomlValue)>, key: &str) -> (r: Option<&'a Vec<(String, TomlValue)>>)
    ensures
        match r {
            Some(s) => table_value(lookup(entries_of(t@), key@)) == Some(entries_of(s@)),
            None => table_value(lookup(entries_of(t@), key@)) is None,
        },
{
    match lookup_value(t, key) {
        Some(TomlValue::Table(s)) => Some(s),
        _ => None,
    }
}

fn keep_list(items: &Vec<TomlValue>) -> (r: Vec<String>)
    ensures
        r@.map_values(|s: String| s@) == keep_names(values_of(items@)),
{
    proof {
        lemma_values_of(items@);
    }
    let mut r: Vec<String> = Vec::new();
    let mut i: usize = 0;
    while i < items.len()
        invariant
            i <= items@.len(),
            values_of(items@).len() == items@.len(),
            forall|k: int| 0 <= k < items@.len() ==> #[trigger] values_of(items@)[k] == value_of(items@[k]),
            r@.map_values(|s: String| s@) == keep_names(values_of(items@).subrange(0, i as int)),
        decreases items.len() - i,
    {
        let ghost vs = values_of(items@);
        assert(vs.subrange(0, i + 1).drop_last() =~= vs.subrange(0, i as int));
        assert(vs.subrange(0, i + 1).last() == value_of(items@[i as int]));
        let ghost before = r@;
        match &items[i] {
            TomlValue::Str(s) => if s.as_str().unicode_len() > 0 {
                r.push(s.clone());
                assert(r@.map_values(|s: String| s@) =~= before.map_values(|s: String| s@).push(s@));
            },
            _ => {},
        }
        i = i + 1;
    }
    assert(values_of(items@).subrange(0, items@.len() as int) =~= values_of(items@));
    r
}

/// Reads the `[archive]` section.
fn parse_archive(t: Option<&Vec<(String, TomlValue)>>) -> (r: ArchiveConfig)
    ensures
        r@ == archive_spec(match t {
            Some(s) => Some(entries_of(s@)),
            None => None,
        }),
{
    let t = match t {
        Some(t) => t,
        None => {
            return ArchiveConfig::default();
        },
    };
    let ttl_days = match lookup_value(t, "ttl_days") {
        Some(TomlValue::Int(n)) => if *n >= 0 {
            Some(*n as u64)
        } else {
            None
        },
        _ => None,
    };
    let on_startup = match lookup_value(t, "on_startup") {
        Some(TomlValue::Bool(b)) => *b,
        _ => false,
    };
    let keep = match lookup_value(t, "keep") {
        Some(TomlValue::Array(items)) => keep_list(items),
        _ => {
            let v: Vec<String> = Vec::new();
            assert(v@.map_values(|s: String| s@) =~= Seq::<Seq<char>>::empty());
            v
        },
    };
    ArchiveConfig { ttl_days, dir: get_str(t, "dir"), on_startup, keep }
}

/// A template setting of the table, trimmed; unset when blank or not a string.
fn get_template(t: &Vec<(String, TomlValue)>, key: &str) -> (r: Option<String>)
    ensures
        opt_string(r) == template_value(lookup(entries_of(t@), key@)),
{
    match lookup_value(t, key) {
        Some(TomlValue::Str(s)) => {
            let v = trimmed(s.as_str());
            if v.as_str().unicode_len() > 0 {
                Some(v)
            } else {
                None
            }
        },
        _ => None,
    }
}

/// Reads the `[new]` section.
fn parse_new(t: Option<&Vec<(String, TomlValue)>>) -> (r: NewConfig)
    ensures
        r@ == new_spec(match t {
            Some(s) => Some(entries_of(s@)),
            None => None,
        }),
{
    match t {
        Some(t) => NewConfig { name_template: get_template(t, "name_template"), dir_template: get_template(t, "dir_template") },
        None => NewConfig::default(),
    }
}

proof fn lemma_count_not_after(s: Seq<ActionV>, n: Seq<char>, p: int)
    requires
        0 <= p <= s.len(),
        forall|k: int| 0 <= k < p ==> !name_lt(n, #[trigger] s[k].name),
        p == s.len() || name_lt(n, s[p].name),
    ensures
        count_not_after(s, n) == p,
    decreases p,
{
    if p > 0 {
        assert forall|k: int| 0 <= k < p - 1 implies !name_lt(n, #[trigger] s.drop_first()[k].name) by {
            assert(s.drop_first()[k] == s[k + 1]);
        }
        lemma_count_not_after(s.drop_first(), n, p - 1);
    }
}

/// Sorts actions by name, keeping the order of equal names.
fn sort_by_name(v: Vec<Action>) -> (r: Vec<Action>)
    ensures
        actions_view(r@) == by_name(actions_view(v@)),
{
    let mut out: Vec<Action> = Vec::new();
    let ghost src = actions_view(v@);
    assert(src.subrange(0, 0) =~= Seq::<ActionV>::empty());
    assert(actions_view(out@) =~= Seq::<ActionV>::empty());
    let mut i: usize = 0;
    while i < v.len()
        invariant
            i <= v@.len(),
            src == actions_view(v@),
            actions_view(out@) == by_name(src.subrange(0, i as int)),
        decreases v.len() - i,
    {
        let e = v[i].clone();
        let mut p: usize = 0;
        while p < out.len() && !name_less(e.name.as_str(), out[p].name.as_str())
            invariant
                p <= out@.len(),
                forall|k: int| 0 <= k < p ==> !name_lt(e.name@, #[trigger] actions_view(out@)[k].name),
            decreases out.len() - p,
        {
            p = p + 1;
        }
        let ghost before = out@;
        proof {
            lemma_count_not_after(actions_view(before), e.name@, p as int);
            assert(src.subrange(0, i + 1).drop_last() =~= src.subrange(0, i as int));
            assert(src.subrange(0, i + 1).last() == e@);
        }
        out.insert(p, e);
        assert(actions_view(out@) =~= actions_view(before).insert(p as int, e@));
        i = i + 1;
    }
    assert(src.subrange(0, src.len() as int) =~= src);
    out
}

/// Reads the `[actions.*]` tables: the entries with a usable `run`, sorted by name.
fn parse_actions(t: Option<&Vec<(String, TomlValue)>>) -> (r: Vec<Action>)
    ensures
        actions_view(r@) == actions_spec(match t {
            Some(s) => Some(entries_of(s@)),
            None => None,
        }),
{
    let t = match t {
        Some(t) => t,
        None => {
            let v: Vec<Action> = Vec::new();
            assert(actions_view(v@) =~= Seq::<ActionV>::empty());
            return v;
        },
    };
    let ghost es = entries_of(t@);
    proof {
        lemma_entries_of(t@);
    }
    let mut found: Vec<Action> = Vec::new();
    assert(actions_view(found@) =~= Seq::<ActionV>::empty());
    let mut i: usize = 0;
    while i < t.len()
        invariant
            i <= t@.len(),
            es == entries_of(t@),
            es.len() == t@.len(),
            forall|k: int| 0 <= k < t@.len() ==> #[trigger] es[k] == (t@[k].0@, value_of(t@[k].1)),
            actions_view(found@) == declared_actions(es.subrange(0, i as int)),
        decreases t.len() - i,
    {
        assert(es.subrange(0, i + 1).drop_last() =~= es.subrange(0, i as int));
        assert(es.subrange(0, i + 1).last() == es[i as int]);
        let ghost before = found@;
        if let TomlValue::Table(tbl) = &t[i].1 {
            if let Some(TomlValue::Str(run)) = lookup_value(tbl, "run") {
                let cmd = trimmed(run.as_str());
                if cmd.as_str().unicode_len() > 0 {
                    let a = Action { name: t[i].0.clone(), description: get_str(tbl, "description"), run: cmd };
                    found.push(a);
                    assert(actions_view(found@) =~= actions_view(before).push(a@));
                }
            }
        }
        i = i + 1;
    }
    assert(es.subrange(0, es.len() as int) =~= es);
    sort_by_name(found)
}

/// The settings of a parsed configuration table.
pub fn config_from_table(t: &Vec<(String, TomlValue)>) -> (r: Config)
    ensures
        r@ == config_spec(entries_of(t@)),
{
    Config {
        dir: get_str(t, "dir"),
        editor: get_str(t, "editor"),
        shell: get_str(t, "shell"),
        archive: parse_archive(get_table(t, "archive")),
        new: parse_new(get_table(t, "new")),
        actions: parse_actions(get_table(t, "actions")),
        default_action: get_str(t, "default_action"),
    }
}

/// What the configuration logic needs of toml's `Value` to convert it.
#[verifier::external_type_specification]
#[verifier::external_body]
pub struct ExTomlValue(toml::Value);

/// What toml's parser makes of a text: the document's top-level table, or the message of its
/// error (which names the place in the text) when the text is not a valid TOML document.
pub uninterp spec fn toml_document(text: Seq<char>) -> Result<Seq<(Seq<char>, TomlV)>, Seq<char>>;

/// toml's `from_str::<toml::Table>`: the document's top-level table, converted entry by entry
/// (in the table's iteration order), or toml's error written as text (its `Display`) when the
/// text is not valid TOML. The contract names the outcome as a function of the text.
#[verifier::external_body]
fn parse_toml(text: &str) -> (r: Result<Vec<(String, TomlValue)>, String>)
    ensures
        match r {
            Ok(t) => toml_document(text@) == Ok::<Seq<(Seq<char>, TomlV)>, Seq<char>>(entries_of(t@)),
            Err(e) => toml_document(text@) == Err::<Seq<(Seq<char>, TomlV)>, Seq<char>>(e@),
        },
{
    match toml::from_str::<toml::Table>(text) {
        Ok(t) => Ok(t.into_iter().map(|(k, v)| (k, toml_value(v))).collect()),
        Err(e) => Err(e.to_string()),
    }
}

/// Converts a toml `Value` into a [`TomlValue`] one variant for one, recursively; floats and
/// datetimes, which the configuration never reads, become `Other`. Nothing is stated of it:
/// `parse_toml` names the converted document as a whole.
#[verifier::external_body]
fn toml_value(v: toml::Value) -> TomlValue {
    match v {
        toml::Value::String(s) => TomlValue::Str(s),
        toml::Value::Integer(n) => TomlValue::Int(n),
        toml::Value::Boolean(b) => TomlValue::Bool(b),
        toml::Value::Array(a) => TomlValue::Array(a.into_iter().map(toml_value).collect()),
        toml::Value::Table(t) => TomlValue::Table(t.into_iter().map(|(k, v)| (k, toml_value(v))).collect()),
        toml::Value::Float(_) => TomlValue::Other,
        toml::Value::Datetime(_) => TomlValue::Other,
    }
}

/// Parses the configuration text; a text that is not valid TOML is an error (toml's message).
pub fn parse(text: &str) -> (r: Result<Config, String>)
    ensures
        match r {
            Ok(c) => toml_document(text@) matches Ok(t) && c@ == config_spec(t),
            Err(e) => toml_document(text@) == Err::<Seq<(Seq<char>, TomlV)>, Seq<char>>(e@),
        },
{
    match parse_toml(text) {
        Ok(t) => Ok(config_from_table(&t)),
        Err(e) => Err(e),
    }
}

/// What reading the configuration file gave.
pub enum FileRead {
    /// The file's text.
    Text(String),
    /// There is no such file.
    Missing,
    /// It could not be read (the error's text).
    Failed(String),
}

/// The configuration and the warning, if any, that a read of the file at `path` leads to: a
/// missing file is silently the default, a broken or unreadable one the default with a warning.
pub fn read_and_parse(path: &str, lang: Lang, read: FileRead) -> (r: (Config, Option<String>))
    ensures
        match read {
            FileRead::Text(text) => match toml_document(text@) {
                Ok(t) => r.0@ == config_spec(t) && r.1 is None,
                Err(e) => r.0@ == config_default() && (r.1 matches Some(w) && w@ == warn_config_parse_text(lang, path@, e)),
            },
            FileRead::Missing => r.0@ == config_default() && r.1 is None,
            FileRead::Failed(e) => r.0@ == config_default() && (r.1 matches Some(w)
                && w@ == warn_config_unreadable_text(lang, path@, e@)),
        },
{
    match read {
        FileRead::Text(text) => match parse(text.as_str()) {
            Ok(c) => (c, None),
            Err(e) => (Config::default(), Some(warn_config_parse(lang, path, e.as_str()))),
        },
        FileRead::Missing => (Config::default(), None),
        FileRead::Failed(e) => (Config::default(), Some(warn_config_unreadable(lang, path, e.as_str()))),
    }
}

proof fn lemma_count_props(s: Seq<ActionV>, n: Seq<char>)
    ensures
        count_not_after(s, n) <= s.len(),
        forall|k: int| 0 <= k < count_not_after(s, n) ==> !name_lt(n, #[trigger] s[k].name),
        count_not_after(s, n) < s.len() ==> name_lt(n, s[count_not_after(s, n) as int].name),
    decreases s.len(),
{
    if s.len() > 0 {
        lemma_count_props(s.drop_first(), n);
        assert forall|k: int| 0 <= k < count_not_after(s, n) implies !name_lt(n, #[trigger] s[k].name) by {
            if k > 0 {
                assert(s[k] == s.drop_first()[k - 1]);
            }
        }
        if count_not_after(s, n) > 0 && count_not_after(s, n) < s.len() {
            assert(s[count_not_after(s, n) as int] == s.drop_first()[count_not_after(s, n) - 1]);
        }
    }
}

/// A `[new]` table's `name_template` and `dir_template` each reach the configuration as their
/// text with surrounding whitespace trimmed, when that text is not blank; a missing, blank or
/// non-string value leaves the setting unset.
pub proof fn law_new_templates_are_read_trimmed(t: Seq<(Seq<char>, TomlV)>, nt: Seq<(Seq<char>, TomlV)>)
    requires
        lookup(t, "new"@) == Some(TomlV::Table(nt)),
    ensures
        forall|s: Seq<char>|
            lookup(nt, "name_template"@) == Some(TomlV::Str(s)) ==> config_spec(t).new.name_template == (if #[trigger] trim(s).len() > 0 {
                Some(trim(s))
            } else {
                None
            }),
        forall|s: Seq<char>|
            lookup(nt, "dir_template"@) == Some(TomlV::Str(s)) ==> config_spec(t).new.dir_template == (if #[trigger] trim(s).len() > 0 {
                Some(trim(s))
            } else {
                None
            }),
        !(lookup(nt, "name_template"@) matches Some(TomlV::Str(_))) ==> config_spec(t).new.name_template is None,
        !(lookup(nt, "dir_template"@) matches Some(TomlV::Str(_))) ==> config_spec(t).new.dir_template is None,
{
}

/// The actions come sorted by name, and none is lost or added on the way.
pub proof fn law_actions_sorted_by_name(s: Seq<ActionV>)
    ensures
        forall|a: int, b: int| 0 <= a < b < by_name(s).len() ==> !name_lt(#[trigger] by_name(s)[b].name, #[trigger] by_name(s)[a].name),
        by_name(s).to_multiset() == s.to_multiset(),
    decreases s.len(),
{
    if s.len() > 0 {
        let o = by_name(s.drop_last());
        let x = s.last();
        law_actions_sorted_by_name(s.drop_last());
        lemma_count_props(o, x.name);
        let p = count_not_after(o, x.name) as int;
        let r = by_name(s);
        assert(r == o.insert(p, x));
        assert forall|a: int, b: int| 0 <= a < b < r.len() implies !name_lt(#[trigger] r[b].name, #[trigger] r[a].name) by {
            if b < p {
                assert(r[a] == o[a] && r[b] == o[b]);
            } else if b == p {
                assert(r[a] == o[a]);
            } else if a < p {
                assert(r[a] == o[a] && r[b] == o[b - 1]);
            } else if a == p {
                assert(r[b] == o[b - 1]);
                if name_lt(o[b - 1].name, x.name) {
                    lemma_name_lt_trans(o[b - 1].name, x.name, o[p].name);
                    if b - 1 > p {
                        assert(!name_lt(o[b - 1].name, o[p].name));
                    } else {
                        lemma_name_lt_irrefl(o[p].name);
                    }
                }
            } else {
                assert(r[a] == o[a - 1] && r[b] == o[b - 1]);
            }
        }
        vstd::seq_lib::to_multiset_insert(o, p, x);
        vstd::seq_lib::to_multiset_build(s.drop_last(), x);
        assert(s =~= s.drop_last().push(x));
    } else {
        vstd::seq_lib::to_multiset_len(s);
        vstd::seq_lib::to_multiset_len(by_name(s));
        assert(s.to_multiset() =~= by_name(s).to_multiset());
    }
}

} // verus!
