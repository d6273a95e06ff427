//! Scratch entries: where the scratch root is, which names are allowed, the order of listings
//! and the `tree` rendering of a directory.
use vstd::prelude::*;
use vstd::seq_lib::to_multiset_insert;
use vstd::string::*;

use crate::i18n::{empty_directory, err_unreadable, err_unreadable_text, Lang};
use crate::path::{file_name, join, join_path, parent, path_eq, path_equal, path_file_name, path_has_prefix, path_parent, path_starts_with};
use crate::text::{chars_of, concat2, has_char, owned, trim_end_bound, trim_end, contains_char, string_from_range};

verus! {

/// One entry of a directory listing. `modified` is the modification time in nanoseconds since
/// the Unix epoch (negative before it); `path` is the entry's path as text.
pub struct Entry {
    pub path: String,
    pub name: String,
    pub is_dir: bool,
    pub modified: i128,
}

impl Clone for Entry {
    fn clone(&self) -> (r: Self)
        ensures
            r == *self,
    {
        Entry {
            path: self.path.clone(),
            name: self.name.clone(),
            is_dir: self.is_dir,
            modified: self.modified,
        }
    }
}

/// Where the scratch entries live: `$CHIRA_DIR`, else the configured directory (a leading `~`
/// expanded, an empty value ignored), else `$XDG_DATA_HOME/chira`, else `~/.local/share/chira`.
pub open spec fn root_choice(
    chira_dir: Option<Seq<char>>,
    config_dir: Option<Seq<char>>,
    xdg_data: Option<Seq<char>>,
    home: Option<Seq<char>>,
) -> Result<Seq<char>, Seq<char>> {
    if chira_dir is Some {
        Ok(chira_dir->0)
    } else if config_dir is Some && config_dir->0.len() > 0 {
        tilde_expansion(config_dir->0, home)
    } else if xdg_data is Some {
        Ok(join(xdg_data->0, "chira"@))
    } else if home is Some {
        Ok(join(home->0, ".local/share/chira"@))
    } else {
        Err("HOME is not set"@)
    }
}

/// A configured path with its leading `~` (alone or followed by `/`) replaced by the home directory.
pub open spec fn tilde_expansion(s: Seq<char>, home: Option<Seq<char>>) -> Result<Seq<char>, Seq<char>> {
    if s == seq!['~'] {
        if home is Some {
            Ok(home->0)
        } else {
            Err("HOME is not set"@)
        }
    } else if s.len() >= 2 && s[0] == '~' && s[1] == '/' {
        if home is Some {
            Ok(join(home->0, s.subrange(2, s.len() as int)))
        } else {
            Err("HOME is not set"@)
        }
    } else {
        Ok(s)
    }
}

pub open spec fn opt_str(o: Option<&str>) -> Option<Seq<char>> {
    match o {
        Some(s) => Some(s@),
        None => None,
    }
}

pub open spec fn opt_string(o: Option<String>) -> Option<Seq<char>> {
    match o {
        Some(s) => Some(s@),
        None => None,
    }
}

pub open spec fn res_view(r: Result<String, String>) -> Result<Seq<char>, Seq<char>> {
    match r {
        Ok(s) => Ok(s@),
        Err(e) => Err(e@),
    }
}

/// The home directory, or the error that it is unknown.
pub fn require_home(home: Option<&str>) -> (r: Result<&str, String>)
    ensures
        match r {
            Ok(h) => home == Some(h),
            Err(e) => home is None && e@ == "HOME is not set"@,
        },
{
    match home {
        Some(h) => Ok(h),
        None => Err(owned("HOME is not set")),
    }
}

/// Replaces a leading `~` of a configured path by the home directory.
pub fn expand_tilde(s: &str, home: Option<&str>) -> (r: Result<String, String>)
    ensures
        res_view(r) == tilde_expansion(s@, opt_str(home)),
{
    let v = chars_of(s);
    if v.len() == 1 && v[0] == '~' {
        assert(v@ =~= seq!['~']);
        let h = require_home(home)?;
        Ok(owned(h))
    } else if v.len() >= 2 && v[0] == '~' && v[1] == '/' {
        proof {
            if v@.len() == 1 {
                assert(v@ != seq!['~']);
            }
        }
        assert(v@ != seq!['~']);
        let h = require_home(home)?;
        let rest = string_from_range(&v, 2, v.len());
        Ok(join_path(h, rest.as_str()))
    } else {
        proof {
            if v@ == seq!['~'] {
                assert(v@.len() == 1);
            }
        }
        Ok(owned(s))
    }
}

/// Resolves the scratch root from the environment values and the configured directory.
pub fn resolve_root(
    chira_dir: Option<String>,
    config_dir: Option<&str>,
    xdg_data: Option<String>,
    home: Option<&str>,
) -> (r: Result<String, String>)
    ensures
        res_view(r) == root_choice(opt_string(chira_dir), opt_str(config_dir), opt_string(xdg_data), opt_str(home)),
{
    if let Some(d) = chira_dir {
        return Ok(d);
    }
    if let Some(d) = config_dir {
        if !d.is_empty() {
            return expand_tilde(d, home);
        }
    }
    if let Some(d) = xdg_data {
        return Ok(join_path(d.as_str(), "chira"));
    }
    let h = require_home(home)?;
    Ok(join_path(h, ".local/share/chira"))
}

/// A name is safe when it is not empty, holds no `/` and does not start with `.`
/// (a name starting with `.` would be hidden from the listing).
pub open spec fn valid_name(name: Seq<char>) -> bool {
    name.len() > 0 && !contains_char(name, '/') && name[0] != '.'
}

/// Names that the listing hides.
pub open spec fn is_hidden(name: Seq<char>) -> bool {
    name.len() > 0 && name[0] == '.'
}

/// Checks that a new name is safe to create under a directory.
pub fn validate_name(name: &str) -> (r: Result<(), String>)
    ensures
        r is Ok <==> valid_name(name@),
        r matches Err(e) ==> e@ == "invalid name"@,
{
    let v = chars_of(name);
    if v.len() == 0 || has_char(&v, '/') || v[0] == '.' {
        return Err(owned("invalid name"));
    }
    Ok(())
}

/// Every name that `validate_name` accepts shows up in the listing: it is never hidden.
pub proof fn law_valid_names_are_never_hidden(name: Seq<char>)
    requires
        valid_name(name),
    ensures
        !is_hidden(name),
{
}

/// The listing keeps the entries that are not hidden, in their order.
pub open spec fn shown(entries: Seq<Entry>) -> Seq<Entry>
    decreases entries.len(),
{
    if entries.len() == 0 {
        Seq::<Entry>::empty()
    } else {
        let rest = shown(entries.drop_last());
        if is_hidden(entries.last().name@) {
            rest
        } else {
            rest.push(entries.last())
        }
    }
}

/// Newest first: each entry is at least as recent as the next.
pub open spec fn newest_first(s: Seq<Entry>) -> bool {
    forall|a: int, b: int| 0 <= a < b < s.len() ==> s[a].modified >= s[b].modified
}

fn drop_hidden(entries: Vec<Entry>) -> (r: Vec<Entry>)
    ensures
        r@ == shown(entries@),
{
    let mut r: Vec<Entry> = Vec::new();
    let mut i: usize = 0;
    while i < entries.len()
        invariant
            i <= entries.len(),
            r@ == shown(entries@.subrange(0, i as int)),
        decreases entries.len() - i,
    {
        proof {
            assert(entries@.subrange(0, i + 1).drop_last() =~= entries@.subrange(0, i as int));
        }
        let v = chars_of(entries[i].name.as_str());
        if !(v.len() > 0 && v[0] == '.') {
            r.push(entries[i].clone());
        }
        assert(entries@.subrange(0, i + 1).last() == entries@[i as int]);
        i = i + 1;
    }
    assert(entries@.subrange(0, entries@.len() as int) =~= entries@);
    r
}

/// How many leading entries of `s` are at least as recent as `m`.
pub open spec fn count_not_older(s: Seq<Entry>, m: i128) -> nat
    decreases s.len(),
{
    if s.len() == 0 {
        0
    } else if s[0].modified >= m {
        1 + count_not_older(s.drop_first(), m)
    } else {
        0
    }
}

/// Newest first, by inserting each entry after every entry that is at least as recent, so that
/// entries with the same time keep their order.
pub open spec fn newest_order(s: Seq<Entry>) -> Seq<Entry>
    decreases s.len(),
{
    if s.len() == 0 {
        Seq::<Entry>::empty()
    } else {
        let o = newest_order(s.drop_last());
        o.insert(count_not_older(o, s.last().modified) as int, s.last())
    }
}

proof fn lemma_count_not_older(s: Seq<Entry>, m: i128, p: int)
    requires
        0 <= p <= s.len(),
        forall|k: int| 0 <= k < p ==> s[k].modified >= m,
        p == s.len() || s[p].modified < m,
    ensures
        count_not_older(s, m) == p,
    decreases p,
{
    if p > 0 {
        lemma_count_not_older(s.drop_first(), m, p - 1);
    }
}

/// The entries of a directory as the list shows them: hidden names left out, newest first
/// (entries with the same time keep their order).
pub fn list(entries: Vec<Entry>) -> (r: Vec<Entry>)
    ensures
        r@ == newest_order(shown(entries@)),
        r@.to_multiset() == shown(entries@).to_multiset(),
        newest_first(r@),
{
    let shown_entries = drop_hidden(entries);
    let mut out: Vec<Entry> = Vec::new();
    assert(shown_entries@.subrange(0, 0) =~= Seq::<Entry>::empty());
    let mut i: usize = 0;
    while i < shown_entries.len()
        invariant
            i <= shown_entries.len(),
            out@ == newest_order(shown_entries@.subrange(0, i as int)),
            out@.to_multiset() == shown_entries@.subrange(0, i as int).to_multiset(),
            newest_first(out@),
        decreases shown_entries.len() - i,
    {
        let e = shown_entries[i].clone();
        let mut p: usize = 0;
        while p < out.len() && out[p].modified >= e.modified
            invariant
                p <= out.len(),
                forall|k: int| 0 <= k < p ==> out@[k].modified >= e.modified,
            decreases out.len() - p,
        {
            p = p + 1;
        }
        let ghost before = out@;
        proof {
            to_multiset_insert(before, p as int, e);
            vstd::seq_lib::to_multiset_build(shown_entries@.subrange(0, i as int), e);
            assert(shown_entries@.subrange(0, i + 1) =~= shown_entries@.subrange(0, i as int).push(e));
            lemma_count_not_older(before, e.modified, p as int);
            assert(shown_entries@.subrange(0, i + 1).drop_last() =~= shown_entries@.subrange(0, i as int));
            assert(shown_entries@.subrange(0, i + 1).last() == e);
        }
        out.insert(p, e);
        assert forall|a: int, b: int| 0 <= a < b < out@.len() implies out@[a].modified >= out@[b].modified by {
            if b < p {
            } else if b == p {
            } else if a < p {
                assert(out@[b] == before[b - 1]);
                assert(before[p as int].modified < e.modified || p == before.len());
                if p < before.len() {
                    assert(before[p as int].modified >= before[b - 1].modified || b - 1 == p);
                }
            } else if a == p {
                assert(out@[b] == before[b - 1]);
                assert(before[p as int].modified >= before[b - 1].modified || b - 1 == p);
            } else {
                assert(out@[a] == before[a - 1]);
                assert(out@[b] == before[b - 1]);
            }
        }
        i = i + 1;
    }
    assert(shown_entries@.subrange(0, shown_entries@.len() as int) =~= shown_entries@);
    out
}

/// Lexicographic order of names by character code (the order of `String`'s `Ord`, since UTF-8
/// preserves the order of code points).
pub open spec fn name_lt(a: Seq<char>, b: Seq<char>) -> bool
    decreases a.len(),
{
    if a.len() == 0 {
        b.len() > 0
    } else if b.len() == 0 {
        false
    } else if a[0] != b[0] {
        a[0] < b[0]
    } else {
        name_lt(a.drop_first(), b.drop_first())
    }
}

/// Tree order: directories before files, then by name.
pub open spec fn tree_lt(x: Entry, y: Entry) -> bool {
    (x.is_dir && !y.is_dir) || (x.is_dir == y.is_dir && name_lt(x.name@, y.name@))
}

/// Every entry comes no later in tree order than the next.
pub open spec fn in_tree_order(s: Seq<Entry>) -> bool {
    forall|a: int, b: int| 0 <= a < b < s.len() ==> !tree_lt(s[b], s[a])
}

pub(crate) proof fn lemma_name_lt_trans(a: Seq<char>, b: Seq<char>, c: Seq<char>)
    requires
        name_lt(a, b),
        name_lt(b, c),
    ensures
        name_lt(a, c),
    decreases a.len(),
{
    if a.len() > 0 && b.len() > 0 && c.len() > 0 && a[0] == b[0] && b[0] == c[0] {
        lemma_name_lt_trans(a.drop_first(), b.drop_first(), c.drop_first());
    }
}

pub(crate) proof fn lemma_name_lt_total(a: Seq<char>, b: Seq<char>)
    ensures
        a == b || name_lt(a, b) || name_lt(b, a),
    decreases a.len(),
{
    if a.len() > 0 && b.len() > 0 && a[0] == b[0] {
        lemma_name_lt_total(a.drop_first(), b.drop_first());
        if a.drop_first() == b.drop_first() {
            assert(a =~= seq![a[0]] + a.drop_first());
            assert(b =~= seq![b[0]] + b.drop_first());
        }
    } else if a.len() == 0 && b.len() == 0 {
        assert(a =~= b);
    }
}

pub(crate) proof fn lemma_name_lt_irrefl(a: Seq<char>)
    ensures
        !name_lt(a, a),
    decreases a.len(),
{
    if a.len() > 0 {
        lemma_name_lt_irrefl(a.drop_first());
    }
}

proof fn lemma_tree_le_trans(x: Entry, y: Entry, z: Entry)
    requires
        !tree_lt(y, x),
        !tree_lt(z, y),
    ensures
        !tree_lt(z, x),
{
    if tree_lt(z, x) {
        if z.is_dir == x.is_dir && z.is_dir == y.is_dir {
            lemma_name_lt_total(x.name@, y.name@);
            lemma_name_lt_total(y.name@, z.name@);
            if name_lt(x.name@, y.name@) && name_lt(y.name@, z.name@) {
                lemma_name_lt_trans(x.name@, y.name@, z.name@);
                lemma_name_lt_trans(z.name@, x.name@, y.name@);
                lemma_name_lt_irrefl(y.name@);
                lemma_name_lt_trans(y.name@, z.name@, y.name@);
            } else if name_lt(x.name@, y.name@) {
                lemma_name_lt_trans(z.name@, x.name@, y.name@);
            } else if name_lt(y.name@, z.name@) {
                lemma_name_lt_trans(y.name@, z.name@, x.name@);
            }
        }
    }
}

proof fn lemma_tree_lt_asym(x: Entry, y: Entry)
    requires
        tree_lt(x, y),
    ensures
        !tree_lt(y, x),
{
    if x.is_dir == y.is_dir && name_lt(y.name@, x.name@) {
        lemma_name_lt_trans(x.name@, y.name@, x.name@);
        lemma_name_lt_irrefl(x.name@);
    }
}

proof fn lemma_tree_lt_irrefl(x: Entry)
    ensures
        !tree_lt(x, x),
{
    lemma_name_lt_irrefl(x.name@);
}

proof fn lemma_tree_lt_le(x: Entry, y: Entry, z: Entry)
    requires
        tree_lt(x, y),
        !tree_lt(z, y),
    ensures
        tree_lt(x, z),
{
    if x.is_dir == y.is_dir && y.is_dir == z.is_dir {
        lemma_name_lt_total(y.name@, z.name@);
        if name_lt(y.name@, z.name@) {
            lemma_name_lt_trans(x.name@, y.name@, z.name@);
        }
    }
}

pub(crate) fn name_less(a: &str, b: &str) -> (r: bool)
    ensures
        r == name_lt(a@, b@),
{
    let x = chars_of(a);
    let y = chars_of(b);
    assert(x@.subrange(0, x@.len() as int) =~= x@);
    assert(y@.subrange(0, y@.len() as int) =~= y@);
    let mut i: usize = 0;
    while i < x.len() && i < y.len() && x[i] == y[i]
        invariant
            i <= x.len(),
            i <= y.len(),
            x@ == a@,
            y@ == b@,
            forall|k: int| 0 <= k < i ==> x@[k] == y@[k],
            name_lt(a@, b@) == name_lt(x@.subrange(i as int, x@.len() as int), y@.subrange(i as int, y@.len() as int)),
        decreases x.len() - i,
    {
        proof {
            let xs = x@.subrange(i as int, x@.len() as int);
            let ys = y@.subrange(i as int, y@.len() as int);
            assert(xs.drop_first() =~= x@.subrange(i + 1, x@.len() as int));
            assert(ys.drop_first() =~= y@.subrange(i + 1, y@.len() as int));
        }
        i = i + 1;
    }
    if i == x.len() {
        i < y.len()
    } else if i == y.len() {
        false
    } else {
        x[i] < y[i]
    }
}

fn tree_less(a: &Entry, b: &Entry) -> (r: bool)
    ensures
        r == tree_lt(*a, *b),
{
    (a.is_dir && !b.is_dir) || (a.is_dir == b.is_dir && name_less(a.name.as_str(), b.name.as_str()))
}

/// How many leading entries of `s` do not come after `e` in tree order.
pub open spec fn count_not_after_entry(s: Seq<Entry>, e: Entry) -> nat
    decreases s.len(),
{
    if s.len() == 0 {
        0
    } else if !tree_lt(e, s[0]) {
        1 + count_not_after_entry(s.drop_first(), e)
    } else {
        0
    }
}

/// Tree order by insertion: each entry goes after every entry that does not come after it, so
/// that equal entries keep their order.
pub open spec fn tree_order(s: Seq<Entry>) -> Seq<Entry>
    decreases s.len(),
{
    if s.len() == 0 {
        Seq::<Entry>::empty()
    } else {
        let o = tree_order(s.drop_last());
        o.insert(count_not_after_entry(o, s.last()) as int, s.last())
    }
}

proof fn lemma_count_not_after_entry(s: Seq<Entry>, e: Entry, p: int)
    requires
        0 <= p <= s.len(),
        forall|k: int| 0 <= k < p ==> !tree_lt(e, #[trigger] s[k]),
        p == s.len() || tree_lt(e, s[p]),
    ensures
        count_not_after_entry(s, e) == p,
    decreases p,
{
    if p > 0 {
        assert forall|k: int| 0 <= k < p - 1 implies !tree_lt(e, #[trigger] s.drop_first()[k]) by {
            assert(s.drop_first()[k] == s[k + 1]);
        }
        lemma_count_not_after_entry(s.drop_first(), e, p - 1);
    }
}

/// The entries of a directory as the tree shows them: hidden names left out, directories
/// first, then by name (equal entries keep their order).
pub fn children_by_name(entries: Vec<Entry>) -> (r: Vec<Entry>)
    ensures
        r@ == tree_order(shown(entries@)),
        r@.to_multiset() == shown(entries@).to_multiset(),
        in_tree_order(r@),
{
    let shown_entries = drop_hidden(entries);
    let mut out: Vec<Entry> = Vec::new();
    assert(shown_entries@.subrange(0, 0) =~= Seq::<Entry>::empty());
    let mut i: usize = 0;
    while i < shown_entries.len()
        invariant
            i <= shown_entries.len(),
            out@ == tree_order(shown_entries@.subrange(0, i as int)),
            out@.to_multiset() == shown_entries@.subrange(0, i as int).to_multiset(),
            in_tree_order(out@),
        decreases shown_entries.len() - i,
    {
        let e = shown_entries[i].clone();
        let mut p: usize = 0;
        while p < out.len() && !tree_less(&e, &out[p])
            invariant
                p <= out.len(),
                forall|k: int| 0 <= k < p ==> !tree_lt(e, out@[k]),
            decreases out.len() - p,
        {
            p = p + 1;
        }
        let ghost before = out@;
        proof {
            to_multiset_insert(before, p as int, e);
            vstd::seq_lib::to_multiset_build(shown_entries@.subrange(0, i as int), e);
            assert(shown_entries@.subrange(0, i + 1) =~= shown_entries@.subrange(0, i as int).push(e));
            lemma_count_not_after_entry(before, e, p as int);
            assert(shown_entries@.subrange(0, i + 1).drop_last() =~= shown_entries@.subrange(0, i as int));
            assert(shown_entries@.subrange(0, i + 1).last() == e);
        }
        out.insert(p, e);
        assert forall|a: int, b: int| 0 <= a < b < out@.len() implies !tree_lt(out@[b], out@[a]) by {
            if b < p {
            } else if b == p {
            } else if a <= p {
                assert(out@[b] == before[b - 1]);
                assert(tree_lt(e, before[p as int]));
                if b - 1 > p {
                    assert(!tree_lt(before[b - 1], before[p as int]));
                } else {
                    lemma_tree_lt_irrefl(before[p as int]);
                }
                lemma_tree_lt_le(e, before[p as int], before[b - 1]);
                lemma_tree_lt_asym(e, before[b - 1]);
                if a < p {
                    assert(out@[a] == before[a]);
                    lemma_tree_le_trans(before[a], e, before[b - 1]);
                }
            } else {
                assert(out@[a] == before[a - 1]);
                assert(out@[b] == before[b - 1]);
            }
        }
        i = i + 1;
    }
    assert(shown_entries@.subrange(0, shown_entries@.len() as int) =~= shown_entries@);
    out
}

/// What was read of one directory for the tree view.
pub enum Listing {
    /// Not read: the view never descends into it.
    Unread,
    /// Reading failed with this error text.
    Unreadable(String),
    /// The directory's entries in tree order.
    Entries(Vec<TreeNode>),
}

/// One entry of the tree view, with what was read below it.
pub struct TreeNode {
    pub name: String,
    pub is_dir: bool,
    pub is_symlink: bool,
    pub listing: Listing,
}

/// Branch drawn before an entry.
pub open spec fn connector(is_last: bool) -> Seq<char> {
    if is_last {
        "└── "@
    } else {
        "├── "@
    }
}

/// Prefix added for the entries below an entry.
pub open spec fn indent(is_last: bool) -> Seq<char> {
    if is_last {
        "    "@
    } else {
        "│   "@
    }
}

/// Text and line count after drawing `nodes[i..]` under `prefix`, from the state `(out, lines)`.
/// Once `max_lines` entry lines are drawn, an ellipsis line closes the level.
pub open spec fn tree_level(
    lang: Lang,
    nodes: Seq<TreeNode>,
    i: int,
    prefix: Seq<char>,
    depth_left: nat,
    max_lines: nat,
    out: Seq<char>,
    lines: nat,
) -> (Seq<char>, nat)
    decreases nodes, nodes.len() - i,
{
    if i < 0 || i >= nodes.len() {
        (out, lines)
    } else if lines >= max_lines {
        (out + prefix + "…\n"@, lines)
    } else {
        let e = nodes[i];
        let is_last = i == nodes.len() - 1;
        let suffix = if e.is_dir {
            "/"@
        } else {
            Seq::<char>::empty()
        };
        let out1 = out + prefix + connector(is_last) + e.name@ + suffix + "\n"@;
        let (out2, lines2) = if e.is_dir && depth_left > 1 && !e.is_symlink {
            tree_dir(lang, e.listing, prefix + indent(is_last), (depth_left - 1) as nat, max_lines, out1, lines + 1)
        } else {
            (out1, lines + 1)
        };
        tree_level(lang, nodes, i + 1, prefix, depth_left, max_lines, out2, lines2)
    }
}

/// Text and line count after drawing the contents of one directory.
pub open spec fn tree_dir(
    lang: Lang,
    listing: Listing,
    prefix: Seq<char>,
    depth_left: nat,
    max_lines: nat,
    out: Seq<char>,
    lines: nat,
) -> (Seq<char>, nat)
    decreases listing, 0int,
{
    match listing {
        Listing::Unread => (out, lines),
        Listing::Unreadable(e) => (out + prefix + err_unreadable_text(lang, e@) + "\n"@, lines),
        Listing::Entries(v) => tree_level(lang, v@, 0, prefix, depth_left, max_lines, out, lines),
    }
}

/// The whole tree text: the drawn lines with trailing whitespace removed, or a note that the
/// directory is empty.
pub open spec fn tree_text(lang: Lang, listing: Listing, max_depth: nat, max_lines: nat) -> Seq<char> {
    let out = tree_dir(lang, listing, Seq::<char>::empty(), max_depth, max_lines, Seq::<char>::empty(), 0).0;
    if out.len() == 0 {
        match lang {
            Lang::Ja => "(空のディレクトリ)"@,
            Lang::En => "(empty directory)"@,
        }
    } else {
        trim_end(out)
    }
}

proof fn lemma_level_lines(
    lang: Lang,
    nodes: Seq<TreeNode>,
    i: int,
    prefix: Seq<char>,
    depth_left: nat,
    max_lines: nat,
    out: Seq<char>,
    lines: nat,
)
    requires
        lines <= max_lines,
    ensures
        lines <= tree_level(lang, nodes, i, prefix, depth_left, max_lines, out, lines).1 <= max_lines,
    decreases nodes, nodes.len() - i,
{
    if 0 <= i < nodes.len() && lines < max_lines {
        let e = nodes[i];
        let is_last = i == nodes.len() - 1;
        let suffix = if e.is_dir {
            "/"@
        } else {
            Seq::<char>::empty()
        };
        let out1 = out + prefix + connector(is_last) + e.name@ + suffix + "\n"@;
        if e.is_dir && depth_left > 1 && !e.is_symlink {
            lemma_dir_lines(lang, e.listing, prefix + indent(is_last), (depth_left - 1) as nat, max_lines, out1, lines + 1);
            let (out2, lines2) = tree_dir(lang, e.listing, prefix + indent(is_last), (depth_left - 1) as nat, max_lines, out1, lines + 1);
            lemma_level_lines(lang, nodes, i + 1, prefix, depth_left, max_lines, out2, lines2);
        } else {
            lemma_level_lines(lang, nodes, i + 1, prefix, depth_left, max_lines, out1, lines + 1);
        }
    }
}

proof fn lemma_dir_lines(
    lang: Lang,
    listing: Listing,
    prefix: Seq<char>,
    depth_left: nat,
    max_lines: nat,
    out: Seq<char>,
    lines: nat,
)
    requires
        lines <= max_lines,
    ensures
        lines <= tree_dir(lang, listing, prefix, depth_left, max_lines, out, lines).1 <= max_lines,
    decreases listing, 0int,
{
    if let Listing::Entries(v) = listing {
        lemma_level_lines(lang, v@, 0, prefix, depth_left, max_lines, out, lines);
    }
}

/// However large the directory, the tree draws at most `max_lines` entry lines (a closing `…`
/// line marks where it stopped).
pub proof fn law_tree_draws_at_most_max_lines(lang: Lang, listing: Listing, max_depth: nat, max_lines: nat)
    ensures
        tree_dir(lang, listing, Seq::<char>::empty(), max_depth, max_lines, Seq::<char>::empty(), 0).1 <= max_lines,
{
    lemma_dir_lines(lang, listing, Seq::<char>::empty(), max_depth, max_lines, Seq::<char>::empty(), 0);
}

/// How an entry of a level is drawn when it is a directory the tree descends into: the last
/// entry gets the branch `└── ` and its own entries hang below it indented by four spaces, with
/// no vertical bar; any other entry gets `├── ` and its entries are indented by `│   `, the bar
/// leading on to the entries after it.
pub proof fn law_branches_and_indents(
    lang: Lang,
    nodes: Seq<TreeNode>,
    i: int,
    prefix: Seq<char>,
    depth_left: nat,
    max_lines: nat,
    out: Seq<char>,
    lines: nat,
)
    requires
        0 <= i < nodes.len(),
        lines < max_lines,
        depth_left > 1,
        nodes[i].is_dir,
        !nodes[i].is_symlink,
    ensures
        i == nodes.len() - 1 ==> tree_level(lang, nodes, i, prefix, depth_left, max_lines, out, lines) == tree_dir(
            lang,
            nodes[i].listing,
            prefix + "    "@,
            (depth_left - 1) as nat,
            max_lines,
            out + prefix + "└── "@ + nodes[i].name@ + "/"@ + "\n"@,
            lines + 1,
        ),
        i < nodes.len() - 1 ==> ({
            let (o, l) = tree_dir(
                lang,
                nodes[i].listing,
                prefix + "│   "@,
                (depth_left - 1) as nat,
                max_lines,
                out + prefix + "├── "@ + nodes[i].name@ + "/"@ + "\n"@,
                lines + 1,
            );
            tree_level(lang, nodes, i, prefix, depth_left, max_lines, out, lines) == tree_level(
                lang,
                nodes,
                i + 1,
                prefix,
                depth_left,
                max_lines,
                o,
                l,
            )
        }),
{
    let is_last = i == nodes.len() - 1;
    let out1 = out + prefix + connector(is_last) + nodes[i].name@ + "/"@ + "\n"@;
    let r = tree_dir(lang, nodes[i].listing, prefix + indent(is_last), (depth_left - 1) as nat, max_lines, out1, lines + 1);
    assert(tree_level(lang, nodes, i, prefix, depth_left, max_lines, out, lines) == tree_level(lang, nodes, i + 1, prefix, depth_left, max_lines, r.0, r.1));
    if is_last {
        assert(tree_level(lang, nodes, i + 1, prefix, depth_left, max_lines, r.0, r.1) == r);
    }
}

fn build_dir(
    lang: Lang,
    listing: &Listing,
    prefix: &str,
    depth_left: usize,
    max_lines: usize,
    lines: &mut usize,
    out: &mut String,
)
    requires
        *old(lines) <= max_lines,
    ensures
        (final(out)@, *final(lines) as nat) == tree_dir(lang, *listing, prefix@, depth_left as nat, max_lines as nat, old(out)@, *old(lines) as nat),
        *final(lines) <= max_lines,
    decreases *listing, 0int,
{
    match listing {
        Listing::Unread => {},
        Listing::Unreadable(e) => {
            let msg = err_unreadable(lang, e.as_str());
            out.append(prefix);
            out.append(msg.as_str());
            out.append("\n");
        },
        Listing::Entries(v) => {
            build_level(lang, v, prefix, depth_left, max_lines, lines, out);
        },
    }
}

fn build_level(
    lang: Lang,
    nodes: &Vec<TreeNode>,
    prefix: &str,
    depth_left: usize,
    max_lines: usize,
    lines: &mut usize,
    out: &mut String,
)
    requires
        *old(lines) <= max_lines,
    ensures
        (final(out)@, *final(lines) as nat) == tree_level(lang, nodes@, 0, prefix@, depth_left as nat, max_lines as nat, old(out)@, *old(lines) as nat),
        *final(lines) <= max_lines,
    decreases *nodes, 1int,
{
    let ghost goal = tree_level(lang, nodes@, 0, prefix@, depth_left as nat, max_lines as nat, out@, *lines as nat);
    let mut i: usize = 0;
    while i < nodes.len()
        invariant
            i <= nodes.len(),
            *lines <= max_lines,
            tree_level(lang, nodes@, i as int, prefix@, depth_left as nat, max_lines as nat, out@, *lines as nat) == goal,
            goal == tree_level(lang, nodes@, 0, prefix@, depth_left as nat, max_lines as nat, old(out)@, *old(lines) as nat),
        decreases nodes.len() - i,
    {
        if *lines >= max_lines {
            out.append(prefix);
            out.append("…\n");
            return;
        }
        let e = &nodes[i];
        let is_last = i == nodes.len() - 1;
        out.append(prefix);
        out.append(if is_last { "└── " } else { "├── " });
        out.append(e.name.as_str());
        if e.is_dir {
            out.append("/");
        }
        out.append("\n");
        *lines = *lines + 1;
        if e.is_dir && depth_left > 1 && !e.is_symlink {
            let child_prefix = concat2(prefix, if is_last { "    " } else { "│   " });
            build_dir(lang, &e.listing, child_prefix.as_str(), depth_left - 1, max_lines, lines, out);
        }
        i = i + 1;
    }
}

/// Draws a directory like `tree`: directories first, at most `max_depth` levels and
/// `max_lines` entry lines, without descending into symbolic links.
pub fn tree(lang: Lang, listing: &Listing, max_depth: usize, max_lines: usize) -> (r: String)
    ensures
        r@ == tree_text(lang, *listing, max_depth as nat, max_lines as nat),
{
    let mut out = String::new();
    let mut lines: usize = 0;
    proof {
        reveal_strlit("");
        assert(""@ =~= Seq::<char>::empty());
    }
    build_dir(lang, listing, "", max_depth, max_lines, &mut lines, &mut out);
    if out.as_str().is_empty() {
        owned(empty_directory(lang))
    } else {
        let v = chars_of(out.as_str());
        let b = trim_end_bound(&v);
        string_from_range(&v, 0, b)
    }
}

/// Accepts a canonical path only when it lies under the canonical root (so `..` and symlinks
/// cannot lead a command out of the scratch directory).
pub fn ensure_under_root(canonical_root: &str, canonical_target: &str) -> (r: Result<String, String>)
    ensures
        match r {
            Ok(p) => path_starts_with(canonical_target@, canonical_root@) && p@ == canonical_target@,
            Err(e) => !path_starts_with(canonical_target@, canonical_root@) && e@ == "path escapes scratch root"@,
        },
{
    if path_has_prefix(canonical_target, canonical_root) {
        Ok(owned(canonical_target))
    } else {
        Err(owned("path escapes scratch root"))
    }
}

/// The directory whose canonical form decides whether the entry at `path` itself (perhaps a
/// symlink, perhaps a dangling one) lies under the root: its parent. A path whose last
/// component is not a plain name (`.`, `..`, the root) names no entry of its own and is refused,
/// so that the root itself is never the target.
pub fn parent_to_check(path: &str) -> (r: Result<String, String>)
    ensures
        match r {
            Ok(p) => parent(path@) == Some(p@) && file_name(path@) is Some,
            Err(e) => if parent(path@) is None {
                e@ == "path has no parent"@
            } else {
                file_name(path@) is None && e@ == "invalid name"@
            },
        },
{
    match path_parent(path) {
        Some(p) => if path_file_name(path).is_some() {
            Ok(p)
        } else {
            Err(owned("invalid name"))
        },
        None => Err(owned("path has no parent")),
    }
}

/// Accepts an entry whose canonical parent lies under the canonical root.
pub fn ensure_path_under_root(canonical_root: &str, canonical_parent: &str) -> (r: Result<(), String>)
    ensures
        match r {
            Ok(()) => path_starts_with(canonical_parent@, canonical_root@),
            Err(e) => !path_starts_with(canonical_parent@, canonical_root@) && e@ == "path escapes scratch root"@,
        },
{
    if path_has_prefix(canonical_parent, canonical_root) {
        Ok(())
    } else {
        Err(owned("path escapes scratch root"))
    }
}

/// Where a new entry named `name` goes in `dir`, once the name is found safe.
pub fn create_target(dir: &str, name: &str) -> (r: Result<String, String>)
    ensures
        match r {
            Ok(p) => valid_name(name@) && p@ == join(dir@, name@),
            Err(e) => !valid_name(name@) && e@ == "invalid name"@,
        },
{
    validate_name(name)?;
    Ok(join_path(dir, name))
}

/// Where a rename of the entry at `path` to `new_name` leads: the destination in the same
/// directory, and whether it is the entry's own path (a rename to the same name does nothing).
pub fn rename_target(path: &str, new_name: &str) -> (r: Result<(String, bool), String>)
    ensures
        match r {
            Ok((dest, same)) => valid_name(new_name@) && parent(path@) is Some
                && dest@ == join(parent(path@)->0, new_name@) && same == path_eq(dest@, path@),
            Err(e) => if !valid_name(new_name@) {
                e@ == "invalid name"@
            } else {
                parent(path@) is None && e@ == "could not determine parent directory"@
            },
        },
{
    validate_name(new_name)?;
    let dir = match path_parent(path) {
        Some(d) => d,
        None => {
            return Err(owned("could not determine parent directory"));
        },
    };
    let dest = join_path(dir.as_str(), new_name);
    let same = path_equal(dest.as_str(), path);
    Ok((dest, same))
}

proof fn lemma_shown_not_hidden(raw: Seq<Entry>)
    ensures
        forall|k: int| 0 <= k < shown(raw).len() ==> !is_hidden(#[trigger] shown(raw)[k].name@),
    decreases raw.len(),
{
    if raw.len() > 0 {
        lemma_shown_not_hidden(raw.drop_last());
        let rest = shown(raw.drop_last());
        assert forall|k: int| 0 <= k < shown(raw).len() implies !is_hidden(#[trigger] shown(raw)[k].name@) by {
            if k < rest.len() {
                assert(shown(raw)[k] == rest[k]);
            }
        }
    }
}

proof fn lemma_newest_order_permutes(s: Seq<Entry>)
    ensures
        newest_order(s).to_multiset() == s.to_multiset(),
        newest_order(s).len() == s.len(),
    decreases s.len(),
{
    if s.len() > 0 {
        let o = newest_order(s.drop_last());
        lemma_newest_order_permutes(s.drop_last());
        lemma_count_not_older_bound(o, s.last().modified);
        to_multiset_insert(o, count_not_older(o, s.last().modified) as int, s.last());
        vstd::seq_lib::to_multiset_build(s.drop_last(), s.last());
        assert(s =~= s.drop_last().push(s.last()));
    } else {
        vstd::seq_lib::to_multiset_len(s);
        vstd::seq_lib::to_multiset_len(newest_order(s));
        assert(s.to_multiset() =~= newest_order(s).to_multiset());
    }
}

proof fn lemma_count_not_older_bound(s: Seq<Entry>, m: i128)
    ensures
        count_not_older(s, m) <= s.len(),
    decreases s.len(),
{
    if s.len() > 0 {
        lemma_count_not_older_bound(s.drop_first(), m);
    }
}

/// The listing never shows a hidden name, and shows every other entry exactly once.
pub proof fn law_listing_shows_each_visible_entry_once(raw: Seq<Entry>)
    ensures
        forall|k: int| 0 <= k < newest_order(shown(raw)).len() ==> !is_hidden(#[trigger] newest_order(shown(raw))[k].name@),
        newest_order(shown(raw)).to_multiset() == shown(raw).to_multiset(),
        forall|e: Entry| raw.contains(e) && !is_hidden(e.name@) ==> newest_order(shown(raw)).contains(e),
{
    let l = newest_order(shown(raw));
    lemma_newest_order_permutes(shown(raw));
    lemma_shown_not_hidden(raw);
    lemma_shown_keeps(raw);
    assert forall|k: int| 0 <= k < l.len() implies !is_hidden(#[trigger] l[k].name@) by {
        vstd::seq_lib::to_multiset_contains(l, l[k]);
        assert(l.contains(l[k]));
        vstd::seq_lib::to_multiset_contains(shown(raw), l[k]);
        let j = choose|j: int| 0 <= j < shown(raw).len() && shown(raw)[j] == l[k];
        assert(!is_hidden(shown(raw)[j].name@));
    }
    assert forall|e: Entry| raw.contains(e) && !is_hidden(e.name@) implies l.contains(e) by {
        vstd::seq_lib::to_multiset_contains(shown(raw), e);
        vstd::seq_lib::to_multiset_contains(l, e);
    }
}

proof fn lemma_shown_keeps(raw: Seq<Entry>)
    ensures
        forall|e: Entry| raw.contains(e) && !is_hidden(e.name@) ==> shown(raw).contains(e),
    decreases raw.len(),
{
    if raw.len() > 0 {
        lemma_shown_keeps(raw.drop_last());
        assert forall|e: Entry| raw.contains(e) && !is_hidden(e.name@) implies shown(raw).contains(e) by {
            let j = choose|j: int| 0 <= j < raw.len() && raw[j] == e;
            if j < raw.len() - 1 {
                assert(raw.drop_last()[j] == e);
                assert(raw.drop_last().contains(e));
                let i = choose|i: int| 0 <= i < shown(raw.drop_last()).len() && shown(raw.drop_last())[i] == e;
                if !is_hidden(raw.last().name@) {
                    assert(shown(raw)[i] == e);
                }
            } else {
                let sh = shown(raw);
                assert(sh[sh.len() - 1] == e);
            }
        }
    }
}

} // verus!
