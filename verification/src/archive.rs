//! Archive rules: TTL parsing, keep globs, destination naming and the per-entry triage of a sweep.
use vstd::prelude::*;
use vstd::string::*;

use crate::i18n::{
    warn_archive_keep_probe, warn_archive_keep_probe_text, warn_archive_mtime, warn_archive_mtime_text, Lang,
};
use crate::path::{
    comps, comps_equal, comps_have_prefix, components, join, join_path, normalize, normalize_comps,
    path_eq, path_equal, path_has_prefix, path_starts_with,
};
use crate::scratch::Entry;
use crate::text::{
    all_digits, ascii_lower, ascii_lower_from, ascii_lower_seq, chars_of, concat2, concat3, decimal,
    decimal_string, digits_value, is_ascii_digit, is_ascii_upper, is_ws, lemma_trim_idempotent,
    lemma_trim_of_trimmed, owned, str_eq, string_from_chars, string_from_range, trim, trim_bounds,
};

verus! {

/// Name of the default archive directory under the scratch root (hidden, so it stays out of the list).
pub const DEFAULT_ARCHIVE_DIRNAME: &'static str = ".archive";

/// Marker file that protects a directory from being archived.
pub const KEEP_MARKER: &'static str = ".keep";

/// Length of the run of ASCII digits at the start of `s`.
pub open spec fn leading_digits(s: Seq<char>) -> nat
    decreases s.len(),
{
    if s.len() > 0 && is_ascii_digit(s[0]) {
        1 + leading_digits(s.drop_first())
    } else {
        0
    }
}

/// Seconds per unit, for a unit already lowercased; `None` for an unknown unit.
pub open spec fn unit_factor(u: Seq<char>) -> Option<nat> {
    if u == Seq::<char>::empty() || u == seq!['s'] {
        Some(1)
    } else if u == seq!['m'] {
        Some(60)
    } else if u == seq!['h'] {
        Some(3600)
    } else if u == seq!['d'] {
        Some(86400)
    } else if u == seq!['w'] {
        Some(604800)
    } else {
        None
    }
}

/// What a TTL text means: a positive count of seconds, or the error text.
/// The text is trimmed; it is a run of decimal digits that fits in `u64` and is not zero,
/// followed by an optional unit `s`, `m`, `h`, `d` or `w` (any case); the product must fit in `u64`.
pub open spec fn duration_spec(s: Seq<char>) -> Result<nat, Seq<char>> {
    let t = trim(s);
    let k = leading_digits(t);
    let n = digits_value(t.subrange(0, k as int));
    let unit = ascii_lower_seq(t.subrange(k as int, t.len() as int));
    if t.len() == 0 {
        Err("empty duration"@)
    } else if k == 0 || n > u64::MAX {
        Err("invalid duration: "@ + t)
    } else if n == 0 {
        Err("duration must be > 0"@)
    } else {
        match unit_factor(unit) {
            None => Err("unknown duration unit: "@ + unit),
            Some(f) => if n * f > u64::MAX {
                Err("duration overflow"@)
            } else {
                Ok(n * f)
            },
        }
    }
}

proof fn lemma_leading_digits(s: Seq<char>, k: int)
    requires
        0 <= k <= s.len(),
        forall|i: int| 0 <= i < k ==> is_ascii_digit(#[trigger] s[i]),
        k == s.len() || !is_ascii_digit(s[k]),
    ensures
        leading_digits(s) == k,
    decreases k,
{
    if k > 0 {
        let t = s.drop_first();
        assert forall|i: int| 0 <= i < k - 1 implies is_ascii_digit(#[trigger] t[i]) by {
            assert(t[i] == s[i + 1]);
        }
        if k - 1 < t.len() {
            assert(t[k - 1] == s[k]);
        }
        lemma_leading_digits(t, k - 1);
    }
}

pub(crate) proof fn lemma_digits_prefix_monotone(s: Seq<char>, j: int, k: int)
    requires
        0 <= j <= k <= s.len(),
    ensures
        digits_value(s.subrange(0, j)) <= digits_value(s.subrange(0, k)),
    decreases k - j,
{
    if j < k {
        lemma_digits_prefix_monotone(s, j, k - 1);
        assert(s.subrange(0, k).drop_last() =~= s.subrange(0, k - 1));
    }
}

/// Parses a TTL such as `30d`, `12h`, `45m`, `60s`, `2w` or a bare count of seconds, into seconds.
/// Units may be upper case and surrounding whitespace is ignored; zero is refused so that a
/// slip cannot archive everything.
pub fn parse_duration(s: &str) -> (r: Result<u64, String>)
    ensures
        match r {
            Ok(v) => duration_spec(s@) == Ok::<nat, Seq<char>>(v as nat),
            Err(e) => duration_spec(s@) == Err::<nat, Seq<char>>(e@),
        },
{
    let raw = chars_of(s);
    let (a, b) = trim_bounds(&raw);
    let t = string_from_range(&raw, a, b);
    let tv = chars_of(t.as_str());
    let ghost ts = trim(s@);
    assert(tv@ == ts);
    if tv.len() == 0 {
        return Err(owned("empty duration"));
    }
    let mut k: usize = 0;
    let mut n: u64 = 0;
    let mut overflow = false;
    while k < tv.len() && '0' <= tv[k] && tv[k] <= '9'
        invariant
            k <= tv.len(),
            forall|i: int| 0 <= i < k ==> is_ascii_digit(#[trigger] tv@[i]),
            !overflow ==> n as nat == digits_value(tv@.subrange(0, k as int)),
            overflow ==> digits_value(tv@.subrange(0, k as int)) > u64::MAX,
        decreases tv.len() - k,
    {
        let d: u64 = ((tv[k] as u32) - 48) as u64;
        proof {
            assert(tv@.subrange(0, k + 1).drop_last() =~= tv@.subrange(0, k as int));
            lemma_digits_prefix_monotone(tv@, k as int, k + 1);
        }
        if !overflow {
            if n > (u64::MAX - d) / 10 {
                overflow = true;
            } else {
                n = n * 10 + d;
            }
        }
        k = k + 1;
    }
    proof {
        lemma_leading_digits(tv@, k as int);
        if overflow {
            lemma_digits_prefix_monotone(tv@, k as int, k as int);
        }
    }
    if k == 0 || overflow {
        return Err(concat2("invalid duration: ", t.as_str()));
    }
    if n == 0 {
        return Err(owned("duration must be > 0"));
    }
    let unit = ascii_lower_from(&tv, k);
    let factor: u64 = if unit.len() == 0 || (unit.len() == 1 && unit[0] == 's') {
        1
    } else if unit.len() == 1 && unit[0] == 'm' {
        60
    } else if unit.len() == 1 && unit[0] == 'h' {
        3600
    } else if unit.len() == 1 && unit[0] == 'd' {
        86400
    } else if unit.len() == 1 && unit[0] == 'w' {
        604800
    } else {
        0
    };
    proof {
        if unit.len() == 1 {
            assert(unit@ =~= seq![unit@[0]]);
        }
        if unit.len() == 0 {
            assert(unit@ =~= Seq::<char>::empty());
        }
    }
    if factor == 0 {
        let us = string_from_chars(&unit);
        return Err(concat2("unknown duration unit: ", us.as_str()));
    }
    match n.checked_mul(factor) {
        Some(v) => Ok(v),
        None => Err(owned("duration overflow")),
    }
}

/// Glob match with `*` (any run, also empty) and `?` (any one character); every other
/// character matches itself.
pub open spec fn glob(p: Seq<char>, n: Seq<char>) -> bool
    decreases p.len(), n.len(),
{
    if p.len() == 0 {
        n.len() == 0
    } else if p[0] == '*' {
        glob(p.drop_first(), n) || (n.len() > 0 && glob(p, n.drop_first()))
    } else if p[0] == '?' {
        n.len() > 0 && glob(p.drop_first(), n.drop_first())
    } else {
        n.len() > 0 && n[0] == p[0] && glob(p.drop_first(), n.drop_first())
    }
}

/// A keep pattern: a trailing `/` restricts it to directories, the rest is a glob on the name.
pub open spec fn keep_pattern_matches(p: Seq<char>, name: Seq<char>, is_dir: bool) -> bool {
    if p.len() > 0 && p.last() == '/' {
        is_dir && glob(p.drop_last(), name)
    } else {
        glob(p, name)
    }
}

pub open spec fn any_keep_match(patterns: Seq<String>, name: Seq<char>, is_dir: bool) -> bool {
    exists|i: int| 0 <= i < patterns.len() && keep_pattern_matches(patterns[i]@, name, is_dir)
}

fn match_chars(p: &[char], pi: usize, n: &[char], ni: usize) -> (r: bool)
    requires
        pi <= p.len(),
        ni <= n.len(),
    ensures
        r == glob(p@.subrange(pi as int, p@.len() as int), n@.subrange(ni as int, n@.len() as int)),
    decreases p.len() - pi, n.len() - ni,
{
    let ghost ps = p@.subrange(pi as int, p@.len() as int);
    let ghost ns = n@.subrange(ni as int, n@.len() as int);
    if pi == p.len() {
        return ni == n.len();
    }
    assert(ps[0] == p@[pi as int]);
    assert(ps.drop_first() =~= p@.subrange(pi + 1, p@.len() as int));
    if ni < n.len() {
        assert(ns[0] == n@[ni as int]);
        assert(ns.drop_first() =~= n@.subrange(ni + 1, n@.len() as int));
    }
    let c = p[pi];
    if c == '*' {
        if match_chars(p, pi + 1, n, ni) {
            return true;
        }
        if ni < n.len() {
            return match_chars(p, pi, n, ni + 1);
        }
        false
    } else if c == '?' {
        ni < n.len() && match_chars(p, pi + 1, n, ni + 1)
    } else {
        ni < n.len() && n[ni] == c && match_chars(p, pi + 1, n, ni + 1)
    }
}

/// Whether `name` matches the glob `pattern` as a whole.
fn glob_match_raw(pattern: &[char], name: &[char]) -> (r: bool)
    ensures
        r == glob(pattern@, name@),
{
    assert(pattern@.subrange(0, pattern@.len() as int) =~= pattern@);
    assert(name@.subrange(0, name@.len() as int) =~= name@);
    match_chars(pattern, 0, name, 0)
}

/// Whether one keep pattern protects an entry (`longterm/` only protects directories).
pub fn glob_match_one(pattern: &str, name: &str, is_dir: bool) -> (r: bool)
    ensures
        r == keep_pattern_matches(pattern@, name@, is_dir),
{
    let p = chars_of(pattern);
    let n = chars_of(name);
    if p.len() > 0 && p[p.len() - 1] == '/' {
        let q = string_from_range(&p, 0, p.len() - 1);
        let qv = chars_of(q.as_str());
        assert(qv@ =~= p@.drop_last());
        is_dir && glob_match_raw(&qv, &n)
    } else {
        glob_match_raw(&p, &n)
    }
}

/// Whether any of the keep patterns protects an entry.
pub fn is_keep_match(patterns: &[String], name: &str, is_dir: bool) -> (r: bool)
    ensures
        r == any_keep_match(patterns@, name@, is_dir),
{
    let mut i: usize = 0;
    while i < patterns.len()
        invariant
            i <= patterns.len(),
            forall|j: int| 0 <= j < i ==> !keep_pattern_matches(#[trigger] patterns@[j]@, name@, is_dir),
        decreases patterns.len() - i,
    {
        if glob_match_one(patterns[i].as_str(), name, is_dir) {
            return true;
        }
        i = i + 1;
    }
    false
}

/// Nanoseconds in a second.
pub const NANOS_PER_SEC: i128 = 1_000_000_000;

/// A time stamp (nanoseconds since the Unix epoch, negative before it) that `SystemTime` can
/// hold, so that its whole seconds since the epoch fit in `u64`.
pub open spec fn valid_stamp(t: i128) -> bool {
    -((u64::MAX as int + 1) * 1_000_000_000) < t < (u64::MAX as int + 1) * 1_000_000_000
}

/// Whole seconds from the epoch to `t`, and 0 for a time before the epoch.
pub open spec fn epoch_secs(t: i128) -> nat {
    if t >= 0 {
        (t / 1_000_000_000) as nat
    } else {
        0
    }
}

/// The `k`-th name tried for an archived entry: the name itself, then `<name>.<ts>`, then
/// `<name>.<ts>_<k-1>`.
pub open spec fn candidate(name: Seq<char>, ts: nat, k: nat) -> Seq<char> {
    if k == 0 {
        name
    } else if k == 1 {
        name + seq!['.'] + decimal(ts)
    } else {
        name + seq!['.'] + decimal(ts) + seq!['_'] + decimal((k - 1) as nat)
    }
}

/// The name used once every numbered candidate is taken.
pub open spec fn overflow_candidate(name: Seq<char>, ts: nat) -> Seq<char> {
    name + seq!['.'] + decimal(ts) + "_overflow"@
}

/// The largest candidate index: the counter runs up to `u32::MAX`.
pub open spec fn last_candidate() -> nat {
    u32::MAX as nat + 1
}

pub open spec fn is_taken(taken: Seq<String>, c: Seq<char>) -> bool {
    exists|i: int| 0 <= i < taken.len() && taken[i]@ == c
}

/// `r` is the first free candidate, or the overflow name when all of them are taken.
pub open spec fn is_dest_name(r: Seq<char>, name: Seq<char>, ts: nat, taken: Seq<String>) -> bool {
    ||| exists|k: nat|
        #![trigger candidate(name, ts, k)]
        k <= last_candidate() && r == candidate(name, ts, k) && !is_taken(taken, r) && forall|j: nat|
            j < k ==> is_taken(taken, #[trigger] candidate(name, ts, j))
    ||| r == overflow_candidate(name, ts) && forall|j: nat|
        j <= last_candidate() ==> is_taken(taken, #[trigger] candidate(name, ts, j))
}

fn taken_contains(taken: &[String], c: &str) -> (r: bool)
    ensures
        r == is_taken(taken@, c@),
{
    let mut i: usize = 0;
    while i < taken.len()
        invariant
            i <= taken.len(),
            forall|j: int| 0 <= j < i ==> taken@[j]@ != c@,
        decreases taken.len() - i,
    {
        if str_eq(taken[i].as_str(), c) {
            return true;
        }
        i = i + 1;
    }
    false
}

/// Whole seconds since the epoch of a valid stamp.
pub fn stamp_secs(t: i128) -> (r: u64)
    requires
        valid_stamp(t),
    ensures
        r as nat == epoch_secs(t),
{
    if t >= 0 {
        (t / NANOS_PER_SEC) as u64
    } else {
        0
    }
}

/// Destination of an archived entry: `<archive_dir>/<name>`, or on a collision with one of the
/// names already present in the archive directory (`taken`, broken links included)
/// `<name>.<unix_ts>`, then `<name>.<unix_ts>_1`, `_2`, ...
pub fn resolve_dest(archive_dir: &str, name: &str, now: i128, taken: &[String]) -> (r: String)
    requires
        valid_stamp(now),
    ensures
        exists|d: Seq<char>| r@ == join(archive_dir@, d) && is_dest_name(d, name@, epoch_secs(now), taken@),
{
    let ts = stamp_secs(now);
    let ghost tsn = ts as nat;
    proof {
        reveal_strlit(".");
        reveal_strlit("_");
        assert("."@ =~= seq!['.']);
        assert("_"@ =~= seq!['_']);
    }
    if !taken_contains(taken, name) {
        assert(forall|j: nat| j < 0 ==> is_taken(taken@, #[trigger] candidate(name@, tsn, j)));
        assert(candidate(name@, tsn, 0) == name@);
        assert(is_dest_name(name@, name@, tsn, taken@));
        let r = join_path(archive_dir, name);
        assert(r@ == join(archive_dir@, name@));
        return r;
    }
    let tsd = decimal_string(ts);
    let base = concat3(name, ".", tsd.as_str());
    assert(base@ == candidate(name@, tsn, 1));
    if !taken_contains(taken, base.as_str()) {
        assert forall|j: nat| j < 1 implies is_taken(taken@, #[trigger] candidate(name@, tsn, j)) by {}
        assert(is_dest_name(base@, name@, tsn, taken@));
        let r = join_path(archive_dir, base.as_str());
        assert(r@ == join(archive_dir@, base@));
        return r;
    }
    let mut counter: u64 = 1;
    while counter <= u32::MAX as u64
        invariant
            1 <= counter <= u32::MAX as u64 + 1,
            "_"@ == seq!['_'],
            tsn == epoch_secs(now),
            base@ == name@ + seq!['.'] + decimal(tsn),
            forall|j: nat| j < counter + 1 ==> is_taken(taken@, #[trigger] candidate(name@, tsn, j)),
        decreases u32::MAX as u64 + 1 - counter,
    {
        let cd = decimal_string(counter);
        let cand = concat3(base.as_str(), "_", cd.as_str());
        assert(cand@ == candidate(name@, tsn, (counter + 1) as nat));
        if !taken_contains(taken, cand.as_str()) {
            assert(is_dest_name(cand@, name@, tsn, taken@));
            let r = join_path(archive_dir, cand.as_str());
            assert(r@ == join(archive_dir@, cand@));
            return r;
        }
        counter = counter + 1;
    }
    let over = concat2(base.as_str(), "_overflow");
    assert(over@ =~= overflow_candidate(name@, tsn));
    assert(is_dest_name(over@, name@, tsn, taken@));
    let r = join_path(archive_dir, over.as_str());
    assert(r@ == join(archive_dir@, over@));
    r
}

/// One entry moved (or, in a dry run, to be moved) into the archive.
pub struct Outcome {
    pub name: String,
    pub dest: String,
}

/// Tally of a sweep: what was archived, how many entries were kept, and one message per
/// entry that was skipped on an error.
pub struct Report {
    pub archived: Vec<Outcome>,
    pub kept: usize,
    pub errors: Vec<String>,
}

/// Parameters of a sweep. `ttl` is in seconds; `now` is nanoseconds since the Unix epoch.
pub struct Options {
    pub root: String,
    pub archive_dir: String,
    pub ttl: u64,
    pub keep_patterns: Vec<String>,
    pub dry_run: bool,
    pub now: i128,
}

impl Report {
    /// An empty report.
    pub fn new() -> (r: Report)
        ensures
            r.archived@.len() == 0,
            r.kept == 0,
            r.errors@.len() == 0,
    {
        Report { archived: Vec::new(), kept: 0, errors: Vec::new() }
    }

    /// Counts one kept entry.
    pub fn keep(&mut self)
        requires
            old(self).kept < usize::MAX,
        ensures
            final(self).kept == old(self).kept + 1,
            final(self).archived@ == old(self).archived@,
            final(self).errors@ == old(self).errors@,
    {
        self.kept = self.kept + 1;
    }

    /// Records one entry skipped on an error.
    pub fn fail(&mut self, msg: String)
        ensures
            final(self).errors@ == old(self).errors@.push(msg),
            final(self).kept == old(self).kept,
            final(self).archived@ == old(self).archived@,
    {
        self.errors.push(msg);
    }

    /// Records one archived entry.
    pub fn archive(&mut self, o: Outcome)
        ensures
            final(self).archived@ == old(self).archived@.push(o),
            final(self).kept == old(self).kept,
            final(self).errors@ == old(self).errors@,
    {
        self.archived.push(o);
    }
}

/// The archive directory is the scratch root or one of its ancestors. Canonical paths are
/// compared when both exist; otherwise the paths are compared with `.` and `..` resolved lexically.
pub open spec fn archive_conflict(
    root: Seq<char>,
    archive_dir: Seq<char>,
    root_canon: Option<Seq<char>>,
    arch_canon: Option<Seq<char>>,
) -> bool {
    if root_canon is Some && arch_canon is Some {
        path_eq(root_canon->0, arch_canon->0) || path_starts_with(root_canon->0, arch_canon->0)
    } else {
        let r = normalize_comps(comps(root));
        let a = normalize_comps(comps(archive_dir));
        r == a || a.is_prefix_of(r)
    }
}

/// Text of the error that aborts a sweep whose archive directory contains the root.
pub open spec fn conflict_text(root: Seq<char>, archive_dir: Seq<char>) -> Seq<char> {
    "archive_dir ("@ + archive_dir + ") is the same as or an ancestor of root ("@ + root
        + "); sweep would no-op"@
}

/// Refuses an archive directory that is the root or an ancestor of it, since then every entry
/// would count as already archived and the sweep would silently do nothing. `root_canon` and
/// `arch_canon` are the canonical forms of the two paths where they could be resolved.
pub fn detect_archive_root_conflict(
    root: &str,
    archive_dir: &str,
    root_canon: Option<&str>,
    arch_canon: Option<&str>,
) -> (r: Option<String>)
    ensures
        r is Some <==> archive_conflict(root@, archive_dir@, crate::scratch::opt_str(root_canon), crate::scratch::opt_str(arch_canon)),
        r matches Some(m) ==> m@ == conflict_text(root@, archive_dir@),
{
    let conflict = match (root_canon, arch_canon) {
        (Some(rc), Some(ac)) => path_equal(rc, ac) || path_has_prefix(rc, ac),
        _ => {
            let r = normalize(&components(root));
            let a = normalize(&components(archive_dir));
            comps_equal(&r, &a) || comps_have_prefix(&r, &a)
        },
    };
    if conflict {
        let mut m = String::from_str("archive_dir (");
        m.append(archive_dir);
        m.append(") is the same as or an ancestor of root (");
        m.append(root);
        m.append("); sweep would no-op");
        Some(m)
    } else {
        None
    }
}

/// Whether an entry lies in the archive directory, or contains it. Canonical paths are
/// compared when both are known, the paths as given otherwise.
pub open spec fn under_archive(
    entry: Seq<char>,
    archive_dir: Seq<char>,
    archive_canon: Option<Seq<char>>,
    entry_canon: Option<Seq<char>>,
) -> bool {
    if archive_canon is Some && entry_canon is Some {
        path_starts_with(entry_canon->0, archive_canon->0) || path_starts_with(archive_canon->0, entry_canon->0)
    } else {
        path_starts_with(entry, archive_dir) || path_starts_with(archive_dir, entry)
    }
}

/// Whether the entry at `entry` lies in the archive directory or contains it.
pub fn is_under_archive(entry: &str, archive_dir: &str, archive_canon: Option<&str>, entry_canon: Option<&str>) -> (r: bool)
    ensures
        r == under_archive(entry@, archive_dir@, crate::scratch::opt_str(archive_canon), crate::scratch::opt_str(entry_canon)),
{
    match (archive_canon, entry_canon) {
        (Some(ac), Some(ec)) => path_has_prefix(ec, ac) || path_has_prefix(ac, ec),
        _ => path_has_prefix(entry, archive_dir) || path_has_prefix(archive_dir, entry),
    }
}

/// What a sweep does with one entry.
pub enum Fate {
    /// Counted as kept.
    Kept,
    /// Skipped with this message.
    Failed(String),
    /// A directory past its TTL: whether it holds the keep marker decides.
    ProbeKeep,
    /// Past its TTL and not protected: move it.
    Archive,
}

/// [`Fate`] with the message as text.
pub ghost enum FateV {
    Kept,
    Failed(Seq<char>),
    ProbeKeep,
    Archive,
}

impl View for Fate {
    type V = FateV;

    open spec fn view(&self) -> FateV {
        match self {
            Fate::Kept => FateV::Kept,
            Fate::Failed(m) => FateV::Failed(m@),
            Fate::ProbeKeep => FateV::ProbeKeep,
            Fate::Archive => FateV::Archive,
        }
    }
}

/// The decision for one entry, given whether it lies in the archive, whether it is a
/// symbolic link and its own modification time (or why that could not be read). An entry is
/// old when more than the TTL has passed since its modification; a modification time in the
/// future never counts as old.
pub open spec fn triage_spec(
    lang: Lang,
    opts: Options,
    entry: Entry,
    under_archive: bool,
    is_symlink: bool,
    mtime: Result<i128, Seq<char>>,
) -> FateV {
    if under_archive {
        FateV::Kept
    } else if any_keep_match(opts.keep_patterns@, entry.name@, entry.is_dir) {
        FateV::Kept
    } else {
        match mtime {
            Err(e) => FateV::Failed(warn_archive_mtime_text(lang, entry.name@, e)),
            Ok(m) => if opts.now < m {
                FateV::Kept
            } else if opts.now - m <= opts.ttl * 1_000_000_000 {
                FateV::Kept
            } else if entry.is_dir && !is_symlink {
                FateV::ProbeKeep
            } else {
                FateV::Archive
            },
        }
    }
}

pub open spec fn mtime_view(m: Result<i128, String>) -> Result<i128, Seq<char>> {
    match m {
        Ok(t) => Ok(t),
        Err(e) => Err(e@),
    }
}

/// Decides what a sweep does with one entry, up to the keep-marker probe of old directories.
pub fn triage(
    lang: Lang,
    opts: &Options,
    entry: &Entry,
    under_archive: bool,
    is_symlink: bool,
    mtime: &Result<i128, String>,
) -> (r: Fate)
    requires
        valid_stamp(opts.now),
        mtime matches Ok(m) ==> valid_stamp(*m),
    ensures
        r@ == triage_spec(lang, *opts, *entry, under_archive, is_symlink, mtime_view(*mtime)),
{
    if under_archive {
        return Fate::Kept;
    }
    if is_keep_match(opts.keep_patterns.as_slice(), entry.name.as_str(), entry.is_dir) {
        return Fate::Kept;
    }
    match mtime {
        Err(e) => Fate::Failed(warn_archive_mtime(lang, entry.name.as_str(), e.as_str())),
        Ok(m) => {
            let m = *m;
            if opts.now < m {
                Fate::Kept
            } else if opts.now - m <= (opts.ttl as i128) * NANOS_PER_SEC {
                Fate::Kept
            } else if entry.is_dir && !is_symlink {
                Fate::ProbeKeep
            } else {
                Fate::Archive
            }
        },
    }
}

/// The decision for an old directory once its keep marker was probed: present keeps it, absent
/// archives it, a failed probe skips it with a warning (erring on the protected side).
pub fn after_keep_probe(lang: Lang, name: &str, probe: &Result<bool, String>) -> (r: Fate)
    ensures
        r@ == (match probe {
            Ok(true) => FateV::Kept,
            Ok(false) => FateV::Archive,
            Err(e) => FateV::Failed(warn_archive_keep_probe_text(lang, name@, e@)),
        }),
{
    match probe {
        Ok(true) => Fate::Kept,
        Ok(false) => Fate::Archive,
        Err(e) => Fate::Failed(warn_archive_keep_probe(lang, name, e.as_str())),
    }
}

/// A TTL is never zero: whatever parses is a positive number of seconds.
pub proof fn law_duration_is_positive(s: Seq<char>)
    ensures
        duration_spec(s) matches Ok(n) ==> n > 0,
{
    let t = trim(s);
    let k = leading_digits(t);
    let n = digits_value(t.subrange(0, k as int));
    let unit = ascii_lower_seq(t.subrange(k as int, t.len() as int));
    if let Some(f) = unit_factor(unit) {
        if n > 0 {
            assert(n * f > 0) by (nonlinear_arith)
                requires
                    n > 0,
                    f > 0,
            ;
        }
    }
}

/// Whitespace around a TTL does not change what it means.
pub proof fn law_duration_ignores_surrounding_whitespace(s: Seq<char>)
    ensures
        duration_spec(trim(s)) == duration_spec(s),
{
    lemma_trim_idempotent(s);
}

/// A unit letter means the same in upper case: `30D` is `30d` (for a count that fits in
/// `u64`; a larger one is reported with the text as written).
pub proof fn law_duration_unit_ignores_case(digits: Seq<char>, c: char)
    requires
        digits.len() > 0,
        all_digits(digits),
        digits_value(digits) <= u64::MAX,
        is_ascii_upper(c),
    ensures
        duration_spec(digits.push(c)) == duration_spec(digits.push(ascii_lower(c))),
{
    let a = digits.push(c);
    let lc = ascii_lower(c);
    let b = digits.push(lc);
    assert('a' <= lc && lc <= 'z');
    assert(!is_ascii_upper(lc));
    assert(!is_ascii_digit(c) && !is_ascii_digit(lc));
    assert(is_ascii_digit(digits[0]));
    assert(!is_ws(a[0]) && !is_ws(a.last()));
    assert(!is_ws(b[0]) && !is_ws(b.last()));
    lemma_trim_of_trimmed(a);
    lemma_trim_of_trimmed(b);
    assert forall|i: int| 0 <= i < digits.len() implies is_ascii_digit(#[trigger] a[i]) by {
        assert(a[i] == digits[i]);
    }
    assert forall|i: int| 0 <= i < digits.len() implies is_ascii_digit(#[trigger] b[i]) by {
        assert(b[i] == digits[i]);
    }
    lemma_leading_digits(a, digits.len() as int);
    lemma_leading_digits(b, digits.len() as int);
    assert(a.subrange(0, digits.len() as int) =~= digits);
    assert(b.subrange(0, digits.len() as int) =~= digits);
    assert(ascii_lower_seq(a.subrange(digits.len() as int, a.len() as int)) =~= seq![ascii_lower(c)]);
    assert(ascii_lower_seq(b.subrange(digits.len() as int, b.len() as int)) =~= seq![ascii_lower(ascii_lower(c))]);
    assert(ascii_lower(ascii_lower(c)) == ascii_lower(c));
}

/// A pattern without `*` or `?` matches exactly the name it spells.
pub proof fn law_literal_pattern_matches_exactly(p: Seq<char>, n: Seq<char>)
    requires
        forall|i: int| 0 <= i < p.len() ==> #[trigger] p[i] != '*' && p[i] != '?',
    ensures
        glob(p, n) <==> p == n,
    decreases p.len(),
{
    if p.len() > 0 && n.len() > 0 {
        assert forall|i: int| 0 <= i < p.drop_first().len() implies #[trigger] p.drop_first()[i] != '*' && p.drop_first()[i] != '?' by {
            assert(p.drop_first()[i] == p[i + 1]);
        }
        law_literal_pattern_matches_exactly(p.drop_first(), n.drop_first());
        if p[0] == n[0] && p.drop_first() == n.drop_first() {
            assert(p =~= seq![p[0]] + p.drop_first());
            assert(n =~= seq![n[0]] + n.drop_first());
        }
        if p == n {
            assert(p.drop_first() =~= n.drop_first());
        }
    } else if p.len() > 0 {
        assert(p != n);
    } else if n.len() > 0 {
        assert(p != n);
    } else {
        assert(p =~= n);
    }
}

/// A `*` followed by literal text matches exactly the names that end with that text: `*.md`
/// keeps `notes.md` and never `old.txt`.
pub proof fn law_star_then_literal_matches_suffixes(s: Seq<char>, n: Seq<char>)
    requires
        forall|i: int| 0 <= i < s.len() ==> #[trigger] s[i] != '*' && s[i] != '?',
    ensures
        glob(seq!['*'] + s, n) <==> s.is_suffix_of(n),
    decreases n.len(),
{
    let p = seq!['*'] + s;
    assert(p[0] == '*');
    assert(p.drop_first() =~= s);
    law_literal_pattern_matches_exactly(s, n);
    if n.len() > 0 {
        law_star_then_literal_matches_suffixes(s, n.drop_first());
        let m = n.drop_first();
        if s.len() < n.len() {
            assert(n.subrange(n.len() - s.len(), n.len() as int) =~= m.subrange(m.len() - s.len(), m.len() as int));
            if s == n {
                assert(s.len() == n.len());
            }
        } else if s.len() == n.len() {
            assert(n.subrange(0, n.len() as int) =~= n);
            assert(!s.is_suffix_of(m));
        } else {
            assert(!s.is_suffix_of(m));
            assert(s != n);
        }
    } else {
        if s.len() == 0 {
            assert(n.subrange(0, 0) =~= s);
            assert(s =~= n);
        }
    }
}

/// A keep pattern ending in `/` never keeps a file, and keeps a directory exactly when the
/// rest of the pattern matches its name.
pub proof fn law_trailing_slash_keeps_directories_only(p: Seq<char>, name: Seq<char>)
    ensures
        !keep_pattern_matches(p.push('/'), name, false),
        keep_pattern_matches(p.push('/'), name, true) == glob(p, name),
{
    assert(p.push('/').drop_last() =~= p);
}

/// An entry modified no longer ago than the TTL, or in the future, is kept.
pub proof fn law_young_entries_are_kept(
    lang: Lang,
    opts: Options,
    entry: Entry,
    under_archive: bool,
    is_symlink: bool,
    m: i128,
)
    requires
        opts.now - m <= opts.ttl * 1_000_000_000,
    ensures
        triage_spec(lang, opts, entry, under_archive, is_symlink, Ok(m)) == FateV::Kept,
{
}

} // verus!
