//! The archive sweep as a state machine: it asks the file system for one fact or one change at
//! a time and, from the answers, decides and records what happens to each entry.
use vstd::prelude::*;
use vstd::string::*;

use crate::archive::{
    after_keep_probe, detect_archive_root_conflict, archive_conflict, conflict_text, epoch_secs,
    is_dest_name, is_under_archive, resolve_dest, triage, triage_spec, under_archive, valid_stamp, Fate,
    FateV, Options, Outcome, Report,
};
use crate::i18n::{
    warn_archive_keep_probe_text, warn_archive_mkdir, warn_archive_mkdir_text, warn_archive_move,
    warn_archive_move_text, Lang,
};
use crate::path::join;
use crate::scratch::{list, newest_order, opt_str, opt_string, shown, Entry};

verus! {

/// What the sweep needs from the file system next.
pub enum SweepRequest {
    /// Facts about an entry: its canonical path (if it resolves), whether it is a symbolic link
    /// and its own modification time, not following a link (or why it could not be read).
    Inspect { path: String },
    /// Whether the directory holds the keep marker.
    ProbeKeep { dir: String },
    /// The names present in the archive directory, dangling links included (none when it does
    /// not exist yet).
    ListArchive { dir: String },
    /// Create the archive directory and its parents.
    MakeArchiveDir { dir: String },
    /// Move an entry into the archive.
    Move { from: String, to: String },
}

pub ghost enum SweepRequestV {
    Inspect { path: Seq<char> },
    ProbeKeep { dir: Seq<char> },
    ListArchive { dir: Seq<char> },
    MakeArchiveDir { dir: Seq<char> },
    Move { from: Seq<char>, to: Seq<char> },
}

impl View for SweepRequest {
    type V = SweepRequestV;

    open spec fn view(&self) -> SweepRequestV {
        match self {
            SweepRequest::Inspect { path } => SweepRequestV::Inspect { path: path@ },
            SweepRequest::ProbeKeep { dir } => SweepRequestV::ProbeKeep { dir: dir@ },
            SweepRequest::ListArchive { dir } => SweepRequestV::ListArchive { dir: dir@ },
            SweepRequest::MakeArchiveDir { dir } => SweepRequestV::MakeArchiveDir { dir: dir@ },
            SweepRequest::Move { from, to } => SweepRequestV::Move { from: from@, to: to@ },
        }
    }
}

/// The file system's answer to a [`SweepRequest`].
pub enum SweepAnswer {
    Inspected { canonical: Option<String>, is_symlink: bool, mtime: Result<i128, String> },
    Probed(Result<bool, String>),
    Listed(Vec<String>),
    Done(Result<(), String>),
}

pub ghost enum SweepAnswerV {
    Inspected { canonical: Option<Seq<char>>, is_symlink: bool, mtime: Result<i128, Seq<char>> },
    Probed(Result<bool, Seq<char>>),
    Listed(Seq<String>),
    Done(Result<(), Seq<char>>),
}

impl View for SweepAnswer {
    type V = SweepAnswerV;

    open spec fn view(&self) -> SweepAnswerV {
        match self {
            SweepAnswer::Inspected { canonical, is_symlink, mtime } => SweepAnswerV::Inspected {
                canonical: opt_string(*canonical),
                is_symlink: *is_symlink,
                mtime: match mtime {
                    Ok(m) => Ok(*m),
                    Err(e) => Err(e@),
                },
            },
            SweepAnswer::Probed(Ok(b)) => SweepAnswerV::Probed(Ok(*b)),
            SweepAnswer::Probed(Err(e)) => SweepAnswerV::Probed(Err(e@)),
            SweepAnswer::Listed(v) => SweepAnswerV::Listed(v@),
            SweepAnswer::Done(Ok(())) => SweepAnswerV::Done(Ok(())),
            SweepAnswer::Done(Err(e)) => SweepAnswerV::Done(Err(e@)),
        }
    }
}

/// What the outstanding request is for.
enum Stage {
    Inspecting,
    Probing,
    Making,
    Listing,
    Moving { dest: String },
    Finished,
}

pub ghost enum StageV {
    Inspecting,
    Probing,
    Making,
    Listing,
    Moving(Seq<char>),
    Finished,
}

impl View for Stage {
    type V = StageV;

    closed spec fn view(&self) -> StageV {
        match self {
            Stage::Inspecting => StageV::Inspecting,
            Stage::Probing => StageV::Probing,
            Stage::Making => StageV::Making,
            Stage::Listing => StageV::Listing,
            Stage::Moving { dest } => StageV::Moving(dest@),
            Stage::Finished => StageV::Finished,
        }
    }
}

/// A sweep under way over the listed entries of the root, one at a time in listing order.
pub struct Sweeper {
    lang: Lang,
    opts: Options,
    entries: Vec<Entry>,
    archive_canon: Option<String>,
    next: usize,
    report: Report,
    archive_dir_ready: bool,
    stage: Stage,
    request: Option<SweepRequest>,
}

pub open spec fn outcomes_view(v: Seq<Outcome>) -> Seq<(Seq<char>, Seq<char>)> {
    v.map_values(|o: Outcome| (o.name@, o.dest@))
}

pub open spec fn messages_view(v: Seq<String>) -> Seq<Seq<char>> {
    v.map_values(|m: String| m@)
}

/// The state of a sweep as values.
pub ghost struct SweepV {
    pub lang: Lang,
    pub opts: Options,
    pub entries: Seq<Entry>,
    pub archive_canon: Option<Seq<char>>,
    /// Index of the entry under way; every entry before it is recorded.
    pub next: int,
    pub archived: Seq<(Seq<char>, Seq<char>)>,
    pub kept: int,
    pub errors: Seq<Seq<char>>,
    /// The archive directory was created during this sweep.
    pub ready: bool,
    pub stage: StageV,
    pub request: Option<SweepRequestV>,
}

impl View for Sweeper {
    type V = SweepV;

    closed spec fn view(&self) -> SweepV {
        SweepV {
            lang: self.lang,
            opts: self.opts,
            entries: self.entries@,
            archive_canon: opt_string(self.archive_canon),
            next: self.next as int,
            archived: outcomes_view(self.report.archived@),
            kept: self.report.kept as int,
            errors: messages_view(self.report.errors@),
            ready: self.archive_dir_ready,
            stage: self.stage@,
            request: match self.request {
                Some(r) => Some(r@),
                None => None,
            },
        }
    }
}

/// The entry under way.
pub open spec fn current(s: SweepV) -> Entry {
    s.entries[s.next]
}

/// Moves on to the next entry, or finishes.
pub open spec fn advance(s: SweepV) -> SweepV {
    let n = s.next + 1;
    if n < s.entries.len() {
        SweepV {
            next: n,
            stage: StageV::Inspecting,
            request: Some(SweepRequestV::Inspect { path: s.entries[n].path@ }),
            ..s
        }
    } else {
        SweepV { next: n, stage: StageV::Finished, request: None, ..s }
    }
}

/// Asks for the archive's names, creating the directory first when a real sweep has not yet.
pub open spec fn to_archive(s: SweepV) -> SweepV {
    if s.opts.dry_run || s.ready {
        SweepV {
            stage: StageV::Listing,
            request: Some(SweepRequestV::ListArchive { dir: s.opts.archive_dir@ }),
            ..s
        }
    } else {
        SweepV {
            stage: StageV::Making,
            request: Some(SweepRequestV::MakeArchiveDir { dir: s.opts.archive_dir@ }),
            ..s
        }
    }
}

/// Acts on the decision for the entry under way.
pub open spec fn decide(s: SweepV, fate: FateV) -> SweepV {
    match fate {
        FateV::Kept => advance(SweepV { kept: s.kept + 1, ..s }),
        FateV::Failed(m) => advance(SweepV { errors: s.errors.push(m), ..s }),
        FateV::ProbeKeep => SweepV {
            stage: StageV::Probing,
            request: Some(SweepRequestV::ProbeKeep { dir: current(s).path@ }),
            ..s
        },
        FateV::Archive => to_archive(s),
    }
}

/// A modification time the rules can compare, or the reason it cannot be used.
pub open spec fn usable_mtime(m: Result<i128, Seq<char>>) -> Result<i128, Seq<char>> {
    match m {
        Ok(t) => if valid_stamp(t) {
            Ok(t)
        } else {
            Err("modification time out of range"@)
        },
        Err(e) => Err(e),
    }
}

/// The outcome of the keep-marker probe.
pub open spec fn probe_fate(lang: Lang, name: Seq<char>, r: Result<bool, Seq<char>>) -> FateV {
    match r {
        Ok(true) => FateV::Kept,
        Ok(false) => FateV::Archive,
        Err(e) => FateV::Failed(warn_archive_keep_probe_text(lang, name, e)),
    }
}

/// What an answer does; `dest` is where the entry goes once the archive's names are known.
pub open spec fn sweep_step(s: SweepV, a: SweepAnswerV, dest: Seq<char>) -> SweepV {
    match s.stage {
        StageV::Inspecting => match a {
            SweepAnswerV::Inspected { canonical, is_symlink, mtime } => decide(
                s,
                triage_spec(
                    s.lang,
                    s.opts,
                    current(s),
                    under_archive(current(s).path@, s.opts.archive_dir@, s.archive_canon, canonical),
                    is_symlink,
                    usable_mtime(mtime),
                ),
            ),
            _ => s,
        },
        StageV::Probing => match a {
            SweepAnswerV::Probed(r) => decide(s, probe_fate(s.lang, current(s).name@, r)),
            _ => s,
        },
        StageV::Making => match a {
            SweepAnswerV::Done(Ok(())) => SweepV {
                ready: true,
                stage: StageV::Listing,
                request: Some(SweepRequestV::ListArchive { dir: s.opts.archive_dir@ }),
                ..s
            },
            SweepAnswerV::Done(Err(e)) => advance(
                SweepV { errors: s.errors.push(warn_archive_mkdir_text(s.lang, s.opts.archive_dir@, e)), ..s },
            ),
            _ => s,
        },
        StageV::Listing => match a {
            SweepAnswerV::Listed(_) => if s.opts.dry_run {
                advance(SweepV { archived: s.archived.push((current(s).name@, dest)), ..s })
            } else {
                SweepV {
                    stage: StageV::Moving(dest),
                    request: Some(SweepRequestV::Move { from: current(s).path@, to: dest }),
                    ..s
                }
            },
            _ => s,
        },
        StageV::Moving(d) => match a {
            SweepAnswerV::Done(Ok(())) => advance(SweepV { archived: s.archived.push((current(s).name@, d)), ..s }),
            SweepAnswerV::Done(Err(e)) => advance(
                SweepV { errors: s.errors.push(warn_archive_move_text(s.lang, current(s).name@, d, e)), ..s },
            ),
            _ => s,
        },
        StageV::Finished => s,
    }
}

/// `dest` is where the entry under way goes, given the names already in the archive.
pub open spec fn dest_fits(s: SweepV, a: SweepAnswerV, dest: Seq<char>) -> bool {
    (s.stage is Listing && a is Listed) ==> exists|d: Seq<char>| dest == join(s.opts.archive_dir@, d)
        && is_dest_name(d, current(s).name@, epoch_secs(s.opts.now), a->Listed_0)
}

/// The state invariant: every entry before the one under way is recorded exactly once, and the
/// outstanding request is the one the stage waits for.
pub open spec fn sweep_wf(s: SweepV) -> bool {
    &&& valid_stamp(s.opts.now)
    &&& 0 <= s.next <= s.entries.len()
    &&& s.archived.len() + s.kept + s.errors.len() == s.next
    &&& (s.stage is Finished <==> s.next == s.entries.len())
    &&& (s.stage is Finished <==> s.request is None)
    &&& (s.stage is Inspecting ==> s.request == Some(SweepRequestV::Inspect { path: current(s).path@ }))
    &&& (s.stage is Probing ==> s.request == Some(SweepRequestV::ProbeKeep { dir: current(s).path@ }))
    &&& (s.stage is Making ==> s.request == Some(SweepRequestV::MakeArchiveDir { dir: s.opts.archive_dir@ }) && !s.ready && !s.opts.dry_run)
    &&& (s.stage is Listing ==> s.request == Some(SweepRequestV::ListArchive { dir: s.opts.archive_dir@ }))
    &&& (s.stage matches StageV::Moving(d) ==> s.request == Some(SweepRequestV::Move { from: current(s).path@, to: d }) && !s.opts.dry_run)
}

/// The state of a sweep that starts on the listed entries.
pub open spec fn start_spec(lang: Lang, opts: Options, entries: Seq<Entry>, archive_canon: Option<Seq<char>>) -> SweepV {
    SweepV {
        lang,
        opts,
        entries,
        archive_canon,
        next: 0,
        archived: Seq::<(Seq<char>, Seq<char>)>::empty(),
        kept: 0,
        errors: Seq::<Seq<char>>::empty(),
        ready: false,
        stage: if entries.len() > 0 {
            StageV::Inspecting
        } else {
            StageV::Finished
        },
        request: if entries.len() > 0 {
            Some(SweepRequestV::Inspect { path: entries[0].path@ })
        } else {
            None
        },
    }
}

/// Bounds of the time stamps the rules compare (whole seconds within `u64` either side of the
/// epoch), in nanoseconds.
pub const STAMP_LIMIT: i128 = 18446744073709551616000000000;

/// Whether a time stamp is one the archive rules take (see [`valid_stamp`]).
pub fn stamp_is_valid(t: i128) -> (r: bool)
    ensures
        r == valid_stamp(t),
{
    -STAMP_LIMIT < t && t < STAMP_LIMIT
}

/// The modification time an inspection reports: a symbolic link whose target is missing has
/// none ("broken symlink"), otherwise the entry's own time as read.
pub open spec fn inspected_mtime(is_symlink: bool, target_exists: bool, own: Result<i128, Seq<char>>) -> Result<i128, Seq<char>> {
    if is_symlink && !target_exists {
        Err("broken symlink"@)
    } else {
        own
    }
}

/// The answer to [`SweepRequest::Inspect`] from what was read of the entry: its canonical path
/// (if it resolves), whether it is a symbolic link, whether what it points to exists, and its
/// own modification time (or why that could not be read).
pub fn inspection(canonical: Option<String>, is_symlink: bool, target_exists: bool, own: Result<i128, String>) -> (r: SweepAnswer)
    ensures
        r@ == (SweepAnswerV::Inspected {
            canonical: opt_string(canonical),
            is_symlink,
            mtime: inspected_mtime(is_symlink, target_exists, match own {
                Ok(t) => Ok(t),
                Err(e) => Err(e@),
            }),
        }),
{
    let mtime = if is_symlink && !target_exists {
        proof {
            reveal_strlit("broken symlink");
        }
        Err("broken symlink".to_string())
    } else {
        own
    };
    SweepAnswer::Inspected { canonical, is_symlink, mtime }
}

proof fn lemma_step_keeps_wf(s: SweepV, a: SweepAnswerV, dest: Seq<char>)
    requires
        sweep_wf(s),
    ensures
        sweep_wf(sweep_step(s, a, dest)),
{
}

impl Sweeper {
    pub closed spec fn wf(&self) -> bool {
        sweep_wf(self@)
    }

    /// Starts a sweep of the root's entries as read (`raw`, hidden ones included), newest first.
    /// An archive directory that is the root or one of its ancestors is refused, since every
    /// entry would then count as archived already.
    pub fn new(
        lang: Lang,
        opts: Options,
        raw: Vec<Entry>,
        root_canon: Option<String>,
        archive_canon: Option<String>,
    ) -> (r: Result<Sweeper, String>)
        requires
            valid_stamp(opts.now),
        ensures
            match r {
                Ok(s) => !archive_conflict(opts.root@, opts.archive_dir@, opt_string(root_canon), opt_string(archive_canon))
                    && s.wf() && s@ == start_spec(lang, opts, newest_order(shown(raw@)), opt_string(archive_canon)),
                Err(m) => archive_conflict(opts.root@, opts.archive_dir@, opt_string(root_canon), opt_string(archive_canon))
                    && m@ == conflict_text(opts.root@, opts.archive_dir@),
            },
    {
        let rc = match &root_canon {
            Some(c) => Some(c.as_str()),
            None => None,
        };
        let ac = match &archive_canon {
            Some(c) => Some(c.as_str()),
            None => None,
        };
        assert(opt_str(rc) == opt_string(root_canon));
        assert(opt_str(ac) == opt_string(archive_canon));
        if let Some(m) = detect_archive_root_conflict(opts.root.as_str(), opts.archive_dir.as_str(), rc, ac) {
            return Err(m);
        }
        let entries = list(raw);
        let request = if entries.len() > 0 {
            Some(SweepRequest::Inspect { path: entries[0].path.clone() })
        } else {
            None
        };
        let stage = if entries.len() > 0 {
            Stage::Inspecting
        } else {
            Stage::Finished
        };
        let s = Sweeper {
            lang,
            opts,
            entries,
            archive_canon,
            next: 0,
            report: Report::new(),
            archive_dir_ready: false,
            stage,
            request,
        };
        assert(s@.archived =~= Seq::<(Seq<char>, Seq<char>)>::empty());
        assert(s@.errors =~= Seq::<Seq<char>>::empty());
        assert(s@ == start_spec(lang, s.opts, newest_order(shown(raw@)), opt_string(s.archive_canon)));
        Ok(s)
    }

    /// The request the file system must answer next, or `None` once every entry is done.
    pub fn request(&self) -> (r: Option<&SweepRequest>)
        ensures
            match r {
                Some(q) => self@.request == Some(q@),
                None => self@.request is None,
            },
    {
        match &self.request {
            Some(q) => Some(q),
            None => None,
        }
    }

    /// The tally so far.
    pub fn report(&self) -> (r: &Report)
        ensures
            outcomes_view(r.archived@) == self@.archived,
            r.kept == self@.kept,
            messages_view(r.errors@) == self@.errors,
    {
        &self.report
    }

    /// The tally of the whole sweep.
    pub fn into_report(self) -> (r: Report)
        ensures
            outcomes_view(r.archived@) == self@.archived,
            r.kept == self@.kept,
            messages_view(r.errors@) == self@.errors,
    {
        self.report
    }

    fn advance(&mut self)
        requires
            old(self).next < old(self).entries@.len(),
        ensures
            final(self)@ == advance(old(self)@),
    {
        let n = self.entries.len();
        assert(self.next < n);
        self.next = self.next + 1;
        if self.next < self.entries.len() {
            self.stage = Stage::Inspecting;
            self.request = Some(SweepRequest::Inspect { path: self.entries[self.next].path.clone() });
        } else {
            self.stage = Stage::Finished;
            self.request = None;
        }
    }

    fn to_archive(&mut self)
        ensures
            final(self)@ == to_archive(old(self)@),
    {
        if self.opts.dry_run || self.archive_dir_ready {
            self.stage = Stage::Listing;
            self.request = Some(SweepRequest::ListArchive { dir: self.opts.archive_dir.clone() });
        } else {
            self.stage = Stage::Making;
            self.request = Some(SweepRequest::MakeArchiveDir { dir: self.opts.archive_dir.clone() });
        }
    }

    fn record_error(&mut self, m: String)
        requires
            old(self).next < old(self).entries@.len(),
        ensures
            final(self)@ == advance(SweepV { errors: old(self)@.errors.push(m@), ..old(self)@ }),
    {
        let ghost s = self@;
        let ghost mv = m@;
        self.report.fail(m);
        assert(self@.errors =~= s.errors.push(mv));
        self.advance();
    }

    fn record_archived(&mut self, dest: String)
        requires
            old(self).next < old(self).entries@.len(),
        ensures
            final(self)@ == advance(SweepV {
                archived: old(self)@.archived.push((current(old(self)@).name@, dest@)),
                ..old(self)@
            }),
    {
        let ghost s = self@;
        let o = Outcome { name: self.entries[self.next].name.clone(), dest };
        let ghost ov = (o.name@, o.dest@);
        self.report.archive(o);
        assert(self@.archived =~= s.archived.push(ov));
        self.advance();
    }

    fn decide(&mut self, fate: Fate)
        requires
            old(self).wf(),
            old(self).next < old(self).entries@.len(),
        ensures
            final(self)@ == decide(old(self)@, fate@),
    {
        let ghost s = self@;
        match fate {
            Fate::Kept => {
                let n = self.entries.len();
                assert(self.report.kept < n);
                self.report.keep();
                assert(self@ == (SweepV { kept: s.kept + 1, ..s }));
                self.advance();
            },
            Fate::Failed(m) => self.record_error(m),
            Fate::ProbeKeep => {
                self.stage = Stage::Probing;
                self.request = Some(SweepRequest::ProbeKeep { dir: self.entries[self.next].path.clone() });
            },
            Fate::Archive => self.to_archive(),
        }
    }

    fn on_inspected(&mut self, canonical: Option<String>, is_symlink: bool, mtime: Result<i128, String>)
        requires
            old(self).wf(),
            old(self)@.stage is Inspecting,
        ensures
            final(self)@ == sweep_step(
                old(self)@,
                SweepAnswerV::Inspected {
                    canonical: opt_string(canonical),
                    is_symlink,
                    mtime: match mtime {
                        Ok(m) => Ok(m),
                        Err(e) => Err(e@),
                    },
                },
                Seq::<char>::empty(),
            ),
    {
        let i = self.next;
        let canon = match &canonical {
            Some(c) => Some(c.as_str()),
            None => None,
        };
        let ac = match &self.archive_canon {
            Some(c) => Some(c.as_str()),
            None => None,
        };
        assert(opt_str(canon) == opt_string(canonical));
        assert(opt_str(ac) == self@.archive_canon);
        let under = is_under_archive(self.entries[i].path.as_str(), self.opts.archive_dir.as_str(), ac, canon);
        let usable: Result<i128, String> = match mtime {
            Ok(t) => if -STAMP_LIMIT < t && t < STAMP_LIMIT {
                Ok(t)
            } else {
                Err(String::from_str("modification time out of range"))
            },
            Err(e) => Err(e),
        };
        let fate = triage(self.lang, &self.opts, &self.entries[i], under, is_symlink, &usable);
        self.decide(fate);
    }

    fn on_probed(&mut self, r: Result<bool, String>)
        requires
            old(self).wf(),
            old(self)@.stage is Probing,
        ensures
            final(self)@ == sweep_step(
                old(self)@,
                SweepAnswerV::Probed(match r {
                    Ok(b) => Ok(b),
                    Err(e) => Err(e@),
                }),
                Seq::<char>::empty(),
            ),
    {
        let fate = after_keep_probe(self.lang, self.entries[self.next].name.as_str(), &r);
        self.decide(fate);
    }

    fn on_made(&mut self, r: Result<(), String>)
        requires
            old(self).wf(),
            old(self)@.stage is Making,
        ensures
            final(self)@ == sweep_step(
                old(self)@,
                SweepAnswerV::Done(match r {
                    Ok(()) => Ok(()),
                    Err(e) => Err(e@),
                }),
                Seq::<char>::empty(),
            ),
    {
        match r {
            Ok(()) => {
                self.archive_dir_ready = true;
                self.stage = Stage::Listing;
                self.request = Some(SweepRequest::ListArchive { dir: self.opts.archive_dir.clone() });
            },
            Err(e) => {
                let m = warn_archive_mkdir(self.lang, self.opts.archive_dir.as_str(), e.as_str());
                self.record_error(m);
            },
        }
    }

    fn on_listed(&mut self, taken: Vec<String>) -> (dest: Ghost<Seq<char>>)
        requires
            old(self).wf(),
            old(self)@.stage is Listing,
        ensures
            dest_fits(old(self)@, SweepAnswerV::Listed(taken@), dest@),
            final(self)@ == sweep_step(old(self)@, SweepAnswerV::Listed(taken@), dest@),
    {
        let d = resolve_dest(
            self.opts.archive_dir.as_str(),
            self.entries[self.next].name.as_str(),
            self.opts.now,
            taken.as_slice(),
        );
        let ghost dv = d@;
        if self.opts.dry_run {
            self.record_archived(d);
        } else {
            self.stage = Stage::Moving { dest: d.clone() };
            self.request = Some(SweepRequest::Move { from: self.entries[self.next].path.clone(), to: d });
        }
        Ghost(dv)
    }

    fn on_moved(&mut self, r: Result<(), String>)
        requires
            old(self).wf(),
            old(self)@.stage is Moving,
        ensures
            final(self)@ == sweep_step(
                old(self)@,
                SweepAnswerV::Done(match r {
                    Ok(()) => Ok(()),
                    Err(e) => Err(e@),
                }),
                Seq::<char>::empty(),
            ),
    {
        let dest = match &self.stage {
            Stage::Moving { dest } => dest.clone(),
            _ => String::new(),
        };
        match r {
            Ok(()) => self.record_archived(dest),
            Err(e) => {
                let m = warn_archive_move(self.lang, self.entries[self.next].name.as_str(), dest.as_str(), e.as_str());
                self.record_error(m);
            },
        }
    }

    /// Takes the file system's answer to the outstanding request. An answer of another kind
    /// than the request asked for changes nothing.
    pub fn answer(&mut self, a: SweepAnswer)
        requires
            old(self).wf(),
        ensures
            final(self).wf(),
            exists|dest: Seq<char>| dest_fits(old(self)@, a@, dest) && final(self)@ == sweep_step(old(self)@, a@, dest),
    {
        let ghost s = self@;
        let ghost av = a@;
        let mut dest: Ghost<Seq<char>> = Ghost(Seq::<char>::empty());
        match a {
            SweepAnswer::Inspected { canonical, is_symlink, mtime } => {
                if let Stage::Inspecting = self.stage {
                    self.on_inspected(canonical, is_symlink, mtime);
                }
            },
            SweepAnswer::Probed(r) => {
                if let Stage::Probing = self.stage {
                    self.on_probed(r);
                }
            },
            SweepAnswer::Listed(taken) => {
                if let Stage::Listing = self.stage {
                    dest = self.on_listed(taken);
                }
            },
            SweepAnswer::Done(r) => {
                match self.stage {
                    Stage::Making => self.on_made(r),
                    Stage::Moving { .. } => self.on_moved(r),
                    _ => {},
                }
            },
        }
        proof {
            lemma_step_keeps_wf(s, av, dest@);
        }
        assert(dest_fits(s, av, dest@));
        assert(self@ == sweep_step(s, av, dest@));
    }
}

/// Once no request is left, every entry of the root is accounted for exactly once: archived,
/// kept or reported as an error.
pub proof fn law_finished_sweep_accounts_for_every_entry(s: SweepV)
    requires
        sweep_wf(s),
        s.request is None,
    ensures
        s.archived.len() + s.kept + s.errors.len() == s.entries.len(),
{
}

/// Each answer moves the sweep on by at most one entry, and the entries behind it stay
/// accounted for exactly once.
pub proof fn law_each_answer_records_at_most_one_entry(s: SweepV, a: SweepAnswerV, dest: Seq<char>)
    requires
        sweep_wf(s),
    ensures
        ({
            let t = sweep_step(s, a, dest);
            &&& sweep_wf(t)
            &&& s.next <= t.next <= s.next + 1
            &&& t.archived.len() + t.kept + t.errors.len() == t.next
        }),
{
    lemma_step_keeps_wf(s, a, dest);
}

/// A dry run never asks to create the archive directory or to move anything.
pub proof fn law_dry_run_changes_nothing(s: SweepV, a: SweepAnswerV, dest: Seq<char>)
    requires
        sweep_wf(s),
        s.opts.dry_run,
    ensures
        !(sweep_step(s, a, dest).request matches Some(SweepRequestV::MakeArchiveDir { .. })),
        !(sweep_step(s, a, dest).request matches Some(SweepRequestV::Move { .. })),
{
    lemma_step_keeps_wf(s, a, dest);
}

/// The archive directory is created at most once per sweep: once made, it is never asked for
/// again.
pub proof fn law_archive_dir_is_made_at_most_once(s: SweepV, a: SweepAnswerV, dest: Seq<char>)
    requires
        sweep_wf(s),
        s.ready,
    ensures
        sweep_step(s, a, dest).ready,
        !(sweep_step(s, a, dest).request matches Some(SweepRequestV::MakeArchiveDir { .. })),
{
    lemma_step_keeps_wf(s, a, dest);
}

/// An entry goes into the archive only under a name the archive does not hold yet (unless
/// every numbered name is taken).
pub proof fn law_moves_never_overwrite(s: SweepV, a: SweepAnswerV, dest: Seq<char>)
    requires
        sweep_wf(s),
        s.stage is Listing,
        a is Listed,
        dest_fits(s, a, dest),
        !s.opts.dry_run,
    ensures
        sweep_step(s, a, dest).request == Some(SweepRequestV::Move { from: current(s).path@, to: dest }),
        exists|d: Seq<char>| dest == join(s.opts.archive_dir@, d)
            && is_dest_name(d, current(s).name@, epoch_secs(s.opts.now), a->Listed_0),
{
}

} // verus!
