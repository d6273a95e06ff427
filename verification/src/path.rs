//! Unix path logic on text: components as `std::path::Path` reads them, joining, parents and prefixes.
use vstd::prelude::*;
use vstd::string::*;

use crate::text::{chars_of, concat2, str_eq};

verus! {

/// One component of a path, as `std::path::Component` distinguishes them on Unix.
pub ghost enum Comp {
    Root,
    Cur,
    Parent,
    Normal(Seq<char>),
}

/// The runs of characters between `/` separators, empty runs included.
pub open spec fn pieces(s: Seq<char>) -> Seq<Seq<char>>
    decreases s.len(),
{
    if s.len() == 0 {
        seq![Seq::<char>::empty()]
    } else {
        let ps = pieces(s.drop_last());
        if s.last() == '/' {
            ps.push(Seq::<char>::empty())
        } else {
            ps.update(ps.len() - 1, ps.last().push(s.last()))
        }
    }
}

/// The components that a run list contributes: empty runs and `.` vanish, `..` is a parent step.
pub open spec fn comps_of_pieces(ps: Seq<Seq<char>>) -> Seq<Comp>
    decreases ps.len(),
{
    if ps.len() == 0 {
        Seq::<Comp>::empty()
    } else {
        let rest = comps_of_pieces(ps.drop_last());
        let p = ps.last();
        if p.len() == 0 || p == seq!['.'] {
            rest
        } else if p == seq!['.', '.'] {
            rest.push(Comp::Parent)
        } else {
            rest.push(Comp::Normal(p))
        }
    }
}

/// The components of a path: a leading `/` gives the root, a relative path that starts with
/// the run `.` keeps it as the current directory, and the remaining runs follow.
pub open spec fn comps(s: Seq<char>) -> Seq<Comp> {
    let ps = pieces(s);
    let head = if s.len() > 0 && s[0] == '/' {
        seq![Comp::Root]
    } else if ps[0] == seq!['.'] {
        seq![Comp::Cur]
    } else {
        Seq::<Comp>::empty()
    };
    head + comps_of_pieces(ps)
}

/// Two paths are equal as `Path`s: same components.
pub open spec fn path_eq(a: Seq<char>, b: Seq<char>) -> bool {
    comps(a) == comps(b)
}

/// `Path::starts_with`: the components of `base` begin the components of `p`.
pub open spec fn path_starts_with(p: Seq<char>, base: Seq<char>) -> bool {
    comps(base).is_prefix_of(comps(p))
}

pub open spec fn is_absolute(p: Seq<char>) -> bool {
    p.len() > 0 && p[0] == '/'
}

/// `Path::join` for a plain name or relative path: an absolute `name` replaces `dir`, an empty
/// `dir` gives `name`, otherwise a `/` separates the two unless `dir` already ends with one.
pub open spec fn join(dir: Seq<char>, name: Seq<char>) -> Seq<char> {
    if is_absolute(name) || dir.len() == 0 {
        name
    } else if dir.last() == '/' {
        dir + name
    } else {
        dir + seq!['/'] + name
    }
}

/// The text of a component list: the root is `/`, the others are separated by `/`.
pub open spec fn render(cs: Seq<Comp>) -> Seq<char>
    decreases cs.len(),
{
    if cs.len() == 0 {
        Seq::<char>::empty()
    } else {
        let front = render(cs.drop_last());
        let piece = match cs.last() {
            Comp::Root => seq!['/'],
            Comp::Cur => seq!['.'],
            Comp::Parent => seq!['.', '.'],
            Comp::Normal(n) => n,
        };
        if cs.last() is Root {
            piece
        } else if front.len() == 0 || front.last() == '/' {
            front + piece
        } else {
            front + seq!['/'] + piece
        }
    }
}

/// `Path::parent`: the path without its last component, or `None` for the root and the empty path.
pub open spec fn parent(p: Seq<char>) -> Option<Seq<char>> {
    let cs = comps(p);
    if cs.len() == 0 || cs.last() is Root {
        None
    } else {
        Some(render(cs.drop_last()))
    }
}

/// `Path::file_name`: the last component when it is a plain name.
pub open spec fn file_name(p: Seq<char>) -> Option<Seq<char>> {
    let cs = comps(p);
    if cs.len() > 0 && cs.last() is Normal {
        Some(cs.last()->Normal_0)
    } else {
        None
    }
}

/// Component-level `..` resolution without touching the file system: `..` drops the previous
/// plain name (never the root), `.` vanishes.
pub open spec fn normalize_comps(cs: Seq<Comp>) -> Seq<Comp>
    decreases cs.len(),
{
    if cs.len() == 0 {
        Seq::<Comp>::empty()
    } else {
        let out = normalize_comps(cs.drop_last());
        match cs.last() {
            Comp::Parent => if out.len() > 0 && out.last() is Normal {
                out.drop_last()
            } else {
                out
            },
            Comp::Cur => out,
            c => out.push(c),
        }
    }
}

/// Executable counterpart of [`Comp`].
pub enum PathComp {
    Root,
    Cur,
    Parent,
    Normal(String),
}

impl View for PathComp {
    type V = Comp;

    open spec fn view(&self) -> Comp {
        match self {
            PathComp::Root => Comp::Root,
            PathComp::Cur => Comp::Cur,
            PathComp::Parent => Comp::Parent,
            PathComp::Normal(s) => Comp::Normal(s@),
        }
    }
}

pub open spec fn comps_view(v: Seq<PathComp>) -> Seq<Comp> {
    Seq::new(v.len(), |i: int| v[i]@)
}

proof fn lemma_pieces_nonempty(s: Seq<char>)
    ensures
        pieces(s).len() >= 1,
    decreases s.len(),
{
    if s.len() > 0 {
        lemma_pieces_nonempty(s.drop_last());
    }
}

/// The runs between separators, computed left to right.
fn split_pieces(v: &[char]) -> (r: Vec<String>)
    ensures
        r@.len() == pieces(v@).len(),
        forall|i: int| 0 <= i < r@.len() ==> #[trigger] r@[i]@ == pieces(v@)[i],
{
    let mut done: Vec<String> = Vec::new();
    let mut cur: String = String::new();
    let mut i: usize = 0;
    while i < v.len()
        invariant
            i <= v.len(),
            pieces(v@.subrange(0, i as int)).len() == done@.len() + 1,
            forall|k: int| 0 <= k < done@.len() ==> #[trigger] done@[k]@ == pieces(v@.subrange(0, i as int))[k],
            cur@ == pieces(v@.subrange(0, i as int)).last(),
        decreases v.len() - i,
    {
        proof {
            assert(v@.subrange(0, i + 1).drop_last() =~= v@.subrange(0, i as int));
            lemma_pieces_nonempty(v@.subrange(0, i as int));
        }
        if v[i] == '/' {
            done.push(cur);
            cur = String::new();
        } else {
            cur.push(v[i]);
        }
        i = i + 1;
    }
    proof {
        assert(v@.subrange(0, v@.len() as int) =~= v@);
    }
    done.push(cur);
    done
}

/// Components of a path as `Path::components` yields them.
pub fn components(p: &str) -> (r: Vec<PathComp>)
    ensures
        comps_view(r@) == comps(p@),
{
    let v = chars_of(p);
    let ps = split_pieces(&v);
    let ghost psv = pieces(v@);
    proof {
        lemma_pieces_nonempty(v@);
    }
    let ghost spec_head = if v@.len() > 0 && v@[0] == '/' {
        seq![Comp::Root]
    } else if psv[0] == seq!['.'] {
        seq![Comp::Cur]
    } else {
        Seq::<Comp>::empty()
    };
    proof {
        reveal_strlit(".");
        reveal_strlit("..");
        assert("."@ =~= seq!['.']);
        assert(".."@ =~= seq!['.', '.']);
    }
    let mut out: Vec<PathComp> = Vec::new();
    if v.len() > 0 && v[0] == '/' {
        out.push(PathComp::Root);
        assert(comps_view(out@) =~= spec_head);
    } else if str_eq(ps[0].as_str(), ".") {
        out.push(PathComp::Cur);
        assert(comps_view(out@) =~= spec_head);
    } else {
        assert(ps@[0]@ != seq!['.']);
        assert(comps_view(out@) =~= spec_head);
    }
    let ghost head = spec_head;
    let mut i: usize = 0;
    while i < ps.len()
        invariant
            i <= ps@.len(),
            ps@.len() == psv.len(),
            forall|k: int| 0 <= k < ps@.len() ==> #[trigger] ps@[k]@ == psv[k],
            comps_view(out@) == head + comps_of_pieces(psv.subrange(0, i as int)),
        decreases ps.len() - i,
    {
        proof {
            assert(psv.subrange(0, i + 1).drop_last() =~= psv.subrange(0, i as int));
            reveal_strlit(".");
            reveal_strlit("..");
            assert("."@ =~= seq!['.']);
            assert(".."@ =~= seq!['.', '.']);
        }
        let piece = &ps[i];
        let ghost before = out@;
        assert(piece@ == psv[i as int]);
        if piece.as_str().is_empty() || str_eq(piece.as_str(), ".") {
            assert(psv[i as int].len() == 0 || psv[i as int] == seq!['.']);
        } else if str_eq(piece.as_str(), "..") {
            assert(psv[i as int] == seq!['.', '.']);
            out.push(PathComp::Parent);
            assert(comps_view(out@) =~= comps_view(before).push(Comp::Parent));
        } else {
            assert(psv[i as int].len() != 0 && psv[i as int] != seq!['.'] && psv[i as int] != seq!['.', '.']);
            out.push(PathComp::Normal(piece.clone()));
            assert(comps_view(out@) =~= comps_view(before).push(Comp::Normal(psv[i as int])));
        }
        i = i + 1;
    }
    proof {
        assert(psv.subrange(0, psv.len() as int) =~= psv);
    }
    out
}

fn comp_eq(a: &PathComp, b: &PathComp) -> (r: bool)
    ensures
        r == (a@ == b@),
{
    match a {
        PathComp::Root => match b {
            PathComp::Root => true,
            _ => false,
        },
        PathComp::Cur => match b {
            PathComp::Cur => true,
            _ => false,
        },
        PathComp::Parent => match b {
            PathComp::Parent => true,
            _ => false,
        },
        PathComp::Normal(x) => match b {
            PathComp::Normal(y) => str_eq(x.as_str(), y.as_str()),
            _ => false,
        },
    }
}

/// Whether the component list `base` begins the component list `p`.
pub fn comps_have_prefix(p: &[PathComp], base: &[PathComp]) -> (r: bool)
    ensures
        r == comps_view(base@).is_prefix_of(comps_view(p@)),
{
    if base.len() > p.len() {
        return false;
    }
    let mut i: usize = 0;
    while i < base.len()
        invariant
            base.len() <= p.len(),
            i <= base.len(),
            forall|k: int| 0 <= k < i ==> comps_view(base@)[k] == comps_view(p@)[k],
        decreases base.len() - i,
    {
        if !comp_eq(&p[i], &base[i]) {
            assert(comps_view(p@).subrange(0, base@.len() as int)[i as int] != comps_view(base@)[i as int]);
            return false;
        }
        i = i + 1;
    }
    assert(comps_view(p@).subrange(0, base@.len() as int) =~= comps_view(base@));
    true
}

/// Whether two component lists are equal.
pub fn comps_equal(a: &[PathComp], b: &[PathComp]) -> (r: bool)
    ensures
        r == (comps_view(a@) == comps_view(b@)),
{
    if a.len() != b.len() {
        assert(comps_view(a@).len() != comps_view(b@).len());
        return false;
    }
    let r = comps_have_prefix(a, b);
    if r {
        assert(comps_view(a@) =~= comps_view(b@));
    }
    r
}

/// `Path == Path`.
pub fn path_equal(a: &str, b: &str) -> (r: bool)
    ensures
        r == path_eq(a@, b@),
{
    let x = components(a);
    let y = components(b);
    comps_equal(&x, &y)
}

/// `Path::starts_with`.
pub fn path_has_prefix(p: &str, base: &str) -> (r: bool)
    ensures
        r == path_starts_with(p@, base@),
{
    let x = components(p);
    let y = components(base);
    comps_have_prefix(&x, &y)
}

/// A run that yields a component: neither empty nor `.`.
pub open spec fn is_real(piece: Seq<char>) -> bool {
    piece.len() > 0 && piece != seq!['.']
}

/// How many runs yield a component.
pub open spec fn real_count(ps: Seq<Seq<char>>) -> nat
    decreases ps.len(),
{
    if ps.len() == 0 {
        0
    } else {
        real_count(ps.drop_last()) + if is_real(ps.last()) { 1nat } else { 0nat }
    }
}

/// The position just after the `m`-th run that yields a component (0 when `m` is 0).
pub open spec fn after_reals(ps: Seq<Seq<char>>, m: nat) -> nat
    decreases ps.len(),
{
    if m == 0 || ps.len() == 0 {
        0
    } else if is_real(ps[0]) {
        1 + after_reals(ps.drop_first(), (m - 1) as nat)
    } else {
        1 + after_reals(ps.drop_first(), m)
    }
}

/// The runs without the leading ones that yield no component.
pub open spec fn trim_front_pieces(ps: Seq<Seq<char>>) -> Seq<Seq<char>>
    decreases ps.len(),
{
    if ps.len() > 0 && !is_real(ps[0]) {
        trim_front_pieces(ps.drop_first())
    } else {
        ps
    }
}

/// The runs without the trailing ones that yield no component.
pub open spec fn trim_back_pieces(ps: Seq<Seq<char>>) -> Seq<Seq<char>>
    decreases ps.len(),
{
    if ps.len() > 0 && !is_real(ps.last()) {
        trim_back_pieces(ps.drop_last())
    } else {
        ps
    }
}

/// Runs joined by `/`.
pub open spec fn join_pieces(ps: Seq<Seq<char>>) -> Seq<char>
    decreases ps.len(),
{
    if ps.len() == 0 {
        Seq::<char>::empty()
    } else if ps.len() == 1 {
        ps[0]
    } else {
        join_pieces(ps.drop_last()) + seq!['/'] + ps.last()
    }
}

/// `Path::strip_prefix`: when the components of `base` begin those of `p`, the text of `p` that
/// follows them, as written (doubled `/` and inner `.` kept), without the leading and trailing
/// separators and `.` runs that `Components::as_path` drops; `p` itself when `base` has no
/// component.
pub open spec fn strip_prefix(p: Seq<char>, base: Seq<char>) -> Option<Seq<char>> {
    if !path_starts_with(p, base) {
        None
    } else if comps(base).len() == 0 {
        Some(p)
    } else {
        let ps = pieces(p);
        let rest = ps.skip(after_reals(ps, real_count(pieces(base))) as int);
        Some(join_pieces(trim_back_pieces(trim_front_pieces(rest))))
    }
}

fn is_real_piece(piece: &str) -> (r: bool)
    ensures
        r == is_real(piece@),
{
    proof {
        reveal_strlit(".");
        assert("."@ =~= seq!['.']);
    }
    piece.unicode_len() > 0 && !str_eq(piece, ".")
}

proof fn lemma_trim_front_step(ps: Seq<Seq<char>>, a: int)
    requires
        0 <= a < ps.len(),
        !is_real(ps[a]),
    ensures
        trim_front_pieces(ps.skip(a)) == trim_front_pieces(ps.skip(a + 1)),
{
    assert(ps.skip(a).drop_first() =~= ps.skip(a + 1));
}

proof fn lemma_trim_back_step(ps: Seq<Seq<char>>, a: int, b: int)
    requires
        0 <= a < b <= ps.len(),
        !is_real(ps[b - 1]),
    ensures
        trim_back_pieces(ps.subrange(a, b)) == trim_back_pieces(ps.subrange(a, b - 1)),
{
    assert(ps.subrange(a, b).drop_last() =~= ps.subrange(a, b - 1));
}

/// `Path::strip_prefix`, the rest of `p` as written.
pub fn path_strip_prefix(p: &str, base: &str) -> (r: Option<String>)
    ensures
        match r {
            Some(s) => strip_prefix(p@, base@) == Some(s@),
            None => strip_prefix(p@, base@) is None,
        },
{
    let x = components(p);
    let y = components(base);
    if !comps_have_prefix(&x, &y) {
        return None;
    }
    if y.len() == 0 {
        return Some(String::from_str(p));
    }
    let pv = chars_of(p);
    let ps = split_pieces(&pv);
    let bv = chars_of(base);
    let bs = split_pieces(&bv);
    let ghost P = pieces(pv@);
    let ghost B = pieces(bv@);
    // How many runs of `base` yield a component.
    let mut m: usize = 0;
    let mut i: usize = 0;
    assert(B.take(0) =~= Seq::<Seq<char>>::empty());
    while i < bs.len()
        invariant
            i <= bs@.len(),
            bs@.len() == B.len(),
            forall|k: int| 0 <= k < bs@.len() ==> #[trigger] bs@[k]@ == B[k],
            m as nat == real_count(B.take(i as int)),
            m <= i,
        decreases bs.len() - i,
    {
        assert(B.take(i + 1).drop_last() =~= B.take(i as int));
        if is_real_piece(bs[i].as_str()) {
            m = m + 1;
        }
        i = i + 1;
    }
    assert(B.take(B.len() as int) =~= B);
    // Skip the runs of `p` up to the `m`-th that yields a component.
    let mut j: usize = 0;
    let mut k: usize = m;
    assert(P.skip(0) =~= P);
    while k > 0 && j < ps.len()
        invariant
            j <= ps@.len(),
            ps@.len() == P.len(),
            forall|q: int| 0 <= q < ps@.len() ==> #[trigger] ps@[q]@ == P[q],
            after_reals(P, real_count(B)) == j + after_reals(P.skip(j as int), k as nat),
        decreases ps.len() - j,
    {
        assert(P.skip(j as int).drop_first() =~= P.skip(j + 1));
        assert(P.skip(j as int)[0] == P[j as int]);
        if is_real_piece(ps[j].as_str()) {
            k = k - 1;
        }
        j = j + 1;
    }
    assert(after_reals(P, real_count(B)) == j);
    // Drop the leading runs that yield no component.
    let mut a: usize = j;
    while a < ps.len() && !is_real_piece(ps[a].as_str())
        invariant
            j <= a <= ps@.len(),
            ps@.len() == P.len(),
            forall|q: int| 0 <= q < ps@.len() ==> #[trigger] ps@[q]@ == P[q],
            trim_front_pieces(P.skip(j as int)) == trim_front_pieces(P.skip(a as int)),
        decreases ps.len() - a,
    {
        proof {
            lemma_trim_front_step(P, a as int);
        }
        a = a + 1;
    }
    assert(trim_front_pieces(P.skip(a as int)) == P.skip(a as int));
    assert(P.skip(a as int) =~= P.subrange(a as int, P.len() as int));
    // Drop the trailing ones.
    let mut b: usize = ps.len();
    while b > a && !is_real_piece(ps[b - 1].as_str())
        invariant
            a <= b <= ps@.len(),
            ps@.len() == P.len(),
            forall|q: int| 0 <= q < ps@.len() ==> #[trigger] ps@[q]@ == P[q],
            trim_back_pieces(P.subrange(a as int, P.len() as int)) == trim_back_pieces(P.subrange(a as int, b as int)),
        decreases b,
    {
        proof {
            lemma_trim_back_step(P, a as int, b as int);
        }
        b = b - 1;
    }
    assert(trim_back_pieces(P.subrange(a as int, b as int)) == P.subrange(a as int, b as int));
    // Join what is left with `/`.
    let mut out = String::new();
    let mut q: usize = a;
    assert(P.subrange(a as int, a as int) =~= Seq::<Seq<char>>::empty());
    while q < b
        invariant
            a <= q <= b <= ps@.len(),
            ps@.len() == P.len(),
            forall|t: int| 0 <= t < ps@.len() ==> #[trigger] ps@[t]@ == P[t],
            out@ == join_pieces(P.subrange(a as int, q as int)),
        decreases b - q,
    {
        let ghost before = out@;
        assert(P.subrange(a as int, q + 1).drop_last() =~= P.subrange(a as int, q as int));
        assert(P.subrange(a as int, q + 1).last() == P[q as int]);
        if q > a {
            out.push('/');
        } else {
            assert(P.subrange(a as int, q + 1) =~= seq![P[q as int]]);
        }
        out.append(ps[q].as_str());
        assert(out@ == join_pieces(P.subrange(a as int, q + 1)));
        q = q + 1;
    }
    Some(out)
}

/// `Path::join` of a directory and a name.
pub fn join_path(dir: &str, name: &str) -> (r: String)
    ensures
        r@ == join(dir@, name@),
{
    if (!name.is_empty() && name.get_char(0) == '/') || dir.is_empty() {
        return String::from_str(name);
    }
    let n = dir.unicode_len();
    if dir.get_char(n - 1) == '/' {
        concat2(dir, name)
    } else {
        let mut r = String::from_str(dir);
        r.push('/');
        r.append(name);
        r
    }
}

/// The text of a component list.
pub fn render_comps(cs: &[PathComp]) -> (r: String)
    ensures
        r@ == render(comps_view(cs@)),
{
    let mut out = String::new();
    let mut i: usize = 0;
    while i < cs.len()
        invariant
            i <= cs.len(),
            out@ == render(comps_view(cs@).subrange(0, i as int)),
        decreases cs.len() - i,
    {
        proof {
            assert(comps_view(cs@).subrange(0, i + 1).drop_last() =~= comps_view(cs@).subrange(0, i as int));
            reveal_strlit(".");
            reveal_strlit("..");
            assert("."@ =~= seq!['.']);
            assert(".."@ =~= seq!['.', '.']);
        }
        let ghost front = out@;
        match &cs[i] {
            PathComp::Root => {
                out = String::new();
                out.push('/');
                assert(out@ =~= seq!['/']);
            },
            _ => {
                let piece: &str = match &cs[i] {
                    PathComp::Cur => ".",
                    PathComp::Parent => "..",
                    PathComp::Normal(n) => n.as_str(),
                    PathComp::Root => "/",
                };
                let len = out.as_str().unicode_len();
                if len == 0 || out.as_str().get_char(len - 1) == '/' {
                    out.append(piece);
                } else {
                    out.push('/');
                    out.append(piece);
                    assert(out@ =~= front + seq!['/'] + piece@);
                }
            },
        }
        i = i + 1;
    }
    assert(comps_view(cs@).subrange(0, cs@.len() as int) =~= comps_view(cs@));
    out
}

/// `Path::parent`.
pub fn path_parent(p: &str) -> (r: Option<String>)
    ensures
        match r {
            Some(s) => parent(p@) == Some(s@),
            None => parent(p@) is None,
        },
{
    let mut cs = components(p);
    if cs.len() == 0 {
        return None;
    }
    match &cs[cs.len() - 1] {
        PathComp::Root => {
            return None;
        },
        _ => {},
    }
    let ghost before = cs@;
    cs.pop();
    assert(comps_view(cs@) =~= comps_view(before).drop_last());
    Some(render_comps(&cs))
}

/// `Path::file_name`.
pub fn path_file_name(p: &str) -> (r: Option<String>)
    ensures
        match r {
            Some(s) => file_name(p@) == Some(s@),
            None => file_name(p@) is None,
        },
{
    let cs = components(p);
    if cs.len() == 0 {
        return None;
    }
    match &cs[cs.len() - 1] {
        PathComp::Normal(n) => Some(n.clone()),
        _ => None,
    }
}

/// `..` resolved on the component list, without following links.
pub fn normalize(cs: &[PathComp]) -> (r: Vec<PathComp>)
    ensures
        comps_view(r@) == normalize_comps(comps_view(cs@)),
{
    let mut out: Vec<PathComp> = Vec::new();
    let mut i: usize = 0;
    while i < cs.len()
        invariant
            i <= cs.len(),
            comps_view(out@) == normalize_comps(comps_view(cs@).subrange(0, i as int)),
        decreases cs.len() - i,
    {
        proof {
            assert(comps_view(cs@).subrange(0, i + 1).drop_last() =~= comps_view(cs@).subrange(0, i as int));
        }
        let ghost before = out@;
        match &cs[i] {
            PathComp::Parent => {
                let n = out.len();
                if n > 0 {
                    let is_normal = match &out[n - 1] {
                        PathComp::Normal(_) => true,
                        _ => false,
                    };
                    if is_normal {
                        out.pop();
                        assert(comps_view(out@) =~= comps_view(before).drop_last());
                    }
                }
            },
            PathComp::Cur => {},
            PathComp::Root => {
                out.push(PathComp::Root);
                assert(comps_view(out@) =~= comps_view(before).push(Comp::Root));
            },
            PathComp::Normal(s) => {
                out.push(PathComp::Normal(s.clone()));
                assert(comps_view(out@) =~= comps_view(before).push(Comp::Normal(s@)));
            },
        }
        i = i + 1;
    }
    assert(comps_view(cs@).subrange(0, cs@.len() as int) =~= comps_view(cs@));
    out
}

/// A path with `.` and `..` resolved lexically (the text of its normalized components).
pub fn lexical_normalize(p: &str) -> (r: String)
    ensures
        r@ == render(normalize_comps(comps(p@))),
{
    let cs = components(p);
    let n = normalize(&cs);
    render_comps(&n)
}

} // verus!
