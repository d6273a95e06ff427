//! Screen layout that does not depend on the terminal library: popup geometry, line wrapping,
//! truncation and the texts each mode shows.
use vstd::prelude::*;
use vstd::string::*;

use crate::app::Mode;
use crate::clock::{local_time_or_dash, time_column};
use crate::i18n::{
    confirm_action_prompt, confirm_action_prompt_text, footer_action_pick, footer_action_pick_text,
    footer_browse, footer_browse_text, footer_confirm, footer_confirm_action, footer_confirm_action_text,
    footer_confirm_text, footer_help_close, footer_help_close_text, footer_input, footer_input_text,
    footer_search, footer_search_text, header_search, header_search_text, empty_hint, empty_hint_text,
    empty_search_hint, empty_search_hint_text, preview_dir_title, preview_dir_title_text, preview_file_title,
    preview_file_title_text, Lang,
};
use crate::text::{chars_of, owned, string_from_range};

verus! {

/// The time column of the file list: the entry's modification as `MM/DD HH:MM` in local time,
/// or `-` when it cannot be placed.
pub fn list_time(modified: i128) -> (r: String)
    ensures
        time_column(modified, "%m/%d %H:%M"@, r@),
{
    proof {
        reveal_strlit("%m/%d %H:%M");
    }
    local_time_or_dash(modified, "%m/%d %H:%M")
}

/// The title of the preview pane: the directory title when a directory is selected, the file
/// title otherwise.
pub fn preview_title(lang: Lang, dir_selected: bool) -> (r: &'static str)
    ensures
        r@ == (if dir_selected { preview_dir_title_text(lang) } else { preview_file_title_text(lang) }),
{
    if dir_selected {
        preview_dir_title(lang)
    } else {
        preview_file_title(lang)
    }
}

/// The hint an empty list shows: the filter's hint while a query is typed, the plain one
/// otherwise.
pub fn empty_list_hint(lang: Lang, searching: bool) -> (r: &'static str)
    ensures
        r@ == (if searching { empty_search_hint_text(lang) } else { empty_hint_text(lang) }),
{
    if searching {
        empty_search_hint(lang)
    } else {
        empty_hint(lang)
    }
}

/// A rectangle of terminal cells.
#[derive(Clone, Copy, PartialEq, Eq, Debug, Structural)]
pub struct Area {
    pub x: u16,
    pub y: u16,
    pub width: u16,
    pub height: u16,
}

/// Whether a rectangle stays within the terminal's coordinates.
pub open spec fn area_fits(a: Area) -> bool {
    a.x + a.width <= u16::MAX && a.y + a.height <= u16::MAX
}

/// A popup of at most `width` x `height` cells centred in `area`, two columns narrower than
/// the area at most.
pub open spec fn centered_spec(area: Area, width: u16, height: u16) -> Area {
    let avail = if area.width >= 2 {
        area.width - 2
    } else {
        0
    };
    let w = if width <= avail {
        width as int
    } else {
        avail
    };
    let h = if height <= area.height {
        height as int
    } else {
        area.height as int
    };
    Area {
        x: (area.x + (area.width - w) / 2) as u16,
        y: (area.y + (area.height - h) / 2) as u16,
        width: w as u16,
        height: h as u16,
    }
}

pub fn centered(area: Area, width: u16, height: u16) -> (r: Area)
    requires
        area_fits(area),
    ensures
        r == centered_spec(area, width, height),
        area_fits(r),
{
    let avail = if area.width >= 2 {
        area.width - 2
    } else {
        0
    };
    let w = if width <= avail {
        width
    } else {
        avail
    };
    let h = if height <= area.height {
        height
    } else {
        area.height
    };
    Area { x: area.x + (area.width - w) / 2, y: area.y + (area.height - h) / 2, width: w, height: h }
}

/// The lines of a text: the runs between line feeds, empty ones included.
pub open spec fn lines_of(s: Seq<char>) -> Seq<Seq<char>>
    decreases s.len(),
{
    if s.len() == 0 {
        seq![Seq::<char>::empty()]
    } else {
        let ls = lines_of(s.drop_last());
        if s.last() == '\n' {
            ls.push(Seq::<char>::empty())
        } else {
            ls.update(ls.len() - 1, ls.last().push(s.last()))
        }
    }
}

/// A non-empty line cut into rows of `w` characters, the last row holding the rest.
pub open spec fn chunks(l: Seq<char>, w: nat) -> Seq<Seq<char>>
    decreases l.len(),
{
    if w == 0 || l.len() <= w {
        seq![l]
    } else {
        seq![l.subrange(0, w as int)] + chunks(l.subrange(w as int, l.len() as int), w)
    }
}

/// The rows of one line: an empty line stays one empty row.
pub open spec fn line_rows(l: Seq<char>, w: nat) -> Seq<Seq<char>> {
    if l.len() == 0 {
        seq![Seq::<char>::empty()]
    } else {
        chunks(l, w)
    }
}

pub open spec fn rows_of_lines(ls: Seq<Seq<char>>, w: nat) -> Seq<Seq<char>>
    decreases ls.len(),
{
    if ls.len() == 0 {
        Seq::<Seq<char>>::empty()
    } else {
        rows_of_lines(ls.drop_last(), w) + line_rows(ls.last(), w)
    }
}

/// The rows of a text wrapped at `inner_w` characters (at least one).
pub open spec fn wrap_spec(s: Seq<char>, inner_w: nat) -> Seq<Seq<char>> {
    rows_of_lines(lines_of(s), if inner_w == 0 {
        1
    } else {
        inner_w
    })
}

pub open spec fn rows_view(v: Seq<String>) -> Seq<Seq<char>> {
    v.map_values(|r: String| r@)
}

proof fn lemma_lines_nonempty(s: Seq<char>)
    ensures
        lines_of(s).len() >= 1,
    decreases s.len(),
{
    if s.len() > 0 {
        lemma_lines_nonempty(s.drop_last());
    }
}

fn split_lines(v: &[char]) -> (r: Vec<Vec<char>>)
    ensures
        r@.len() == lines_of(v@).len(),
        forall|k: int| 0 <= k < r@.len() ==> #[trigger] r@[k]@ == lines_of(v@)[k],
{
    let mut done: Vec<Vec<char>> = Vec::new();
    let mut cur: Vec<char> = Vec::new();
    let mut i: usize = 0;
    assert(v@.subrange(0, 0) =~= Seq::<char>::empty());
    while i < v.len()
        invariant
            i <= v@.len(),
            done@.len() + 1 == lines_of(v@.subrange(0, i as int)).len(),
            forall|k: int| 0 <= k < done@.len() ==> #[trigger] done@[k]@ == lines_of(v@.subrange(0, i as int))[k],
            cur@ == lines_of(v@.subrange(0, i as int)).last(),
        decreases v.len() - i,
    {
        let ghost before = v@.subrange(0, i as int);
        assert(v@.subrange(0, i + 1).drop_last() =~= before);
        assert(v@.subrange(0, i + 1).last() == v@[i as int]);
        proof {
            lemma_lines_nonempty(before);
        }
        if v[i] == '\n' {
            let finished = cur;
            done.push(finished);
            cur = Vec::new();
            assert(cur@ =~= Seq::<char>::empty());
        } else {
            cur.push(v[i]);
        }
        i = i + 1;
    }
    assert(v@.subrange(0, v@.len() as int) =~= v@);
    done.push(cur);
    done
}

/// Cuts a text into the rows it takes at `inner_w` columns, counting characters: every line
/// feed starts a row, an empty line keeps its row, a long line continues on the next rows.
pub fn wrap_rows(s: &str, inner_w: usize) -> (r: Vec<String>)
    ensures
        rows_view(r@) == wrap_spec(s@, inner_w as nat),
{
    let w: usize = if inner_w == 0 {
        1
    } else {
        inner_w
    };
    let v = chars_of(s);
    let lines = split_lines(&v);
    let ghost ls = lines_of(s@);
    let mut out: Vec<String> = Vec::new();
    let mut j: usize = 0;
    assert(ls.subrange(0, 0) =~= Seq::<Seq<char>>::empty());
    assert(rows_view(out@) =~= Seq::<Seq<char>>::empty());
    while j < lines.len()
        invariant
            j <= lines@.len(),
            w >= 1,
            w as nat == (if inner_w == 0 { 1 } else { inner_w as nat }),
            ls == lines_of(s@),
            lines@.len() == ls.len(),
            forall|k: int| 0 <= k < lines@.len() ==> #[trigger] lines@[k]@ == ls[k],
            rows_view(out@) == rows_of_lines(ls.subrange(0, j as int), w as nat),
        decreases lines.len() - j,
    {
        let line = &lines[j];
        assert(ls.subrange(0, j + 1).drop_last() =~= ls.subrange(0, j as int));
        assert(ls.subrange(0, j + 1).last() == line@);
        let ghost before = rows_view(out@);
        if line.len() == 0 {
            out.push(String::new());
            assert(rows_view(out@) =~= before + line_rows(line@, w as nat));
        } else {
            let mut start: usize = 0;
            assert(line@.subrange(0, line@.len() as int) =~= line@);
            while start < line.len()
                invariant
                    start <= line@.len(),
                    line@.len() > 0,
                    w >= 1,
                    start == line@.len() || start % w == 0 || start < line@.len(),
                    before + chunks(line@, w as nat) == rows_view(out@) + (if start < line@.len() {
                        chunks(line@.subrange(start as int, line@.len() as int), w as nat)
                    } else {
                        Seq::<Seq<char>>::empty()
                    }),
                decreases line.len() - start,
            {
                let ghost rest = line@.subrange(start as int, line@.len() as int);
                let end = if line.len() - start <= w {
                    line.len()
                } else {
                    start + w
                };
                let row = string_from_range(line, start, end);
                let ghost mid = rows_view(out@);
                out.push(row);
                assert(rows_view(out@) =~= mid.push(row@));
                if end < line.len() {
                    assert(rest.subrange(0, w as int) =~= row@);
                    assert(rest.subrange(w as int, rest.len() as int) =~= line@.subrange(end as int, line@.len() as int));
                    assert(chunks(rest, w as nat) == seq![row@] + chunks(line@.subrange(end as int, line@.len() as int), w as nat));
                    assert(mid + chunks(rest, w as nat) =~= mid.push(row@) + chunks(line@.subrange(end as int, line@.len() as int), w as nat));
                } else {
                    assert(rest =~= row@);
                    assert(chunks(rest, w as nat) == seq![row@]);
                    assert(mid + chunks(rest, w as nat) =~= mid.push(row@));
                }
                start = end;
            }
            assert(line@.subrange(0, line@.len() as int) =~= line@);
            assert(rows_view(out@) =~= before + line_rows(line@, w as nat));
        }
        j = j + 1;
    }
    assert(ls.subrange(0, ls.len() as int) =~= ls);
    out
}

/// A name cut to `max_chars` characters, with `…` added when it was longer.
pub open spec fn truncate_spec(s: Seq<char>, max_chars: nat) -> Seq<char> {
    if s.len() <= max_chars {
        s
    } else {
        s.subrange(0, max_chars as int).push('…')
    }
}

pub fn truncate(s: &str, max_chars: usize) -> (r: String)
    ensures
        r@ == truncate_spec(s@, max_chars as nat),
{
    let v = chars_of(s);
    if v.len() <= max_chars {
        owned(s)
    } else {
        let mut out = string_from_range(&v, 0, max_chars);
        out.push('…');
        out
    }
}

/// The key hints of each mode.
pub open spec fn footer_spec(lang: Lang, mode: Mode) -> Seq<char> {
    match mode {
        Mode::Browse => footer_browse_text(lang),
        Mode::Search => footer_search_text(lang),
        Mode::Input(_) => footer_input_text(lang),
        Mode::ConfirmDelete => footer_confirm_text(lang),
        Mode::ActionPick => footer_action_pick_text(lang),
        Mode::ConfirmAction => footer_confirm_action_text(lang),
        Mode::Help => footer_help_close_text(lang),
    }
}

pub fn footer_text(lang: Lang, mode: Mode) -> (r: &'static str)
    ensures
        r@ == footer_spec(lang, mode),
{
    match mode {
        Mode::Browse => footer_browse(lang),
        Mode::Search => footer_search(lang),
        Mode::Input(_) => footer_input(lang),
        Mode::ConfirmDelete => footer_confirm(lang),
        Mode::ActionPick => footer_action_pick(lang),
        Mode::ConfirmAction => footer_confirm_action(lang),
        Mode::Help => footer_help_close(lang),
    }
}

/// The header's search segment: shown while searching (with a cursor) or while a query filters
/// the list.
pub fn search_segment(lang: Lang, mode: Mode, search: &str) -> (r: Option<String>)
    ensures
        match r {
            Some(t) => (mode == Mode::Search || search@.len() > 0) && t@ == header_search_text(
                lang,
                search@,
                if mode == Mode::Search { "▌"@ } else { ""@ },
            ),
            None => !(mode == Mode::Search || search@.len() > 0),
        },
{
    let searching = mode == Mode::Search;
    if searching || search.unicode_len() > 0 {
        let cursor = if searching {
            "▌"
        } else {
            ""
        };
        Some(header_search(lang, search, cursor))
    } else {
        None
    }
}

/// The layout of the action confirmation: the popup, and the rows of the prompt and of the
/// command, wrapped to the popup's inner width so that the whole command and the key line
/// stay visible.
pub struct ConfirmLayout {
    pub popup: Area,
    pub prompt_rows: Vec<String>,
    pub command_rows: Vec<String>,
}

/// Popup width for the action confirmation: 72 columns, or the area less two, but at least 20.
pub open spec fn confirm_width(area: Area) -> int {
    let avail = if area.width >= 2 {
        area.width - 2
    } else {
        0
    };
    let w = if avail < 72 {
        avail
    } else {
        72
    };
    if w < 20 {
        20
    } else {
        w
    }
}

pub fn confirm_action_layout(lang: Lang, area: Area, name: &str, command: &str) -> (r: ConfirmLayout)
    requires
        area_fits(area),
    ensures
        rows_view(r.prompt_rows@) == wrap_spec(confirm_action_prompt_text(lang, name@), (confirm_width(area) - 2) as nat),
        rows_view(r.command_rows@) == wrap_spec(command@, (confirm_width(area) - 2) as nat),
        r.popup == centered_spec(
            area,
            confirm_width(area) as u16,
            (if r.prompt_rows@.len() + r.command_rows@.len() + 4 <= area.height {
                (r.prompt_rows@.len() + r.command_rows@.len() + 4) as int
            } else {
                area.height as int
            }) as u16,
        ),
{
    let avail: u16 = if area.width >= 2 {
        area.width - 2
    } else {
        0
    };
    let w0: u16 = if avail < 72 {
        avail
    } else {
        72
    };
    let width: u16 = if w0 < 20 {
        20
    } else {
        w0
    };
    let inner_w = (width - 2) as usize;
    let prompt = confirm_action_prompt(lang, name);
    let prompt_rows = wrap_rows(prompt.as_str(), inner_w);
    let command_rows = wrap_rows(command, inner_w);
    let p = prompt_rows.len();
    let c = command_rows.len();
    let limit = area.height as usize;
    let height: u16 = if p <= limit && c <= limit && p + c + 4 <= limit {
        (p + c + 4) as u16
    } else {
        area.height
    };
    let popup = centered(area, width, height);
    ConfirmLayout { popup, prompt_rows, command_rows }
}

proof fn lemma_chunks_fit(l: Seq<char>, w: nat)
    requires
        w >= 1,
    ensures
        forall|k: int| 0 <= k < chunks(l, w).len() ==> #[trigger] chunks(l, w)[k].len() <= w || (k == 0 && chunks(l, w)[k] == l && l.len() <= w),
    decreases l.len(),
{
    if l.len() > w {
        lemma_chunks_fit(l.subrange(w as int, l.len() as int), w);
        let rest = chunks(l.subrange(w as int, l.len() as int), w);
        assert forall|k: int| 0 <= k < chunks(l, w).len() implies #[trigger] chunks(l, w)[k].len() <= w by {
            if k > 0 {
                assert(chunks(l, w)[k] == rest[k - 1]);
            }
        }
    }
}

proof fn lemma_rows_fit(ls: Seq<Seq<char>>, w: nat)
    requires
        w >= 1,
    ensures
        forall|k: int| 0 <= k < rows_of_lines(ls, w).len() ==> #[trigger] rows_of_lines(ls, w)[k].len() <= w,
    decreases ls.len(),
{
    if ls.len() > 0 {
        lemma_rows_fit(ls.drop_last(), w);
        lemma_chunks_fit(ls.last(), w);
        let front = rows_of_lines(ls.drop_last(), w);
        let back = line_rows(ls.last(), w);
        assert forall|k: int| 0 <= k < rows_of_lines(ls, w).len() implies #[trigger] rows_of_lines(ls, w)[k].len() <= w by {
            if k >= front.len() {
                assert(rows_of_lines(ls, w)[k] == back[k - front.len()]);
            }
        }
    }
}

/// No wrapped row is wider than the width asked for (one column at least).
pub proof fn law_rows_fit_the_width(s: Seq<char>, inner_w: nat)
    ensures
        forall|k: int| 0 <= k < wrap_spec(s, inner_w).len() ==> #[trigger] wrap_spec(s, inner_w)[k].len() <= (if inner_w == 0 {
            1
        } else {
            inner_w
        }),
{
    lemma_rows_fit(lines_of(s), if inner_w == 0 { 1 } else { inner_w });
}

/// A popup never leaves the area it is centred in.
pub proof fn law_popup_stays_inside(area: Area, width: u16, height: u16)
    requires
        area_fits(area),
    ensures
        ({
            let r = centered_spec(area, width, height);
            area.x <= r.x && r.x + r.width <= area.x + area.width && area.y <= r.y && r.y + r.height <= area.y + area.height
        }),
{
}

} // verus!
