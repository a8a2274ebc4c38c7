use vstd::prelude::*;
use vstd::string::StrSliceExecFns;
use vstd::string::StringExecFns;

use crate::render::push_cmd;
use crate::render::RenderState;
use crate::render::TermCmd;
use crate::render::TermCmdView;
use crate::textops::push_char;

verus! {

/// The largest candidate count the panel accepts: twice the largest row
/// count that the u16 render bookkeeping can hold.
pub const COMPLETION_LIMIT: usize = 131070;

/// The number of panel rows for a candidate count: two candidates share a
/// row.
pub open spec fn panel_rows_of(n: int) -> int {
    (n + 1) / 2
}

/// The completion panel: the candidates of one query, the selected index,
/// and the number of panel rows currently drawn (zero while no panel is
/// open).
pub struct CompletionState {
    pub candidates: Vec<String>,
    pub selected_index: usize,
    pub panel_rows: u16,
}

impl CompletionState {
    /// Whether a panel is open.
    pub open spec fn panel_open(&self) -> bool {
        self.panel_rows != 0
    }

    /// While a panel is open it holds at least one candidate, the selection
    /// points at one of them, and the drawn row count matches the candidate
    /// count.
    pub open spec fn wf(&self) -> bool {
        self.panel_open() ==> {
            &&& 0 < self.candidates@.len() <= COMPLETION_LIMIT
            &&& self.selected_index < self.candidates@.len()
            &&& self.panel_rows as int == panel_rows_of(self.candidates@.len() as int)
            &&& grid_width(self.candidates.deep_view()) <= usize::MAX
        }
    }

    /// The closed panel of a fresh session.
    pub fn new() -> (c: CompletionState)
        ensures
            c.wf(),
            !c.panel_open(),
            c.selected_index == 0,
            c.candidates@.len() == 0,
    {
        CompletionState { candidates: Vec::new(), selected_index: 0, panel_rows: 0 }
    }

    /// Moves the selection toward the first candidate by `delta`; the
    /// selection saturates at the first candidate and never goes below it.
    pub fn select_back(&mut self, delta: usize)
        requires
            old(self).wf(),
        ensures
            final(self).wf(),
            final(self).candidates == old(self).candidates,
            final(self).panel_rows == old(self).panel_rows,
            final(self).selected_index == if old(self).selected_index >= delta {
                old(self).selected_index - delta
            } else {
                0
            },
    {
        if self.selected_index >= delta {
            self.selected_index = self.selected_index - delta;
        } else {
            self.selected_index = 0;
        }
    }

    /// Moves the selection toward the last candidate by `delta`; the
    /// selection saturates at the last candidate.
    pub fn select_fwd(&mut self, delta: usize)
        requires
            old(self).wf(),
            old(self).panel_open(),
            delta <= 2,
        ensures
            final(self).wf(),
            final(self).candidates == old(self).candidates,
            final(self).panel_rows == old(self).panel_rows,
            final(self).selected_index as int == if old(self).selected_index + delta < old(
                self,
            ).candidates@.len() {
                old(self).selected_index + delta
            } else {
                old(self).candidates@.len() - 1
            },
    {
        if self.selected_index + delta < self.candidates.len() {
            self.selected_index = self.selected_index + delta;
        } else {
            self.selected_index = self.candidates.len() - 1;
        }
    }
}

/// The combined length of the two candidates of row `r`.
pub open spec fn pair_width(cands: Seq<Seq<char>>, r: int) -> int {
    cands[2 * r].len() + if 2 * r + 1 < cands.len() {
        cands[2 * r + 1].len() as int
    } else {
        0
    }
}

/// The largest combined length over the first `rows` panel rows.
pub open spec fn grid_width_upto(cands: Seq<Seq<char>>, rows: int) -> int
    decreases rows,
{
    if rows <= 0 {
        0
    } else {
        let prev = grid_width_upto(cands, rows - 1);
        let cur = pair_width(cands, rows - 1);
        if cur > prev {
            cur
        } else {
            prev
        }
    }
}

/// The panel column width: the largest combined length of any row's pair.
pub open spec fn grid_width(cands: Seq<Seq<char>>) -> int {
    grid_width_upto(cands, panel_rows_of(cands.len() as int))
}

proof fn lemma_grid_width_bound(cands: Seq<Seq<char>>, r: int, rows: int)
    requires
        0 <= r < rows,
    ensures
        pair_width(cands, r) <= grid_width_upto(cands, rows),
    decreases rows,
{
    if r < rows - 1 {
        lemma_grid_width_bound(cands, r, rows - 1);
    }
}

/// A run of `n` blanks.
pub open spec fn spaces(n: int) -> Seq<char>
    decreases n,
{
    if n <= 0 {
        Seq::<char>::empty()
    } else {
        spaces(n - 1).push(' ')
    }
}

/// The escape sequence put before the selected candidate.
pub open spec fn esc_select() -> Seq<char> {
    seq!['\x1b', '[', '3', '8', ';', '5', ';', '6', 'm']
}

/// The escape sequence that resets the highlight, put after every candidate.
pub open spec fn esc_reset() -> Seq<char> {
    seq!['\x1b', '[', '0', 'm']
}

/// The text of panel row `r`, written on a fresh row: a leading blank, the
/// left candidate padded so the right column lines up, and the right
/// candidate if the row has one; the selected candidate sits between the
/// highlight escape and the reset escape, every other candidate before a
/// bare reset escape.
pub open spec fn panel_row_text(cands: Seq<Seq<char>>, sel: int, wd: int, r: int) -> Seq<char> {
    let l = cands[2 * r];
    let rlen: int = if 2 * r + 1 < cands.len() {
        cands[2 * r + 1].len() as int
    } else {
        0
    };
    let left = seq!['\r', '\n', ' '] + (if sel == 2 * r {
        esc_select()
    } else {
        Seq::<char>::empty()
    }) + l + spaces(wd - rlen - l.len()) + esc_reset();
    if 2 * r + 1 < cands.len() {
        left + seq![' '] + (if sel == 2 * r + 1 {
            esc_select()
        } else {
            Seq::<char>::empty()
        }) + cands[2 * r + 1] + esc_reset()
    } else {
        left
    }
}

/// The print commands of the first `i` panel rows.
pub open spec fn panel_row_cmds(cands: Seq<Seq<char>>, sel: int, wd: int, i: int) -> Seq<
    TermCmdView,
>
    decreases i,
{
    if i <= 0 {
        Seq::<TermCmdView>::empty()
    } else {
        panel_row_cmds(cands, sel, wd, i - 1).push(
            TermCmdView::Print(panel_row_text(cands, sel, wd, i - 1)),
        )
    }
}

/// The commands that draw the whole panel: down to the last input row, one
/// print per panel row, then back up to where the cursor was.
pub open spec fn show_panel_cmds_spec(cands: Seq<Seq<char>>, sel: int, cl: int, nl: int) -> Seq<
    TermCmdView,
> {
    if cands.len() == 0 {
        Seq::<TermCmdView>::empty()
    } else {
        let n = nl - cl;
        let rows = panel_rows_of(cands.len() as int);
        (if n != 0 {
            seq![TermCmdView::MoveDown(n as u16)]
        } else {
            Seq::<TermCmdView>::empty()
        }) + panel_row_cmds(cands, sel, grid_width(cands), rows) + seq![
            TermCmdView::MoveUp(rows as u16),
        ] + (if n != 0 {
            seq![TermCmdView::MoveUp(n as u16)]
        } else {
            Seq::<TermCmdView>::empty()
        })
    }
}

/// The erase commands of `i` panel rows.
pub open spec fn panel_clear_rows(i: int) -> Seq<TermCmdView>
    decreases i,
{
    if i <= 0 {
        Seq::<TermCmdView>::empty()
    } else {
        panel_clear_rows(i - 1) + seq![TermCmdView::MoveDown(1), TermCmdView::ClearLine]
    }
}

/// The commands that erase an open panel of `length` rows: down to the last
/// input row, clear each panel row, then back up to where the cursor was.
pub open spec fn clear_panel_cmds_spec(length: int, cl: int, nl: int) -> Seq<TermCmdView> {
    if length == 0 {
        Seq::<TermCmdView>::empty()
    } else {
        let n = nl - cl;
        (if n != 0 {
            seq![TermCmdView::MoveDown(n as u16)]
        } else {
            Seq::<TermCmdView>::empty()
        }) + panel_clear_rows(length) + seq![TermCmdView::MoveUp(length as u16)] + (if n != 0 {
            seq![TermCmdView::MoveUp(n as u16)]
        } else {
            Seq::<TermCmdView>::empty()
        })
    }
}

/// Computes the erase commands for an open panel of `length` rows drawn
/// below the input rows.
pub fn clear_completions(length: u16, rs: RenderState) -> (out: Vec<TermCmd>)
    requires
        rs.wf(),
    ensures
        out.deep_view() == clear_panel_cmds_spec(
            length as int,
            rs.cursor_line as int,
            rs.num_lines as int,
        ),
{
    let mut v: Vec<TermCmd> = Vec::new();
    if length == 0 {
        return v;
    }
    let n = rs.num_lines - rs.cursor_line;
    if n != 0 {
        push_cmd(&mut v, TermCmd::MoveDown(n));
    }
    let ghost head = v.deep_view();
    let mut i: u16 = 0;
    while i < length
        invariant
            i <= length,
            v.deep_view() == head + panel_clear_rows(i as int),
        decreases length - i,
    {
        push_cmd(&mut v, TermCmd::MoveDown(1));
        push_cmd(&mut v, TermCmd::ClearLine);
        i = i + 1;
        proof {
            assert(v.deep_view() =~= head + panel_clear_rows(i as int));
        }
    }
    push_cmd(&mut v, TermCmd::MoveUp(length));
    if n != 0 {
        push_cmd(&mut v, TermCmd::MoveUp(n));
    }
    proof {
        assert(v.deep_view() =~= clear_panel_cmds_spec(
            length as int,
            rs.cursor_line as int,
            rs.num_lines as int,
        ));
    }
    v
}

/// The panel column width, or nothing when it runs past the machine's
/// integers.
fn grid_width_exec(cands: &Vec<String>) -> (out: Option<usize>)
    ensures
        match out {
            Some(wd) => wd as int == grid_width(cands.deep_view()),
            None => grid_width(cands.deep_view()) > usize::MAX,
        },
{
    let n = cands.len();
    let rows = n / 2 + n % 2;
    proof {
        assert(rows as int == panel_rows_of(cands.deep_view().len() as int));
    }
    let mut wd: usize = 0;
    let mut r: usize = 0;
    while r < rows
        invariant
            r <= rows,
            rows as int == panel_rows_of(cands.deep_view().len() as int),
            wd as int == grid_width_upto(cands.deep_view(), r as int),
        decreases rows - r,
    {
        let llen = cands[2 * r].as_str().unicode_len();
        let rlen = if 2 * r + 1 < n {
            cands[2 * r + 1].as_str().unicode_len()
        } else {
            0
        };
        if llen > usize::MAX - rlen {
            proof {
                lemma_grid_width_bound(cands.deep_view(), r as int, panel_rows_of(
                    cands.deep_view().len() as int,
                ));
            }
            return None;
        }
        let cur = llen + rlen;
        proof {
            assert(cur as int == pair_width(cands.deep_view(), r as int));
        }
        if cur > wd {
            wd = cur;
        }
        r = r + 1;
    }
    Some(wd)
}

/// Computes the commands that draw the completion panel and the number of
/// panel rows drawn, or nothing when the candidate list or its column width
/// runs past what the panel can hold.
pub fn show_completions(cands: &Vec<String>, selected: usize, rs: RenderState) -> (out: Option<
    (Vec<TermCmd>, u16),
>)
    requires
        rs.wf(),
    ensures
        match out {
            Some(p) => {
                &&& cands@.len() <= COMPLETION_LIMIT
                &&& grid_width(cands.deep_view()) <= usize::MAX
                &&& p.0.deep_view() == show_panel_cmds_spec(
                    cands.deep_view(),
                    selected as int,
                    rs.cursor_line as int,
                    rs.num_lines as int,
                )
                &&& p.1 as int == if cands@.len() == 0 {
                    0int
                } else {
                    panel_rows_of(cands@.len() as int)
                }
            },
            None => cands@.len() > COMPLETION_LIMIT || grid_width(cands.deep_view())
                > usize::MAX,
        },
{
    let n = cands.len();
    if n == 0 {
        return Some((Vec::new(), 0));
    }
    if n > COMPLETION_LIMIT {
        return None;
    }
    let wd = match grid_width_exec(cands) {
        Some(wd) => wd,
        None => {
            return None;
        },
    };
    let rows = n / 2 + n % 2;
    proof {
        assert(rows as int == panel_rows_of(cands.deep_view().len() as int));
    }
    let mut v: Vec<TermCmd> = Vec::new();
    let m = rs.num_lines - rs.cursor_line;
    if m != 0 {
        push_cmd(&mut v, TermCmd::MoveDown(m));
    }
    let ghost head = v.deep_view();
    let mut r: usize = 0;
    while r < rows
        invariant
            r <= rows,
            wd as int == grid_width(cands.deep_view()),
            rows as int == panel_rows_of(cands.deep_view().len() as int),
            n == cands@.len(),
            0 < n <= COMPLETION_LIMIT,
            v.deep_view() == head + panel_row_cmds(
                cands.deep_view(),
                selected as int,
                wd as int,
                r as int,
            ),
        decreases rows - r,
    {
        let row_str = panel_row_exec(cands, selected, wd, r);
        push_cmd(&mut v, TermCmd::Print(row_str));
        r = r + 1;
        proof {
            assert(v.deep_view() =~= head + panel_row_cmds(
                cands.deep_view(),
                selected as int,
                wd as int,
                r as int,
            ));
        }
    }
    push_cmd(&mut v, TermCmd::MoveUp(rows as u16));
    if m != 0 {
        push_cmd(&mut v, TermCmd::MoveUp(m));
    }
    proof {
        assert(v.deep_view() =~= show_panel_cmds_spec(
            cands.deep_view(),
            selected as int,
            rs.cursor_line as int,
            rs.num_lines as int,
        ));
    }
    Some((v, rows as u16))
}

/// Builds the text of one panel row.
fn panel_row_exec(cands: &Vec<String>, selected: usize, wd: usize, r: usize) -> (out: String)
    requires
        0 <= 2 * r < cands@.len(),
        wd as int == grid_width(cands.deep_view()),
        2 * r < panel_rows_of(cands@.len() as int) * 2,
        (r as int) < panel_rows_of(cands@.len() as int),
    ensures
        out@ == panel_row_text(cands.deep_view(), selected as int, wd as int, r as int),
{
    let n = cands.len();
    proof {
        lemma_grid_width_bound(cands.deep_view(), r as int, panel_rows_of(cands@.len() as int));
    }
    let mut s = String::new();
    push_char(&mut s, '\r');
    push_char(&mut s, '\n');
    push_char(&mut s, ' ');
    if selected == 2 * r {
        s.append("\x1b[38;5;6m");
        proof {
            reveal_strlit("\x1b[38;5;6m");
            assert(("\x1b[38;5;6m")@ =~= esc_select());
        }
    }
    let ghost before_left = s@;
    s.append(cands[2 * r].as_str());
    let llen = cands[2 * r].as_str().unicode_len();
    let rlen = if 2 * r + 1 < cands.len() {
        cands[2 * r + 1].as_str().unicode_len()
    } else {
        0
    };
    let pad = wd - rlen - llen;
    let ghost before_pad = s@;
    let mut k: usize = 0;
    while k < pad
        invariant
            k <= pad,
            s@ == before_pad + spaces(k as int),
        decreases pad - k,
    {
        push_char(&mut s, ' ');
        k = k + 1;
        proof {
            assert(s@ =~= before_pad + spaces(k as int));
        }
    }
    s.append("\x1b[0m");
    proof {
        reveal_strlit("\x1b[0m");
        assert(("\x1b[0m")@ =~= esc_reset());
    }
    if 2 * r + 1 < cands.len() {
        push_char(&mut s, ' ');
        if selected == 2 * r + 1 {
            s.append("\x1b[38;5;6m");
            proof {
                reveal_strlit("\x1b[38;5;6m");
                assert(("\x1b[38;5;6m")@ =~= esc_select());
            }
        }
        s.append(cands[2 * r + 1].as_str());
        s.append("\x1b[0m");
        proof {
            reveal_strlit("\x1b[0m");
            assert(("\x1b[0m")@ =~= esc_reset());
        }
    }
    proof {
        assert(s@ =~= panel_row_text(cands.deep_view(), selected as int, wd as int, r as int));
    }
    s
}

} // verus!
