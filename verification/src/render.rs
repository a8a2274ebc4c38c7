use vstd::prelude::*;
use vstd::string::StringExecFns;

use vstd::arithmetic::div_mod::lemma_div_is_ordered;
use vstd::arithmetic::div_mod::lemma_fundamental_div_mod;
use vstd::arithmetic::div_mod::lemma_mod_bound;

use crate::ansi::ansi_get;
use crate::ansi::ansi_len_of;
use crate::ansi::ansi_slice_of;
use crate::ansi::ansi_visible_len;
use crate::textops::push_char;

verus! {

/// One primitive operation handed to the terminal driver.
#[derive(Debug, Clone, PartialEq, Eq)]
pub enum TermCmd {
    /// Move the cursor up by the given number of rows.
    MoveUp(u16),
    /// Move the cursor down by the given number of rows.
    MoveDown(u16),
    /// Move the cursor to the given column of the current row.
    MoveToColumn(u16),
    /// Clear from the cursor to the end of the current row.
    ClearToLineEnd,
    /// Clear the whole current row.
    ClearLine,
    /// Write the given text at the cursor.
    Print(String),
}

/// The value of one primitive operation, with text as a character sequence.
pub enum TermCmdView {
    MoveUp(u16),
    MoveDown(u16),
    MoveToColumn(u16),
    ClearToLineEnd,
    ClearLine,
    Print(Seq<char>),
}

impl View for TermCmd {
    type V = TermCmdView;

    open spec fn view(&self) -> TermCmdView {
        match self {
            TermCmd::MoveUp(n) => TermCmdView::MoveUp(*n),
            TermCmd::MoveDown(n) => TermCmdView::MoveDown(*n),
            TermCmd::MoveToColumn(n) => TermCmdView::MoveToColumn(*n),
            TermCmd::ClearToLineEnd => TermCmdView::ClearToLineEnd,
            TermCmd::ClearLine => TermCmdView::ClearLine,
            TermCmd::Print(s) => TermCmdView::Print(s@),
        }
    }
}

impl DeepView for TermCmd {
    type V = TermCmdView;

    open spec fn deep_view(&self) -> TermCmdView {
        self.view()
    }
}

/// The session's render bookkeeping: the visual row of the cursor relative
/// to the prompt row, and the number of continuation rows currently drawn.
#[derive(Debug, Clone, Copy, PartialEq, Eq, Structural)]
pub struct RenderState {
    pub cursor_line: u16,
    pub num_lines: u16,
}

impl RenderState {
    /// The cursor never sits below the rows that are drawn.
    pub open spec fn wf(&self) -> bool {
        self.cursor_line <= self.num_lines
    }

    /// The state of a fresh single-row render.
    pub fn new() -> (rs: RenderState)
        ensures
            rs.wf(),
            rs.cursor_line == 0,
            rs.num_lines == 0,
    {
        RenderState { cursor_line: 0, num_lines: 0 }
    }
}

/// Bounds under which the wrap arithmetic stays within the machine's
/// integers: a positive width, a prompt narrower than the terminal, and a
/// total visible length whose row count fits the render bookkeeping.
pub open spec fn geometry_ok(p: int, len: int, w: int) -> bool {
    0 < w <= 0xffff && p < w && p + len < w * 0xffff
}

/// Whether the rendered content ends exactly at a wrap boundary with the
/// cursor at its very end: the one case that forces an explicit extra line
/// break, so the terminal cursor lands on a fresh addressable row.
pub open spec fn exact_wrap_edge(p: int, len: int, end: int, w: int) -> bool {
    &&& p + len >= w
    &&& (p + len) % w == 0
    &&& end == len
}

/// How many continuation rows the content itself fills: the first row holds
/// `w - p` visible cells and every further row holds `w`.
pub open spec fn content_rows(p: int, len: int, w: int) -> int {
    if p + len > w {
        (p + len - 1) / w
    } else {
        0
    }
}

/// The continuation row count after a redraw: the forced extra break of the
/// exact wrap edge adds one fresh row.
pub open spec fn rows_after(p: int, len: int, end: int, w: int) -> int {
    if exact_wrap_edge(p, len, end, w) {
        (p + len) / w
    } else {
        content_rows(p, len, w)
    }
}

/// The visual row of the cursor after a redraw, relative to the prompt row.
pub open spec fn cursor_row_after(p: int, len: int, end: int, w: int) -> int {
    if exact_wrap_edge(p, len, end, w) {
        (p + len) / w
    } else {
        (end + p) / w
    }
}

/// The visual column of the cursor after a redraw.
pub open spec fn cursor_col_after(p: int, len: int, end: int, w: int) -> int {
    if exact_wrap_edge(p, len, end, w) {
        0
    } else {
        (end + p) % w
    }
}

/// Whether the escape-aware display path applies: the display string is
/// ASCII and its visible length agrees with the buffer, as a highlighter
/// that only adds zero-width decoration keeps it.
pub open spec fn ansi_display_ok(hl: Seq<char>, len: int) -> bool {
    vstd::utf8::is_ascii_chars(hl) && ansi_len_of(hl) == len
}

/// The escape-aware window `[lo, hi)` of a display string, cut as a slice
/// running to the end followed by a slice from the start, the second cut
/// held within whatever visible length the first one reports.
pub open spec fn ansi_window_of(s: Seq<char>, lo: int, hi: int) -> Seq<char> {
    let suf = ansi_slice_of(s, lo, ansi_len_of(s) as int);
    let avail = ansi_len_of(suf) as int;
    let k = if hi - lo <= avail {
        hi - lo
    } else {
        avail
    };
    ansi_slice_of(suf, 0, k)
}

/// The text printed for the visible range `[lo, hi)`: the escape-aware
/// window of the display string when that path applies, else the bare
/// buffer characters.
pub open spec fn display_slice(data: Seq<char>, hl: Seq<char>, lo: int, hi: int) -> Seq<char> {
    if ansi_display_ok(hl, data.len() as int) {
        ansi_window_of(hl, lo, hi)
    } else {
        data.subrange(lo, hi)
    }
}

/// The erase commands for rows 1 through `n` of the previous render.
pub open spec fn clear_row_cmds(n: int) -> Seq<TermCmdView>
    decreases n,
{
    if n <= 0 {
        Seq::<TermCmdView>::empty()
    } else {
        clear_row_cmds(n - 1) + seq![
            TermCmdView::MoveDown(1),
            TermCmdView::MoveToColumn(0),
            TermCmdView::ClearLine,
        ]
    }
}

/// The erase sequence before a redraw: up to the prompt row, clear from the
/// prompt's end, clear every continuation row, and return to the prompt's
/// end.
pub open spec fn clear_cmds_spec(p: int, cl: int, nl: int) -> Seq<TermCmdView> {
    let up = if cl != 0 {
        seq![TermCmdView::MoveUp(cl as u16)]
    } else {
        Seq::<TermCmdView>::empty()
    };
    let first = seq![TermCmdView::MoveToColumn(p as u16), TermCmdView::ClearToLineEnd];
    if nl == 0 {
        up + first
    } else {
        up + first + clear_row_cmds(nl) + seq![
            TermCmdView::MoveUp(nl as u16),
            TermCmdView::MoveToColumn(p as u16),
        ]
    }
}

/// The visible index just past the first row's content.
pub open spec fn first_row_hi(p: int, len: int, w: int) -> int {
    if len <= w - p {
        len
    } else {
        w - p
    }
}

/// The print commands for continuation rows 1 through `i`, each written on a
/// fresh row.
pub open spec fn row_print_cmds(data: Seq<char>, hl: Seq<char>, p: int, w: int, i: int) -> Seq<
    TermCmdView,
>
    decreases i,
{
    if i <= 0 {
        Seq::<TermCmdView>::empty()
    } else {
        let lo = w - p + (i - 1) * w;
        let hi = if data.len() < lo + w {
            data.len() as int
        } else {
            lo + w
        };
        row_print_cmds(data, hl, p, w, i - 1).push(
            TermCmdView::Print(seq!['\r', '\n'] + display_slice(data, hl, lo, hi)),
        )
    }
}

/// What follows the content of a redraw: the forced extra break on the exact
/// wrap edge, else the move that parks the visual cursor on its target cell.
pub open spec fn redraw_tail_cmds(p: int, len: int, end: int, w: int) -> Seq<TermCmdView> {
    if exact_wrap_edge(p, len, end, w) {
        seq![TermCmdView::Print(seq!['\r', '\n'])]
    } else {
        let rows = content_rows(p, len, w);
        let row = (end + p) / w;
        let col = (end + p) % w;
        seq![TermCmdView::MoveToColumn(col as u16)] + if rows > row {
            seq![TermCmdView::MoveUp((rows - row) as u16)]
        } else {
            Seq::<TermCmdView>::empty()
        }
    }
}

/// Every command of one redraw: erase the previous render, print the first
/// row and each continuation row, then park the cursor.
pub open spec fn redraw_cmds_spec(
    data: Seq<char>,
    hl: Seq<char>,
    p: int,
    end: int,
    w: int,
    cl: int,
    nl: int,
) -> Seq<TermCmdView> {
    clear_cmds_spec(p, cl, nl) + seq![
        TermCmdView::Print(display_slice(data, hl, 0, first_row_hi(p, data.len() as int, w))),
    ] + row_print_cmds(data, hl, p, w, content_rows(p, data.len() as int, w)) + redraw_tail_cmds(
        p,
        data.len() as int,
        end,
        w,
    )
}

/// The row the visual cursor is parked on by a cursor-only move: its target
/// row, held within the rows that are actually drawn.
pub open spec fn move_to_row(p: int, end: int, w: int, nl: int) -> int {
    let row = (end + p) / w;
    if row <= nl {
        row
    } else {
        nl
    }
}

/// The commands of a cursor-only move: the column first, then the vertical
/// step between the current row and the target row.
pub open spec fn move_to_cmds_spec(p: int, end: int, w: int, cl: int, nl: int) -> Seq<
    TermCmdView,
> {
    let row = move_to_row(p, end, w, nl);
    let col = (end + p) % w;
    seq![TermCmdView::MoveToColumn(col as u16)] + if cl > row {
        seq![TermCmdView::MoveUp((cl - row) as u16)]
    } else if cl < row {
        seq![TermCmdView::MoveDown((row - cl) as u16)]
    } else {
        Seq::<TermCmdView>::empty()
    }
}

/// Appends one command, extending the command list's value by its view.
pub(crate) fn push_cmd(v: &mut Vec<TermCmd>, c: TermCmd)
    ensures
        final(v).deep_view() == old(v).deep_view().push(c@),
{
    let ghost prev = v.deep_view();
    v.push(c);
    proof {
        assert(v.deep_view() =~= prev.push(c@));
    }
}

/// Moves every command of `other` onto the end of `v`, in order.
pub(crate) fn append_cmds(v: &mut Vec<TermCmd>, other: Vec<TermCmd>)
    ensures
        final(v).deep_view() == old(v).deep_view() + other.deep_view(),
{
    let mut rest = other;
    let ghost total = rest.deep_view();
    proof {
        assert(total.take(0) =~= Seq::<TermCmdView>::empty());
        assert(v.deep_view() =~= old(v).deep_view() + total.take(0));
    }
    while rest.len() > 0
        invariant
            rest.deep_view().len() <= total.len(),
            rest.deep_view() == total.skip(total.len() - rest.deep_view().len()),
            v.deep_view() == old(v).deep_view() + total.take(
                total.len() - rest.deep_view().len(),
            ),
        decreases rest.len(),
    {
        let ghost k = total.len() - rest.deep_view().len();
        let ghost prevr = rest.deep_view();
        let ghost prevv = v.deep_view();
        let c = rest.remove(0);
        proof {
            assert(rest.deep_view() =~= prevr.skip(1));
            assert(rest.deep_view() =~= total.skip(k + 1));
            assert(prevr[0] == c.deep_view());
            assert(prevr[0] == total[k]);
            assert(c@ == total[k]);
        }
        v.push(c);
        proof {
            assert(v.deep_view() =~= prevv.push(total[k]));
            assert(v.deep_view() =~= old(v).deep_view() + total.take(k + 1));
        }
    }
    proof {
        assert(total.take(total.len() as int) =~= total);
    }
}

/// The bare characters of the visible range `[lo, hi)` of the buffer.
fn plain_slice(v: &Vec<char>, lo: usize, hi: usize) -> (r: String)
    requires
        lo <= hi <= v@.len(),
    ensures
        r@ == v@.subrange(lo as int, hi as int),
{
    let mut s = String::new();
    let mut i: usize = lo;
    while i < hi
        invariant
            lo <= i <= hi,
            s@ == v@.subrange(lo as int, i as int),
        decreases hi - i,
    {
        push_char(&mut s, v[i]);
        i = i + 1;
        proof {
            assert(s@ =~= v@.subrange(lo as int, i as int));
        }
    }
    s
}

/// Computes every command of one redraw and the render bookkeeping that the
/// just-drawn layout leaves behind: the previous render is erased, the
/// content is printed row by row at the wrap width, and the cursor is parked
/// on the cell of the buffer position `end`.
#[verifier::rlimit(60)]
pub fn render_line(
    data: &Vec<char>,
    hl: &String,
    prompt_len: usize,
    end: usize,
    width: u16,
    rs: RenderState,
) -> (out: (Vec<TermCmd>, RenderState))
    requires
        end <= data@.len(),
        rs.wf(),
        geometry_ok(prompt_len as int, data@.len() as int, width as int),
    ensures
        out.0.deep_view() == redraw_cmds_spec(
            data@,
            hl@,
            prompt_len as int,
            end as int,
            width as int,
            rs.cursor_line as int,
            rs.num_lines as int,
        ),
        out.1.wf(),
        out.1.num_lines as int == rows_after(
            prompt_len as int,
            data@.len() as int,
            end as int,
            width as int,
        ),
        out.1.cursor_line as int == cursor_row_after(
            prompt_len as int,
            data@.len() as int,
            end as int,
            width as int,
        ),
{
    let w = width as usize;
    let len = data.len();
    let ghost gp = prompt_len as int;
    let ghost glen = data@.len() as int;
    let ghost gw = width as int;
    proof {
        assert(gw * 0xffff <= 0xffff * 0xffff) by (nonlinear_arith)
            requires
                0 < gw <= 0xffff,
        ;
    }
    let mut v: Vec<TermCmd> = Vec::new();
    let ghost pre = clear_cmds_spec(gp, rs.cursor_line as int, rs.num_lines as int);
    if rs.cursor_line != 0 {
        push_cmd(&mut v, TermCmd::MoveUp(rs.cursor_line));
    }
    push_cmd(&mut v, TermCmd::MoveToColumn(prompt_len as u16));
    push_cmd(&mut v, TermCmd::ClearToLineEnd);
    let ghost head = v.deep_view();
    if rs.num_lines != 0 {
        let mut i: u16 = 0;
        while i < rs.num_lines
            invariant
                i <= rs.num_lines,
                v.deep_view() == head + clear_row_cmds(i as int),
            decreases rs.num_lines - i,
        {
            push_cmd(&mut v, TermCmd::MoveDown(1));
            push_cmd(&mut v, TermCmd::MoveToColumn(0));
            push_cmd(&mut v, TermCmd::ClearLine);
            i = i + 1;
            proof {
                assert(v.deep_view() =~= head + clear_row_cmds(i as int));
            }
        }
        push_cmd(&mut v, TermCmd::MoveUp(rs.num_lines));
        push_cmd(&mut v, TermCmd::MoveToColumn(prompt_len as u16));
    }
    proof {
        assert(v.deep_view() =~= pre);
    }
    let cap0 = if len <= w - prompt_len {
        len
    } else {
        w - prompt_len
    };
    let s0 = display_slice_exec(data, hl, 0, cap0);
    push_cmd(&mut v, TermCmd::Print(s0));
    let ghost pre2 = v.deep_view();
    let total = prompt_len + len;
    let rows = if total > w {
        (total - 1) / w
    } else {
        0
    };
    proof {
        assert(rows == content_rows(gp, glen, gw));
        lemma_fundamental_div_mod(gp + glen - 1, gw);
        lemma_mod_bound(gp + glen - 1, gw);
    }
    let mut i: usize = 0;
    let mut lo = w - prompt_len;
    while i < rows
        invariant
            i <= rows,
            lo == gw - gp + i * gw,
            v.deep_view() == pre2 + row_print_cmds(data@, hl@, gp, gw, i as int),
        decreases rows - i,
    {
        proof {
            lemma_fundamental_div_mod(gp + glen - 1, gw);
            lemma_mod_bound(gp + glen - 1, gw);
            assert(lo <= glen - 1) by (nonlinear_arith)
                requires
                    gw > 0,
                    gp >= 0,
                    i + 1 <= rows,
                    lo == gw - gp + i * gw,
                    rows == (gp + glen - 1) / gw,
                    gp + glen - 1 == gw * ((gp + glen - 1) / gw) + (gp + glen - 1) % gw,
                    0 <= (gp + glen - 1) % gw < gw,
            ;
        }
        let hi = if len < lo + w {
            len
        } else {
            lo + w
        };
        let row_str = display_slice_exec(data, hl, lo, hi);
        let mut payload = String::new();
        push_char(&mut payload, '\r');
        push_char(&mut payload, '\n');
        payload.append(row_str.as_str());
        proof {
            assert(payload@ =~= seq!['\r', '\n'] + display_slice(data@, hl@, lo as int, hi as int));
        }
        push_cmd(&mut v, TermCmd::Print(payload));
        lo = lo + w;
        i = i + 1;
        proof {
            assert(i * gw == (i - 1) * gw + gw) by (nonlinear_arith);
            assert(v.deep_view() =~= pre2 + row_print_cmds(data@, hl@, gp, gw, i as int));
        }
    }
    let exact = total >= w && total % w == 0 && end == len;
    let out_rs: RenderState;
    if exact {
        let mut payload = String::new();
        push_char(&mut payload, '\r');
        push_char(&mut payload, '\n');
        proof {
            assert(payload@ =~= seq!['\r', '\n']);
        }
        push_cmd(&mut v, TermCmd::Print(payload));
        let r = total / w;
        proof {
            lemma_fundamental_div_mod(gp + glen, gw);
            lemma_mod_bound(gp + glen, gw);
            assert((gp + glen) / gw < 0xffff) by (nonlinear_arith)
                requires
                    gw > 0,
                    gp + glen < gw * 0xffff,
                    gw * ((gp + glen) / gw) <= gp + glen,
            ;
        }
        out_rs = RenderState { cursor_line: r as u16, num_lines: r as u16 };
    } else {
        let pos = end + prompt_len;
        let col = (pos % w) as u16;
        push_cmd(&mut v, TermCmd::MoveToColumn(col));
        let row = pos / w;
        proof {
            let gpos = pos as int;
            lemma_mod_bound(gpos, gw);
            lemma_fundamental_div_mod(gpos, gw);
            lemma_fundamental_div_mod(gp + glen - 1, gw);
            lemma_mod_bound(gp + glen - 1, gw);
            lemma_fundamental_div_mod(gp + glen, gw);
            lemma_mod_bound(gp + glen, gw);
            assert(rows < 0xffff) by (nonlinear_arith)
                requires
                    gw > 0,
                    gp >= 0,
                    glen >= 0,
                    gp + glen < gw * 0xffff,
                    rows == content_rows(gp, glen, gw),
                    gp + glen - 1 == gw * ((gp + glen - 1) / gw) + (gp + glen - 1) % gw,
                    0 <= (gp + glen - 1) % gw < gw,
            ;
            if gp + glen <= gw {
                assert(gpos < gw) by {
                    if gpos == gw {
                        assert(gp + glen == gw);
                        assert((gp + glen) % gw == 0) by (nonlinear_arith)
                            requires
                                gw > 0,
                                gp + glen == gw,
                                gp + glen == gw * ((gp + glen) / gw) + (gp + glen) % gw,
                                0 <= (gp + glen) % gw < gw,
                        ;
                        assert(false);
                    }
                }
                assert(gpos / gw == 0) by (nonlinear_arith)
                    requires
                        gw > 0,
                        0 <= gpos < gw,
                        gpos == gw * (gpos / gw) + gpos % gw,
                        0 <= gpos % gw < gw,
                ;
            } else if end < len {
                lemma_div_is_ordered(gpos, gp + glen - 1, gw);
            } else {
                assert((gp + glen) % gw != 0);
                assert((gp + glen) / gw == (gp + glen - 1) / gw) by (nonlinear_arith)
                    requires
                        gw > 0,
                        (gp + glen) % gw != 0,
                        gp + glen == gw * ((gp + glen) / gw) + (gp + glen) % gw,
                        gp + glen - 1 == gw * ((gp + glen - 1) / gw) + (gp + glen - 1) % gw,
                        0 <= (gp + glen) % gw < gw,
                        0 <= (gp + glen - 1) % gw < gw,
                ;
            }
            assert(row <= rows);
        }
        if rows > row {
            push_cmd(&mut v, TermCmd::MoveUp((rows - row) as u16));
        }
        out_rs = RenderState { cursor_line: row as u16, num_lines: rows as u16 };
    }
    proof {
        assert(v.deep_view() =~= redraw_cmds_spec(
            data@,
            hl@,
            gp,
            end as int,
            gw,
            rs.cursor_line as int,
            rs.num_lines as int,
        ));
    }
    (v, out_rs)
}

/// When the target row lies within the rows that are drawn, a cursor-only
/// move is not clamped: it parks the cursor exactly on row `(end + p) / w`,
/// while its first command sets column `(end + p) % w`.
pub proof fn lemma_move_to_unclamped(p: int, end: int, w: int, nl: int)
    requires
        w > 0,
        (end + p) / w <= nl,
    ensures
        move_to_row(p, end, w, nl) == (end + p) / w,
{
}

/// The target row of any buffer position up to the content length stays
/// within the content's own rows, except at the exact wrap edge (which a
/// redraw handles with its forced extra break). Since a redraw leaves at
/// least `content_rows` rows drawn, a later cursor-only move is never
/// clamped.
pub proof fn lemma_move_within_rows(p: int, len: int, end: int, w: int)
    requires
        geometry_ok(p, len, w),
        0 <= p,
        0 <= end <= len,
        !exact_wrap_edge(p, len, end, w),
    ensures
        (end + p) / w <= content_rows(p, len, w),
{
    lemma_fundamental_div_mod(end + p, w);
    lemma_mod_bound(end + p, w);
    lemma_fundamental_div_mod(p + len - 1, w);
    lemma_mod_bound(p + len - 1, w);
    lemma_fundamental_div_mod(p + len, w);
    lemma_mod_bound(p + len, w);
    if p + len <= w {
        assert(end + p < w) by {
            if end + p == w {
                assert(p + len == w);
                assert(end == len);
                assert((p + len) % w == 0) by (nonlinear_arith)
                    requires
                        w > 0,
                        p + len == w,
                        p + len == w * ((p + len) / w) + (p + len) % w,
                        0 <= (p + len) % w < w,
                ;
                assert(false);
            }
        }
        assert((end + p) / w == 0) by (nonlinear_arith)
            requires
                w > 0,
                0 <= end + p < w,
                end + p == w * ((end + p) / w) + (end + p) % w,
                0 <= (end + p) % w < w,
        ;
    } else if end < len {
        lemma_div_is_ordered(end + p, p + len - 1, w);
    } else {
        assert((p + len) % w != 0);
        assert((p + len) / w == (p + len - 1) / w) by (nonlinear_arith)
            requires
                w > 0,
                (p + len) % w != 0,
                p + len == w * ((p + len) / w) + (p + len) % w,
                p + len - 1 == w * ((p + len - 1) / w) + (p + len - 1) % w,
                0 <= (p + len) % w < w,
                0 <= (p + len - 1) % w < w,
        ;
    }
}

/// Computes the commands of a cursor-only move to the buffer position `end`
/// and the row bookkeeping it leaves behind; the target row is held within
/// the rows that are drawn.
pub fn move_to(prompt_len: usize, end: usize, width: u16, rs: RenderState) -> (out: (
    Vec<TermCmd>,
    RenderState,
))
    requires
        rs.wf(),
        geometry_ok(prompt_len as int, end as int, width as int),
    ensures
        out.0.deep_view() == move_to_cmds_spec(
            prompt_len as int,
            end as int,
            width as int,
            rs.cursor_line as int,
            rs.num_lines as int,
        ),
        out.1.wf(),
        out.1.num_lines == rs.num_lines,
        out.1.cursor_line as int == move_to_row(
            prompt_len as int,
            end as int,
            width as int,
            rs.num_lines as int,
        ),
{
    let w = width as usize;
    let ghost gw = width as int;
    let pos = end + prompt_len;
    let col = (pos % w) as u16;
    proof {
        lemma_mod_bound(pos as int, gw);
    }
    let mut v: Vec<TermCmd> = Vec::new();
    push_cmd(&mut v, TermCmd::MoveToColumn(col));
    let target = pos / w;
    let row = if target <= rs.num_lines as usize {
        target
    } else {
        rs.num_lines as usize
    };
    if (rs.cursor_line as usize) > row {
        push_cmd(&mut v, TermCmd::MoveUp(rs.cursor_line - row as u16));
    } else if (rs.cursor_line as usize) < row {
        push_cmd(&mut v, TermCmd::MoveDown((row - rs.cursor_line as usize) as u16));
    }
    proof {
        assert(v.deep_view() =~= move_to_cmds_spec(
            prompt_len as int,
            end as int,
            gw,
            rs.cursor_line as int,
            rs.num_lines as int,
        ));
    }
    (v, RenderState { cursor_line: row as u16, num_lines: rs.num_lines })
}

/// The text printed for the visible range `[lo, hi)` of the buffer, through
/// the escape-aware window of the display string when that path applies.
fn display_slice_exec(data: &Vec<char>, hl: &String, lo: usize, hi: usize) -> (r: String)
    requires
        lo <= hi <= data@.len(),
    ensures
        r@ == display_slice(data@, hl@, lo as int, hi as int),
{
    if hl.as_str().is_ascii() {
        let vis = ansi_visible_len(hl.as_str());
        if vis == data.len() {
            let suf = ansi_get(hl.as_str(), lo, vis);
            let avail = ansi_visible_len(suf.as_str());
            let span = hi - lo;
            let k = if span <= avail {
                span
            } else {
                avail
            };
            ansi_get(suf.as_str(), 0, k)
        } else {
            plain_slice(data, lo, hi)
        }
    } else {
        plain_slice(data, lo, hi)
    }
}

} // verus!
