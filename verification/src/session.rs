use vstd::prelude::*;

use crate::Completion;
use crate::EditResult;
use crate::Editor;
use crate::Highlight;
use crate::Key;
use crate::KeyInput;
use crate::ReadState;
use crate::ansi::prompt_cells;
use crate::ansi::ansi_visible_len;
use crate::buffer::EditBuffer;
use crate::completion::COMPLETION_LIMIT;
use crate::completion::CompletionState;
use crate::completion::clear_completions;
use crate::completion::clear_panel_cmds_spec;
use crate::completion::grid_width;
use crate::completion::panel_rows_of;
use crate::completion::show_completions;
use crate::completion::show_panel_cmds_spec;
use crate::history::History;
use crate::history_reset;
use crate::history_submitted;
use crate::render::RenderState;
use crate::render::TermCmd;
use crate::render::TermCmdView;
use crate::render::append_cmds;
use crate::render::cursor_row_after;
use crate::render::geometry_ok;
use crate::render::move_to_cmds_spec;
use crate::render::move_to_row;
use crate::render::redraw_cmds_spec;
use crate::render::render_line;
use crate::render::rows_after;
use crate::scan::boundary_back;
use crate::scan::boundary_fwd;
use crate::scan::contains_char;
use crate::textops::chars_to_string;
use crate::textops::push_char;
use crate::textops::str_chars;
use crate::textops::to_upper_char;
use crate::textops::upper_first_of;

verus! {

/// Whether a key belongs to the completion panel's own sub-protocol; any
/// other key closes an open panel before it is handled.
pub open spec fn panel_key(k: Key) -> bool {
    k is Tab || k is Left || k is Right || k is Up || k is Down
}

/// The editor's configuration that no keystroke changes.
pub open spec fn config_kept<H: Highlight, C: Completion>(
    e0: Editor<H, C>,
    e1: Editor<H, C>,
) -> bool {
    &&& e1.prompt == e0.prompt
    &&& e1.word_breaks == e0.word_breaks
    &&& (e1.highlight is Some <==> e0.highlight is Some)
    &&& (e1.completion is Some <==> e0.completion is Some)
}

/// Two histories that hold the same entries, index, cap and path.
pub open spec fn history_same(h0: Option<History>, h1: Option<History>) -> bool {
    match h0 {
        Option::None => h1 is None,
        Option::Some(h) => {
            &&& h1 is Some
            &&& h1->Some_0.entries() == h.entries()
            &&& h1->Some_0.nav() == h.nav()
            &&& h1->Some_0.cap() == h.cap()
            &&& h1->Some_0.path() == h.path()
        },
    }
}

/// One redraw of the already-updated buffer, with its commands appended
/// after `pre`: the row bookkeeping is exact; the commands are exact when no
/// highlighter is attached and otherwise exact up to the highlighter's
/// output; outside the geometry bounds nothing is drawn.
pub open spec fn redrawn<H: Highlight, C: Completion>(
    e0: Editor<H, C>,
    buf: EditBuffer,
    rs0: RenderState,
    rs1: RenderState,
    width: u16,
    pre: Seq<TermCmdView>,
    cmds: Seq<TermCmdView>,
) -> bool {
    let p = prompt_cells(e0.prompt@);
    let w = width as int;
    let len = buf.text@.len() as int;
    if geometry_ok(p, len, w) {
        &&& rs1.num_lines as int == rows_after(p, len, buf.cursor as int, w)
        &&& rs1.cursor_line as int == cursor_row_after(p, len, buf.cursor as int, w)
        &&& (e0.highlight is None ==> cmds == pre + redraw_cmds_spec(
            buf.text@,
            buf.text@,
            p,
            buf.cursor as int,
            w,
            rs0.cursor_line as int,
            rs0.num_lines as int,
        ))
        &&& exists|hv: Seq<char>|
            cmds == pre + redraw_cmds_spec(
                buf.text@,
                hv,
                p,
                buf.cursor as int,
                w,
                rs0.cursor_line as int,
                rs0.num_lines as int,
            )
    } else {
        rs1 == rs0 && cmds == pre
    }
}

/// One cursor-only move to buffer position `end`, with its commands appended
/// after `pre`; outside the geometry bounds (taken over the whole buffer
/// length) nothing moves.
pub open spec fn moved_to(
    p: int,
    len: int,
    end: int,
    w: int,
    rs0: RenderState,
    rs1: RenderState,
    pre: Seq<TermCmdView>,
    cmds: Seq<TermCmdView>,
) -> bool {
    if geometry_ok(p, len, w) {
        &&& cmds == pre + move_to_cmds_spec(p, end, w, rs0.cursor_line as int, rs0.num_lines as int)
        &&& rs1.num_lines == rs0.num_lines
        &&& rs1.cursor_line as int == move_to_row(p, end, w, rs0.num_lines as int)
    } else {
        rs1 == rs0 && cmds == pre
    }
}

/// A selection step inside an open panel: the selection moves by `delta`
/// toward the first candidate (`back`) or the last one, saturating at
/// either end; the panel is erased and drawn again around the new
/// selection, and the cursor is parked back on its cell.
pub open spec fn reselected(
    s0: ReadState,
    s1: ReadState,
    p: int,
    w: int,
    back: bool,
    delta: int,
    cmds: Seq<TermCmdView>,
) -> bool {
    let sel0 = s0.comp.selected_index as int;
    let n = s0.comp.candidates@.len() as int;
    let sel1 = if back {
        if sel0 >= delta {
            sel0 - delta
        } else {
            0
        }
    } else {
        if sel0 + delta < n {
            sel0 + delta
        } else {
            n - 1
        }
    };
    let pre = clear_panel_cmds_spec(
        s0.comp.panel_rows as int,
        s0.render.cursor_line as int,
        s0.render.num_lines as int,
    ) + show_panel_cmds_spec(
        s0.comp.candidates.deep_view(),
        sel1,
        s0.render.cursor_line as int,
        s0.render.num_lines as int,
    );
    &&& s1.buf == s0.buf
    &&& s1.comp.candidates == s0.comp.candidates
    &&& s1.comp.panel_rows == s0.comp.panel_rows
    &&& s1.comp.selected_index as int == sel1
    &&& moved_to(
        p,
        s0.buf.text@.len() as int,
        s0.buf.cursor as int,
        w,
        s0.render,
        s1.render,
        pre,
        cmds,
    )
}

/// A committed completion: the selected candidate replaces the span from
/// the space boundary before the cursor (keeping a word-break character
/// found at that boundary) up to the cursor, the cursor lands after the
/// inserted text, the panel closes, and the line is redrawn. A candidate
/// that would not fit in the machine's integers leaves the buffer as it is.
pub open spec fn commit_spec<H: Highlight, C: Completion>(
    e0: Editor<H, C>,
    e1: Editor<H, C>,
    s0: ReadState,
    s1: ReadState,
    width: u16,
    cmds: Seq<TermCmdView>,
) -> bool {
    let data0 = s0.buf.text@;
    let c0 = s0.buf.cursor as int;
    let b = boundary_back(seq![' '], data0, c0);
    let start = if b < c0 && e0.word_breaks@.contains(data0[b]) {
        b + 1
    } else {
        b
    };
    let cand = s0.comp.candidates@[s0.comp.selected_index as int]@;
    let fits = data0.len() + cand.len() <= usize::MAX;
    let pre = clear_panel_cmds_spec(
        s0.comp.panel_rows as int,
        s0.render.cursor_line as int,
        s0.render.num_lines as int,
    );
    &&& config_kept(e0, e1)
    &&& e1.history == e0.history
    &&& (if fits {
        s1.buf.text@ == data0.take(start) + cand + data0.skip(c0) && s1.buf.cursor as int == start
            + cand.len()
    } else {
        s1.buf == s0.buf
    })
    &&& s1.comp.candidates == s0.comp.candidates
    &&& s1.comp.selected_index == 0
    &&& s1.comp.panel_rows == 0
    &&& redrawn(e0, s1.buf, s0.render, s1.render, width, pre, cmds)
}

/// A completion query: whatever candidate list came back is stored with the
/// selection on its first entry; a list that fits the panel is drawn, after
/// any previous panel is erased, and anything else leaves no panel open;
/// the cursor is then parked back on its cell.
pub open spec fn tab_shown(
    s0: ReadState,
    s1: ReadState,
    p: int,
    w: int,
    cs: Seq<Seq<char>>,
    cmds: Seq<TermCmdView>,
    pre: Seq<TermCmdView>,
) -> bool {
    let cl = s0.render.cursor_line as int;
    let nl = s0.render.num_lines as int;
    let pre2 = pre + if s0.comp.panel_open() {
        clear_panel_cmds_spec(s0.comp.panel_rows as int, cl, nl)
    } else {
        Seq::<TermCmdView>::empty()
    };
    let shown = 0 < cs.len() <= COMPLETION_LIMIT && grid_width(cs) <= usize::MAX;
    &&& s1.buf == s0.buf
    &&& s1.comp.candidates.deep_view() == cs
    &&& s1.comp.selected_index == 0
    &&& (if shown {
        s1.comp.panel_rows as int == panel_rows_of(cs.len() as int) && moved_to(
            p,
            s0.buf.text@.len() as int,
            s0.buf.cursor as int,
            w,
            s0.render,
            s1.render,
            pre2 + show_panel_cmds_spec(cs, 0, cl, nl),
            cmds,
        )
    } else {
        s1.comp.panel_rows == 0 && moved_to(
            p,
            s0.buf.text@.len() as int,
            s0.buf.cursor as int,
            w,
            s0.render,
            s1.render,
            pre2,
            cmds,
        )
    })
}

/// What one keystroke does to the session, stated over the state after an
/// open panel was closed (`s0`) and the panel-closing commands (`pre`).
pub open spec fn dispatch_spec<H: Highlight, C: Completion>(
    e0: Editor<H, C>,
    e1: Editor<H, C>,
    s0: ReadState,
    s1: ReadState,
    key: KeyInput,
    width: u16,
    cmds: Seq<TermCmdView>,
    res: Option<EditResult>,
    pre: Seq<TermCmdView>,
) -> bool {
    let p = prompt_cells(e0.prompt@);
    let w = width as int;
    let data0 = s0.buf.text@;
    let c0 = s0.buf.cursor as int;
    let len0 = data0.len() as int;
    match key.code {
        Key::Enter => {
            // Submission: the line is returned as it stands and appended to
            // the history, whose navigation index is reset.
            &&& res matches Option::Some(EditResult::Done(t)) && t@ == data0
            &&& s1.buf == s0.buf
            &&& s1.render == s0.render
            &&& s1.comp == s0.comp
            &&& config_kept(e0, e1)
            &&& history_submitted(e0.history, e1.history, data0)
            &&& cmds == pre + seq![TermCmdView::Print(seq!['\n'])]
        },
        Key::Backspace => {
            &&& res is None
            &&& config_kept(e0, e1)
            &&& e1.history == e0.history
            &&& s1.comp == s0.comp
            &&& (if c0 > 0 {
                &&& s1.buf.text@ == data0.take(c0 - 1) + data0.skip(c0)
                &&& s1.buf.cursor as int == c0 - 1
                &&& redrawn(e0, s1.buf, s0.render, s1.render, width, pre, cmds)
            } else {
                s1.buf == s0.buf && s1.render == s0.render && cmds == pre
            })
        },
        Key::Char(ch) => {
            if key.control {
                if ch == 'h' {
                    let b = boundary_back(e0.word_breaks@, data0, c0);
                    &&& res is None
                    &&& config_kept(e0, e1)
                    &&& e1.history == e0.history
                    &&& s1.comp == s0.comp
                    &&& s1.buf.text@ == data0.take(b) + data0.skip(c0)
                    &&& s1.buf.cursor as int == b
                    &&& redrawn(e0, s1.buf, s0.render, s1.render, width, pre, cmds)
                } else if ch == 'd' {
                    &&& res == Option::Some(
                        if len0 == 0 {
                            EditResult::Quit
                        } else {
                            EditResult::Cancel
                        },
                    )
                    &&& config_kept(e0, e1)
                    &&& history_reset(e0.history, e1.history)
                    &&& s1.buf == s0.buf
                    &&& s1.render == s0.render
                    &&& s1.comp == s0.comp
                    &&& cmds == pre + seq![TermCmdView::Print(seq!['\n'])]
                } else if ch == 'c' {
                    &&& res == Option::Some(EditResult::Cancel)
                    &&& config_kept(e0, e1)
                    &&& history_reset(e0.history, e1.history)
                    &&& s1.buf == s0.buf
                    &&& s1.render == s0.render
                    &&& s1.comp == s0.comp
                    &&& cmds == pre + seq![TermCmdView::Print(seq!['\n'])]
                } else {
                    &&& res is None
                    &&& config_kept(e0, e1)
                    &&& e1.history == e0.history
                    &&& s1 == s0
                    &&& cmds == pre
                }
            } else {
                let c2 = if key.shift != key.caps_lock {
                    upper_first_of(ch)
                } else {
                    ch
                };
                &&& res is None
                &&& config_kept(e0, e1)
                &&& e1.history == e0.history
                &&& s1.comp == s0.comp
                &&& s1.buf.text@ == data0.insert(c0, c2)
                &&& s1.buf.cursor as int == c0 + 1
                &&& redrawn(e0, s1.buf, s0.render, s1.render, width, pre, cmds)
            }
        },
        Key::Left => {
            &&& res is None
            &&& config_kept(e0, e1)
            &&& e1.history == e0.history
            &&& (if s0.comp.panel_open() {
                reselected(s0, s1, p, w, true, 1, cmds)
            } else if key.control {
                let t = boundary_back(e0.word_breaks@, data0, c0);
                &&& s1.comp == s0.comp
                &&& s1.buf.text == s0.buf.text
                &&& s1.buf.cursor as int == t
                &&& moved_to(p, len0, t, w, s0.render, s1.render, pre, cmds)
            } else if c0 != 0 {
                &&& s1.comp == s0.comp
                &&& s1.buf.text == s0.buf.text
                &&& s1.buf.cursor as int == c0 - 1
                &&& moved_to(p, len0, c0 - 1, w, s0.render, s1.render, pre, cmds)
            } else {
                s1 == s0 && cmds == pre
            })
        },
        Key::Right => {
            &&& res is None
            &&& config_kept(e0, e1)
            &&& e1.history == e0.history
            &&& (if s0.comp.panel_open() {
                reselected(s0, s1, p, w, false, 1, cmds)
            } else if key.control {
                if c0 < len0 {
                    let t = boundary_fwd(e0.word_breaks@, data0, c0) + 1;
                    &&& s1.comp == s0.comp
                    &&& s1.buf.text == s0.buf.text
                    &&& s1.buf.cursor as int == t
                    &&& moved_to(p, len0, t, w, s0.render, s1.render, pre, cmds)
                } else {
                    s1 == s0 && cmds == pre
                }
            } else if c0 != len0 {
                &&& s1.comp == s0.comp
                &&& s1.buf.text == s0.buf.text
                &&& s1.buf.cursor as int == c0 + 1
                &&& moved_to(p, len0, c0 + 1, w, s0.render, s1.render, pre, cmds)
            } else {
                s1 == s0 && cmds == pre
            })
        },
        Key::Up => {
            &&& res is None
            &&& config_kept(e0, e1)
            &&& (if s0.comp.panel_open() {
                e1.history == e0.history && reselected(s0, s1, p, w, true, 2, cmds)
            } else {
                match e0.history {
                    Option::None => e1.history is None && s1 == s0 && cmds == pre,
                    Option::Some(h) => {
                        if h.nav() > 0 {
                            let line = h.entries()[h.nav() - 1];
                            &&& e1.history matches Option::Some(g) && g.entries() == h.entries()
                                && g.nav() == h.nav() - 1 && g.cap() == h.cap() && g.path()
                                == h.path()
                            &&& s1.comp == s0.comp
                            &&& s1.buf.text@ == line
                            &&& s1.buf.cursor as int == line.len()
                            &&& redrawn(e0, s1.buf, s0.render, s1.render, width, pre, cmds)
                        } else {
                            &&& history_same(e0.history, e1.history)
                            &&& s1.buf == s0.buf
                            &&& s1.render == s0.render
                            &&& s1.comp == s0.comp
                            &&& cmds == pre
                        }
                    },
                }
            })
        },
        Key::Down => {
            &&& res is None
            &&& config_kept(e0, e1)
            &&& (if s0.comp.panel_open() {
                e1.history == e0.history && reselected(s0, s1, p, w, false, 2, cmds)
            } else {
                match e0.history {
                    Option::None => e1.history is None && s1 == s0 && cmds == pre,
                    Option::Some(h) => {
                        if h.nav() + 1 < h.entries().len() {
                            let line = h.entries()[h.nav() + 1];
                            &&& e1.history matches Option::Some(g) && g.entries() == h.entries()
                                && g.nav() == h.nav() + 1 && g.cap() == h.cap() && g.path()
                                == h.path()
                            &&& s1.comp == s0.comp
                            &&& s1.buf.text@ == line
                            &&& s1.buf.cursor as int == line.len()
                            &&& redrawn(e0, s1.buf, s0.render, s1.render, width, pre, cmds)
                        } else {
                            // Past the newest entry the buffer is presented
                            // fresh.
                            &&& history_same(e0.history, e1.history)
                            &&& s1.comp == s0.comp
                            &&& s1.buf.text@ == Seq::<char>::empty()
                            &&& s1.buf.cursor == 0
                            &&& redrawn(e0, s1.buf, s0.render, s1.render, width, pre, cmds)
                        }
                    },
                }
            })
        },
        Key::Home => {
            &&& res is None
            &&& config_kept(e0, e1)
            &&& e1.history == e0.history
            &&& s1.comp == s0.comp
            &&& s1.buf.text == s0.buf.text
            &&& s1.buf.cursor == 0
            &&& moved_to(p, len0, 0, w, s0.render, s1.render, pre, cmds)
        },
        Key::End => {
            &&& res is None
            &&& config_kept(e0, e1)
            &&& e1.history == e0.history
            &&& s1.comp == s0.comp
            &&& s1.buf.text == s0.buf.text
            &&& s1.buf.cursor as int == len0
            &&& moved_to(p, len0, len0, w, s0.render, s1.render, pre, cmds)
        },
        Key::Tab => {
            &&& res is None
            &&& config_kept(e0, e1)
            &&& e1.history == e0.history
            &&& (if e0.completion is None {
                s1 == s0 && cmds == pre
            } else {
                exists|cs: Seq<Seq<char>>| tab_shown(s0, s1, p, w, cs, cmds, pre)
            })
        },
        Key::Other => {
            &&& res is None
            &&& config_kept(e0, e1)
            &&& e1.history == e0.history
            &&& s1 == s0
            &&& cmds == pre
        },
    }
}

/// Whether the wrap arithmetic of a render stays within bounds for this
/// prompt length, content length and width.
fn render_guard(p: usize, len: usize, width: u16) -> (ok: bool)
    ensures
        ok == geometry_ok(p as int, len as int, width as int),
{
    let w = width as usize;
    if width == 0 || p >= w {
        return false;
    }
    proof {
        assert(w * 0xffff >= w) by (nonlinear_arith)
            requires
                w >= 1,
        ;
        assert(w * 0xffff <= 0xffff * 0xffff) by (nonlinear_arith)
            requires
                w <= 0xffff,
        ;
    }
    len < w * 0xffff - p
}

/// Appends the final newline print that ends a read.
fn push_newline(cmds: &mut Vec<TermCmd>)
    ensures
        final(cmds).deep_view() == old(cmds).deep_view() + seq![TermCmdView::Print(seq!['\n'])],
{
    let mut s = String::new();
    push_char(&mut s, '\n');
    let ghost prev = cmds.deep_view();
    cmds.push(TermCmd::Print(s));
    proof {
        assert(cmds.deep_view() =~= prev + seq![TermCmdView::Print(seq!['\n'])]);
    }
}

/// Parks the visual cursor on the cell of the buffer's cursor, when the
/// geometry allows any rendering at all.
fn do_move(st: &mut ReadState, p: usize, width: u16, cmds: &mut Vec<TermCmd>)
    requires
        old(st).wf(),
    ensures
        final(st).wf(),
        final(st).buf == old(st).buf,
        final(st).comp == old(st).comp,
        moved_to(
            p as int,
            old(st).buf.text@.len() as int,
            old(st).buf.cursor as int,
            width as int,
            old(st).render,
            final(st).render,
            old(cmds).deep_view(),
            final(cmds).deep_view(),
        ),
{
    if render_guard(p, st.buf.text.len(), width) {
        let (mc, rs) = crate::render::move_to(p, st.buf.cursor, width, st.render);
        append_cmds(cmds, mc);
        st.render = rs;
    }
}

/// Applies one selection step to an open panel and draws it again.
fn reselect(st: &mut ReadState, p: usize, width: u16, cmds: &mut Vec<TermCmd>, back: bool, delta: usize)
    requires
        old(st).wf(),
        old(st).comp.panel_open(),
        delta <= 2,
        old(cmds)@.len() == 0,
    ensures
        final(st).wf(),
        reselected(
            *old(st),
            *final(st),
            p as int,
            width as int,
            back,
            delta as int,
            final(cmds).deep_view(),
        ),
{
    if back {
        st.comp.select_back(delta);
    } else {
        st.comp.select_fwd(delta);
    }
    let cc = clear_completions(st.comp.panel_rows, st.render);
    append_cmds(cmds, cc);
    proof {
        assert(old(cmds).deep_view() =~= Seq::<TermCmdView>::empty());
        assert(cmds.deep_view() =~= clear_panel_cmds_spec(
            st.comp.panel_rows as int,
            st.render.cursor_line as int,
            st.render.num_lines as int,
        ));
    }
    match show_completions(&st.comp.candidates, st.comp.selected_index, st.render) {
        Some(pc) => {
            append_cmds(cmds, pc.0);
            st.comp.panel_rows = pc.1;
        },
        None => {
            proof {
                assert(false);
            }
        },
    }
    let ghost pre = clear_panel_cmds_spec(
        old(st).comp.panel_rows as int,
        old(st).render.cursor_line as int,
        old(st).render.num_lines as int,
    ) + show_panel_cmds_spec(
        old(st).comp.candidates.deep_view(),
        st.comp.selected_index as int,
        old(st).render.cursor_line as int,
        old(st).render.num_lines as int,
    );
    proof {
        assert(cmds.deep_view() =~= pre);
    }
    do_move(st, p, width, cmds);
}

impl<H: Highlight, C: Completion> Editor<H, C> {
    /// Draws the (already updated) buffer again, through the highlighter if
    /// one is attached.
    fn redraw(&mut self, st: &mut ReadState, p: usize, width: u16, cmds: &mut Vec<TermCmd>)
        requires
            old(st).wf(),
            p as int == prompt_cells(old(self).prompt@),
        ensures
            final(st).wf(),
            final(st).buf == old(st).buf,
            final(st).comp == old(st).comp,
            final(self).prompt == old(self).prompt,
            final(self).word_breaks == old(self).word_breaks,
            final(self).history == old(self).history,
            final(self).completion == old(self).completion,
            final(self).highlight is Some <==> old(self).highlight is Some,
            redrawn(
                *old(self),
                old(st).buf,
                old(st).render,
                final(st).render,
                width,
                old(cmds).deep_view(),
                final(cmds).deep_view(),
            ),
    {
        if render_guard(p, st.buf.text.len(), width) {
            let text = chars_to_string(&st.buf.text);
            let hl = match &mut self.highlight {
                Some(h) => h.highlight(text.as_str()),
                None => text,
            };
            let (rc, rs) = render_line(&st.buf.text, &hl, p, st.buf.cursor, width, st.render);
            append_cmds(cmds, rc);
            st.render = rs;
            proof {
                let hv = hl@;
                assert(cmds.deep_view() == old(cmds).deep_view() + redraw_cmds_spec(
                    st.buf.text@,
                    hv,
                    p as int,
                    st.buf.cursor as int,
                    width as int,
                    old(st).render.cursor_line as int,
                    old(st).render.num_lines as int,
                ));
            }
        }
    }

    /// Commits the selected candidate into the buffer, closing the panel.
    fn commit_completion(&mut self, st: &mut ReadState, p: usize, width: u16, cmds: &mut Vec<
        TermCmd,
    >)
        requires
            old(self).wf(),
            old(st).wf(),
            old(st).comp.panel_open(),
            p as int == prompt_cells(old(self).prompt@),
            old(cmds)@.len() == 0,
        ensures
            final(self).wf(),
            final(st).wf(),
            commit_spec(
                *old(self),
                *final(self),
                *old(st),
                *final(st),
                width,
                final(cmds).deep_view(),
            ),
    {
        let cc = clear_completions(st.comp.panel_rows, st.render);
        append_cmds(cmds, cc);
        proof {
            assert(old(cmds).deep_view() =~= Seq::<TermCmdView>::empty());
            assert(cmds.deep_view() =~= clear_panel_cmds_spec(
                st.comp.panel_rows as int,
                st.render.cursor_line as int,
                st.render.num_lines as int,
            ));
        }
        let sel = st.comp.selected_index;
        let old_cursor = st.buf.cursor;
        let b = self.find_space_boundary(&st.buf.text, old_cursor, true);
        let breaks = str_chars(self.word_breaks.as_str());
        let start = if b < old_cursor && contains_char(&breaks, st.buf.text[b]) {
            b + 1
        } else {
            b
        };
        let cand_chars = str_chars(st.comp.candidates[sel].as_str());
        if cand_chars.len() <= usize::MAX - st.buf.text.len() {
            let ghost data0 = st.buf.text@;
            st.buf.delete_range(start, old_cursor);
            st.buf.insert_text(&cand_chars);
            proof {
                assert(st.buf.text@ =~= data0.take(start as int) + cand_chars@ + data0.skip(
                    old_cursor as int,
                ));
            }
        }
        st.comp.panel_rows = 0;
        st.comp.selected_index = 0;
        self.redraw(st, p, width, cmds);
    }

    /// Feeds one keystroke to the session. The returned commands are what
    /// the terminal driver performs next, in order; the returned result,
    /// when present, ends the read.
    #[verifier::rlimit(100)]
    pub fn step(&mut self, st: &mut ReadState, key: KeyInput, width: u16) -> (out: (
        Vec<TermCmd>,
        Option<EditResult>,
    ))
        requires
            old(self).wf(),
            old(st).wf(),
        ensures
            final(self).wf(),
            final(st).wf(),
            step_spec(
                *old(self),
                *final(self),
                *old(st),
                *final(st),
                key,
                width,
                out.0.deep_view(),
                out.1,
            ),
    {
        // An escape-free prompt is one cell per codepoint; a non-ASCII
        // prompt with escapes, which the escape scanner cannot measure,
        // gets a width past any terminal, so every draw falls back to the
        // no-draw path.
        let p = if self.prompt.as_str().is_ascii() {
            ansi_visible_len(self.prompt.as_str())
        } else {
            let prompt_chars = str_chars(self.prompt.as_str());
            if contains_char(&prompt_chars, '\x1b') {
                0x10000
            } else {
                prompt_chars.len()
            }
        };
        proof {
            assert(p as int == prompt_cells(self.prompt@));
        }
        let mut cmds: Vec<TermCmd> = Vec::new();
        proof {
            assert(cmds.deep_view() =~= Seq::<TermCmdView>::empty());
        }
        if matches!(key.code, Key::Enter) && st.comp.panel_rows != 0 {
            self.commit_completion(st, p, width, &mut cmds);
            return (cmds, None);
        }
        if st.comp.panel_rows != 0 && !matches!(
            key.code,
            Key::Tab | Key::Left | Key::Right | Key::Up | Key::Down,
        ) {
            let cc = clear_completions(st.comp.panel_rows, st.render);
            append_cmds(&mut cmds, cc);
            st.comp.panel_rows = 0;
            st.comp.selected_index = 0;
        }
        let mut result: Option<EditResult> = None;
        match key.code {
            Key::Enter => {
                self.reset_history_index();
                let text = chars_to_string(&st.buf.text);
                if let Some(h) = &mut self.history {
                    h.push(text.clone());
                }
                push_newline(&mut cmds);
                result = Some(EditResult::Done(text));
            },
            Key::Backspace => {
                if st.buf.cursor != 0 {
                    let c = st.buf.cursor;
                    st.buf.delete_range(c - 1, c);
                    self.redraw(st, p, width, &mut cmds);
                }
            },
            Key::Char(ch) => {
                if key.control {
                    if ch == 'h' {
                        let c = st.buf.cursor;
                        let b = self.find_word_boundary(&st.buf.text, c, true);
                        st.buf.delete_range(b, c);
                        self.redraw(st, p, width, &mut cmds);
                    } else if ch == 'd' {
                        self.reset_history_index();
                        push_newline(&mut cmds);
                        result = Some(
                            if st.buf.text.len() == 0 {
                                EditResult::Quit
                            } else {
                                EditResult::Cancel
                            },
                        );
                    } else if ch == 'c' {
                        self.reset_history_index();
                        push_newline(&mut cmds);
                        result = Some(EditResult::Cancel);
                    }
                } else {
                    let c2 = if key.shift != key.caps_lock {
                        to_upper_char(ch)
                    } else {
                        ch
                    };
                    st.buf.insert(c2);
                    self.redraw(st, p, width, &mut cmds);
                }
            },
            Key::Left => {
                if st.comp.panel_rows != 0 {
                    reselect(st, p, width, &mut cmds, true, 1);
                } else if key.control {
                    let b = self.find_word_boundary(&st.buf.text, st.buf.cursor, true);
                    st.buf.cursor = b;
                    do_move(st, p, width, &mut cmds);
                } else if st.buf.cursor != 0 {
                    st.buf.cursor = st.buf.cursor - 1;
                    do_move(st, p, width, &mut cmds);
                }
            },
            Key::Right => {
                if st.comp.panel_rows != 0 {
                    reselect(st, p, width, &mut cmds, false, 1);
                } else if key.control {
                    if st.buf.cursor < st.buf.text.len() {
                        let b = self.find_word_boundary(&st.buf.text, st.buf.cursor, false);
                        st.buf.cursor = b + 1;
                        do_move(st, p, width, &mut cmds);
                    }
                } else if st.buf.cursor != st.buf.text.len() {
                    st.buf.cursor = st.buf.cursor + 1;
                    do_move(st, p, width, &mut cmds);
                }
            },
            Key::Up => {
                if st.comp.panel_rows != 0 {
                    reselect(st, p, width, &mut cmds, true, 2);
                } else if self.history.is_some() {
                    let line_opt = match &mut self.history {
                        Some(h) => h.up(),
                        None => None,
                    };
                    match line_opt {
                        Some(line) => {
                            st.buf.replace_all(str_chars(line.as_str()));
                            self.redraw(st, p, width, &mut cmds);
                        },
                        None => {},
                    }
                }
            },
            Key::Down => {
                if st.comp.panel_rows != 0 {
                    reselect(st, p, width, &mut cmds, false, 2);
                } else if self.history.is_some() {
                    let line_opt = match &mut self.history {
                        Some(h) => h.down(),
                        None => None,
                    };
                    match line_opt {
                        Some(line) => {
                            st.buf.replace_all(str_chars(line.as_str()));
                            self.redraw(st, p, width, &mut cmds);
                        },
                        None => {
                            st.buf.clear();
                            self.redraw(st, p, width, &mut cmds);
                        },
                    }
                }
            },
            Key::Home => {
                st.buf.cursor = 0;
                do_move(st, p, width, &mut cmds);
            },
            Key::End => {
                st.buf.cursor = st.buf.text.len();
                do_move(st, p, width, &mut cmds);
            },
            Key::Tab => {
                let ghost s0 = *st;
                if self.completion.is_some() {
                    let ws = self.find_space_boundary(&st.buf.text, st.buf.cursor, true);
                    let text = chars_to_string(&st.buf.text);
                    let cands = match &mut self.completion {
                        Some(c) => c.complete(text.as_str(), ws, st.buf.cursor),
                        None => Vec::new(),
                    };
                    st.comp.candidates = cands;
                    st.comp.selected_index = 0;
                    let ghost pre2 = if s0.comp.panel_open() {
                        clear_panel_cmds_spec(
                            s0.comp.panel_rows as int,
                            s0.render.cursor_line as int,
                            s0.render.num_lines as int,
                        )
                    } else {
                        Seq::<TermCmdView>::empty()
                    };
                    if st.comp.panel_rows != 0 {
                        let cc = clear_completions(st.comp.panel_rows, st.render);
                        append_cmds(&mut cmds, cc);
                        st.comp.panel_rows = 0;
                    }
                    proof {
                        assert(cmds.deep_view() =~= pre2);
                    }
                    match show_completions(&st.comp.candidates, 0, st.render) {
                        Some(pc) => {
                            append_cmds(&mut cmds, pc.0);
                            st.comp.panel_rows = pc.1;
                            proof {
                                if st.comp.candidates@.len() > 0 {
                                    assert(cmds.deep_view() =~= pre2 + show_panel_cmds_spec(
                                        st.comp.candidates.deep_view(),
                                        0,
                                        s0.render.cursor_line as int,
                                        s0.render.num_lines as int,
                                    ));
                                } else {
                                    assert(cmds.deep_view() =~= pre2);
                                }
                            }
                        },
                        None => {
                            st.comp.panel_rows = 0;
                        },
                    }
                    do_move(st, p, width, &mut cmds);
                    proof {
                        let cs = st.comp.candidates.deep_view();
                        assert(cs.len() == st.comp.candidates@.len());
                        assert(Seq::<TermCmdView>::empty() + pre2 =~= pre2);
                        assert(tab_shown(
                            s0,
                            *st,
                            p as int,
                            width as int,
                            cs,
                            cmds.deep_view(),
                            Seq::<TermCmdView>::empty(),
                        ));
                    }
                }
            },
            Key::Other => {},
        }
        (cmds, result)
    }
}

/// What one keystroke does to the whole session. Enter over an open panel
/// commits the selected candidate; any other key outside the panel's
/// sub-protocol first closes an open panel (erasing it and resetting its
/// selection), and is then handled as the dispatch table says.
pub open spec fn step_spec<H: Highlight, C: Completion>(
    e0: Editor<H, C>,
    e1: Editor<H, C>,
    s0: ReadState,
    s1: ReadState,
    key: KeyInput,
    width: u16,
    cmds: Seq<TermCmdView>,
    res: Option<EditResult>,
) -> bool {
    if key.code is Enter && s0.comp.panel_open() {
        res is None && commit_spec(e0, e1, s0, s1, width, cmds)
    } else if s0.comp.panel_open() && !panel_key(key.code) {
        let pre = clear_panel_cmds_spec(
            s0.comp.panel_rows as int,
            s0.render.cursor_line as int,
            s0.render.num_lines as int,
        );
        let comp1 = CompletionState {
            candidates: s0.comp.candidates,
            selected_index: 0,
            panel_rows: 0,
        };
        let s0c = ReadState { buf: s0.buf, render: s0.render, comp: comp1 };
        dispatch_spec(e0, e1, s0c, s1, key, width, cmds, res, pre)
    } else {
        dispatch_spec(e0, e1, s0, s1, key, width, cmds, res, Seq::<TermCmdView>::empty())
    }
}

} // verus!
