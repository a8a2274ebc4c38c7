use linoleum::{
    clear_completions, render_line, show_completions, CompletionState, RenderState, TermCmd,
};

fn chars(s: &str) -> Vec<char> {
    s.chars().collect()
}

#[test]
fn wrap_math_two_continuation_rows() {
    // Terminal width 10, prompt length 2, content length 23: total 25,
    // continuation rows 2; the cursor at the end maps to row 2, column 5.
    let data = chars("abcdefghijklmnopqrstuvw");
    let hl = "abcdefghijklmnopqrstuvw".to_string();
    let rs = RenderState { cursor_line: 0, num_lines: 0 };
    let (cmds, out) = render_line(&data, &hl, 2, 23, 10, rs);
    assert_eq!(out.num_lines, 2);
    assert_eq!(out.cursor_line, 2);
    assert_eq!(
        cmds,
        vec![
            TermCmd::MoveToColumn(2),
            TermCmd::ClearToLineEnd,
            TermCmd::Print("abcdefgh".to_string()),
            TermCmd::Print("\r\nijklmnopqr".to_string()),
            TermCmd::Print("\r\nstuvw".to_string()),
            TermCmd::MoveToColumn(5),
        ]
    );
}

#[test]
fn short_content_stays_on_one_row() {
    let data = chars("hi");
    let hl = "hi".to_string();
    let rs = RenderState { cursor_line: 0, num_lines: 0 };
    let (cmds, out) = render_line(&data, &hl, 3, 2, 20, rs);
    assert_eq!(out.num_lines, 0);
    assert_eq!(out.cursor_line, 0);
    assert_eq!(
        cmds,
        vec![
            TermCmd::MoveToColumn(3),
            TermCmd::ClearToLineEnd,
            TermCmd::Print("hi".to_string()),
            TermCmd::MoveToColumn(5),
        ]
    );
}

#[test]
fn exact_wrap_edge_forces_extra_break() {
    // Prompt 2 plus content 8 fill a width-10 row exactly; with the cursor
    // at the end an explicit break puts it on a fresh row.
    let data = chars("abcdefgh");
    let hl = "abcdefgh".to_string();
    let rs = RenderState { cursor_line: 0, num_lines: 0 };
    let (cmds, out) = render_line(&data, &hl, 2, 8, 10, rs);
    assert_eq!(out.num_lines, 1);
    assert_eq!(out.cursor_line, 1);
    assert_eq!(*cmds.last().unwrap(), TermCmd::Print("\r\n".to_string()));
}

#[test]
fn redraw_erases_previous_continuation_rows() {
    let data = chars("x");
    let hl = "x".to_string();
    let rs = RenderState { cursor_line: 1, num_lines: 2 };
    let (cmds, out) = render_line(&data, &hl, 2, 1, 10, rs);
    assert_eq!(
        cmds,
        vec![
            TermCmd::MoveUp(1),
            TermCmd::MoveToColumn(2),
            TermCmd::ClearToLineEnd,
            TermCmd::MoveDown(1),
            TermCmd::MoveToColumn(0),
            TermCmd::ClearLine,
            TermCmd::MoveDown(1),
            TermCmd::MoveToColumn(0),
            TermCmd::ClearLine,
            TermCmd::MoveUp(2),
            TermCmd::MoveToColumn(2),
            TermCmd::Print("x".to_string()),
            TermCmd::MoveToColumn(3),
        ]
    );
    assert_eq!(out.num_lines, 0);
    assert_eq!(out.cursor_line, 0);
}

#[test]
fn escape_sequences_are_kept_and_zero_width() {
    // A highlighter that only wraps the text in color escapes leaves the
    // layout untouched: the printed row carries the escapes.
    let data = chars("abc");
    let hl = "\x1b[31mabc\x1b[0m".to_string();
    let rs = RenderState { cursor_line: 0, num_lines: 0 };
    let (cmds, out) = render_line(&data, &hl, 2, 3, 20, rs);
    assert_eq!(out.num_lines, 0);
    assert_eq!(cmds[2], TermCmd::Print("\x1b[31mabc\x1b[0m".to_string()));
}

#[test]
fn wrapped_highlighted_content_slices_by_visible_cells() {
    let data = chars("abcdefghijklmnopqrstuvw");
    let hl = "\x1b[31mabcdefghijklmnopqrstuvw\x1b[0m".to_string();
    let rs = RenderState { cursor_line: 0, num_lines: 0 };
    let (cmds, out) = render_line(&data, &hl, 2, 23, 10, rs);
    assert_eq!(out.num_lines, 2);
    assert_eq!(cmds[2], TermCmd::Print("\x1b[31mabcdefgh".to_string()));
    assert_eq!(cmds[3], TermCmd::Print("\r\n\x1b[31mijklmnopqr".to_string()));
    assert_eq!(cmds[4], TermCmd::Print("\r\n\x1b[31mstuvw\x1b[0m".to_string()));
}

#[test]
fn mismatched_highlight_falls_back_to_plain_text() {
    // A highlighter that changes the visible length is ignored for layout
    // safety: the bare buffer characters are printed instead.
    let data = chars("abc");
    let hl = "abcdef".to_string();
    let rs = RenderState { cursor_line: 0, num_lines: 0 };
    let (cmds, _) = render_line(&data, &hl, 2, 3, 20, rs);
    assert_eq!(cmds[2], TermCmd::Print("abc".to_string()));
}

#[test]
fn completion_panel_rows_and_padding() {
    let cands = vec!["aa".to_string(), "b".to_string(), "cc".to_string()];
    let rs = RenderState { cursor_line: 0, num_lines: 0 };
    let (cmds, rows) = show_completions(&cands, 0, rs).unwrap();
    assert_eq!(rows, 2);
    // Column width is 3 (len "aa" + len "b"); the selected left entry is
    // wrapped in the highlight escape, every entry ends with a reset.
    assert_eq!(
        cmds,
        vec![
            TermCmd::Print("\r\n \x1b[38;5;6maa\x1b[0m b\x1b[0m".to_string()),
            TermCmd::Print("\r\n cc \x1b[0m".to_string()),
            TermCmd::MoveUp(2),
        ]
    );
}

#[test]
fn completion_panel_highlights_right_entry() {
    let cands = vec!["aa".to_string(), "b".to_string()];
    let rs = RenderState { cursor_line: 0, num_lines: 0 };
    let (cmds, rows) = show_completions(&cands, 1, rs).unwrap();
    assert_eq!(rows, 1);
    assert_eq!(
        cmds,
        vec![
            TermCmd::Print("\r\n aa\x1b[0m \x1b[38;5;6mb\x1b[0m".to_string()),
            TermCmd::MoveUp(1),
        ]
    );
}

#[test]
fn completion_panel_descends_below_wrapped_input() {
    let cands = vec!["x".to_string()];
    let rs = RenderState { cursor_line: 1, num_lines: 3 };
    let (cmds, _) = show_completions(&cands, 0, rs).unwrap();
    assert_eq!(cmds.first().unwrap(), &TermCmd::MoveDown(2));
    assert_eq!(cmds.last().unwrap(), &TermCmd::MoveUp(2));
}

#[test]
fn empty_candidates_draw_no_panel() {
    let cands: Vec<String> = Vec::new();
    let rs = RenderState { cursor_line: 0, num_lines: 0 };
    let (cmds, rows) = show_completions(&cands, 0, rs).unwrap();
    assert_eq!(rows, 0);
    assert!(cmds.is_empty());
}

#[test]
fn clear_panel_commands() {
    let rs = RenderState { cursor_line: 0, num_lines: 1 };
    let cmds = clear_completions(2, rs);
    assert_eq!(
        cmds,
        vec![
            TermCmd::MoveDown(1),
            TermCmd::MoveDown(1),
            TermCmd::ClearLine,
            TermCmd::MoveDown(1),
            TermCmd::ClearLine,
            TermCmd::MoveUp(2),
            TermCmd::MoveUp(1),
        ]
    );
}

#[test]
fn clear_panel_of_zero_rows_is_empty() {
    let rs = RenderState { cursor_line: 0, num_lines: 0 };
    assert!(clear_completions(0, rs).is_empty());
}

#[test]
fn selection_never_goes_below_zero() {
    let mut c = CompletionState {
        candidates: vec!["a".to_string(), "b".to_string()],
        selected_index: 0,
        panel_rows: 1,
    };
    for _ in 0..3 {
        c.select_back(1);
        assert_eq!(c.selected_index, 0);
    }
}

#[test]
fn selection_saturates_at_last_candidate() {
    let mut c = CompletionState {
        candidates: vec!["a".to_string(), "b".to_string(), "c".to_string()],
        selected_index: 2,
        panel_rows: 2,
    };
    c.select_fwd(1);
    assert_eq!(c.selected_index, 2);
    c.select_back(2);
    assert_eq!(c.selected_index, 0);
    c.select_fwd(2);
    assert_eq!(c.selected_index, 2);
}
