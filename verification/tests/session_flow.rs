use linoleum::{
    Completion, EditResult, Editor, Highlight, History, Key, KeyInput, ReadState, TermCmd,
};

fn chars(s: &str) -> Vec<char> {
    s.chars().collect()
}

fn press(code: Key) -> KeyInput {
    KeyInput { code, shift: false, control: false, caps_lock: false }
}

fn press_ctrl(code: Key) -> KeyInput {
    KeyInput { code, shift: false, control: true, caps_lock: false }
}

struct FixedCompletion(Vec<String>);

impl Completion for FixedCompletion {
    fn complete(&mut self, _data: &str, _start: usize, _end: usize) -> Vec<String> {
        self.0.clone()
    }
}

#[test]
fn typing_and_enter_submits_and_records_history() {
    let mut ed = Editor::new(" > ".to_string()).history(History::new("hist".to_string(), 100));
    let mut st = ReadState::new();
    for ch in "hello".chars() {
        let (_, res) = ed.step(&mut st, press(Key::Char(ch)), 80);
        assert!(res.is_none());
    }
    let (_, res) = ed.step(&mut st, press(Key::Enter), 80);
    assert_eq!(res, Some(EditResult::Done("hello".to_string())));
    assert_eq!(ed.history.as_ref().unwrap().lines(), &vec!["hello".to_string()]);
}

#[test]
fn ctrl_d_on_empty_buffer_quits() {
    let mut ed = Editor::new(" > ".to_string());
    let mut st = ReadState::new();
    let (_, res) = ed.step(&mut st, press_ctrl(Key::Char('d')), 80);
    assert_eq!(res, Some(EditResult::Quit));
}

#[test]
fn ctrl_d_on_nonempty_buffer_cancels() {
    let mut ed = Editor::new(" > ".to_string());
    let mut st = ReadState::new();
    ed.step(&mut st, press(Key::Char('x')), 80);
    let (_, res) = ed.step(&mut st, press_ctrl(Key::Char('d')), 80);
    assert_eq!(res, Some(EditResult::Cancel));
}

#[test]
fn ctrl_c_cancels_in_any_state() {
    let mut ed = Editor::new(" > ".to_string());
    let mut st = ReadState::new();
    let (_, res) = ed.step(&mut st, press_ctrl(Key::Char('c')), 80);
    assert_eq!(res, Some(EditResult::Cancel));
    ed.step(&mut st, press(Key::Char('x')), 80);
    let (_, res) = ed.step(&mut st, press_ctrl(Key::Char('c')), 80);
    assert_eq!(res, Some(EditResult::Cancel));
}

#[test]
fn insert_at_cursor_shifts_tail() {
    let mut ed = Editor::new(" > ".to_string());
    let mut st = ReadState::new();
    st.buf.text = chars("ac");
    st.buf.cursor = 1;
    ed.step(&mut st, press(Key::Char('b')), 80);
    assert_eq!(st.buf.text, chars("abc"));
    assert_eq!(st.buf.cursor, 2);
}

#[test]
fn shift_gives_uppercase() {
    let mut ed = Editor::new(" > ".to_string());
    let mut st = ReadState::new();
    let key = KeyInput { code: Key::Char('a'), shift: true, control: false, caps_lock: false };
    ed.step(&mut st, key, 80);
    assert_eq!(st.buf.text, chars("A"));
}

#[test]
fn shift_and_caps_lock_cancel_out() {
    let mut ed = Editor::new(" > ".to_string());
    let mut st = ReadState::new();
    let key = KeyInput { code: Key::Char('a'), shift: true, control: false, caps_lock: true };
    ed.step(&mut st, key, 80);
    let key = KeyInput { code: Key::Char('b'), shift: false, control: false, caps_lock: true };
    ed.step(&mut st, key, 80);
    assert_eq!(st.buf.text, chars("aB"));
}

#[test]
fn backspace_removes_before_cursor() {
    let mut ed = Editor::new(" > ".to_string());
    let mut st = ReadState::new();
    st.buf.text = chars("abc");
    st.buf.cursor = 2;
    ed.step(&mut st, press(Key::Backspace), 80);
    assert_eq!(st.buf.text, chars("ac"));
    assert_eq!(st.buf.cursor, 1);
    st.buf.cursor = 0;
    ed.step(&mut st, press(Key::Backspace), 80);
    assert_eq!(st.buf.text, chars("ac"));
}

#[test]
fn home_end_left_right_move_cursor() {
    let mut ed = Editor::new(" > ".to_string());
    let mut st = ReadState::new();
    st.buf.text = chars("abc");
    st.buf.cursor = 1;
    ed.step(&mut st, press(Key::End), 80);
    assert_eq!(st.buf.cursor, 3);
    ed.step(&mut st, press(Key::Right), 80);
    assert_eq!(st.buf.cursor, 3);
    ed.step(&mut st, press(Key::Left), 80);
    assert_eq!(st.buf.cursor, 2);
    ed.step(&mut st, press(Key::Home), 80);
    assert_eq!(st.buf.cursor, 0);
    ed.step(&mut st, press(Key::Left), 80);
    assert_eq!(st.buf.cursor, 0);
}

#[test]
fn history_recall_up_and_down() {
    let mut h = History::new("hist".to_string(), 100);
    h.push("a".to_string());
    h.push("b".to_string());
    let mut ed = Editor::new(" > ".to_string()).history(h);
    let mut st = ReadState::new();
    ed.step(&mut st, press(Key::Up), 80);
    assert_eq!(st.buf.text, chars("b"));
    assert_eq!(st.buf.cursor, 1);
    ed.step(&mut st, press(Key::Up), 80);
    assert_eq!(st.buf.text, chars("a"));
    ed.step(&mut st, press(Key::Up), 80);
    assert_eq!(st.buf.text, chars("a"));
    ed.step(&mut st, press(Key::Down), 80);
    assert_eq!(st.buf.text, chars("b"));
    // Down at the newest entry presents a fresh line.
    ed.step(&mut st, press(Key::Down), 80);
    assert_eq!(st.buf.text, chars(""));
    assert_eq!(st.buf.cursor, 0);
}

#[test]
fn submission_resets_recall_for_next_read() {
    let mut ed = Editor::new(" > ".to_string()).history(History::new("hist".to_string(), 100));
    let mut st = ReadState::new();
    ed.step(&mut st, press(Key::Char('x')), 80);
    ed.step(&mut st, press(Key::Enter), 80);
    let mut st2 = ReadState::new();
    ed.step(&mut st2, press(Key::Up), 80);
    assert_eq!(st2.buf.text, chars("x"));
}

#[test]
fn tab_opens_panel_and_enter_commits() {
    let mut ed = Editor::new(" > ".to_string())
        .completion(FixedCompletion(vec!["bar".to_string(), "baz".to_string()]));
    let mut st = ReadState::new();
    for ch in "foo ba".chars() {
        ed.step(&mut st, press(Key::Char(ch)), 80);
    }
    ed.step(&mut st, press(Key::Tab), 80);
    assert_eq!(st.comp.panel_rows, 1);
    assert_eq!(st.comp.selected_index, 0);
    let (_, res) = ed.step(&mut st, press(Key::Enter), 80);
    assert!(res.is_none());
    assert_eq!(st.buf.text, chars("foo bar"));
    assert_eq!(st.buf.cursor, 7);
    assert_eq!(st.comp.panel_rows, 0);
}

#[test]
fn panel_selection_cycles_and_commits_right_entry() {
    let mut ed = Editor::new(" > ".to_string())
        .completion(FixedCompletion(vec!["bar".to_string(), "baz".to_string()]));
    let mut st = ReadState::new();
    ed.step(&mut st, press(Key::Tab), 80);
    assert_eq!(st.comp.panel_rows, 1);
    ed.step(&mut st, press(Key::Right), 80);
    assert_eq!(st.comp.selected_index, 1);
    ed.step(&mut st, press(Key::Right), 80);
    assert_eq!(st.comp.selected_index, 1);
    ed.step(&mut st, press(Key::Left), 80);
    ed.step(&mut st, press(Key::Left), 80);
    assert_eq!(st.comp.selected_index, 0);
    ed.step(&mut st, press(Key::Right), 80);
    ed.step(&mut st, press(Key::Enter), 80);
    assert_eq!(st.buf.text, chars("baz"));
}

#[test]
fn panel_up_down_move_by_two() {
    let cands: Vec<String> = ["a", "b", "c", "d", "e"].iter().map(|s| s.to_string()).collect();
    let mut ed = Editor::new(" > ".to_string()).completion(FixedCompletion(cands));
    let mut st = ReadState::new();
    ed.step(&mut st, press(Key::Tab), 80);
    assert_eq!(st.comp.panel_rows, 3);
    ed.step(&mut st, press(Key::Down), 80);
    assert_eq!(st.comp.selected_index, 2);
    ed.step(&mut st, press(Key::Down), 80);
    assert_eq!(st.comp.selected_index, 4);
    ed.step(&mut st, press(Key::Down), 80);
    assert_eq!(st.comp.selected_index, 4);
    ed.step(&mut st, press(Key::Up), 80);
    assert_eq!(st.comp.selected_index, 2);
}

#[test]
fn other_key_closes_panel() {
    let mut ed = Editor::new(" > ".to_string())
        .completion(FixedCompletion(vec!["one".to_string()]));
    let mut st = ReadState::new();
    ed.step(&mut st, press(Key::Tab), 80);
    assert_eq!(st.comp.panel_rows, 1);
    ed.step(&mut st, press(Key::Other), 80);
    assert_eq!(st.comp.panel_rows, 0);
    assert_eq!(st.comp.selected_index, 0);
}

#[test]
fn typing_through_open_panel_inserts_and_closes_it() {
    let mut ed = Editor::new(" > ".to_string())
        .completion(FixedCompletion(vec!["one".to_string()]));
    let mut st = ReadState::new();
    ed.step(&mut st, press(Key::Tab), 80);
    assert_eq!(st.comp.panel_rows, 1);
    ed.step(&mut st, press(Key::Char('x')), 80);
    assert_eq!(st.comp.panel_rows, 0);
    assert_eq!(st.buf.text, chars("x"));
}

#[test]
fn empty_candidate_list_opens_no_panel() {
    let mut ed = Editor::new(" > ".to_string()).completion(FixedCompletion(Vec::new()));
    let mut st = ReadState::new();
    ed.step(&mut st, press(Key::Tab), 80);
    assert_eq!(st.comp.panel_rows, 0);
}

#[test]
fn tab_without_completion_does_nothing() {
    let mut ed = Editor::new(" > ".to_string());
    let mut st = ReadState::new();
    let (cmds, res) = ed.step(&mut st, press(Key::Tab), 80);
    assert!(cmds.is_empty());
    assert!(res.is_none());
    assert_eq!(st.comp.panel_rows, 0);
}

#[test]
fn zero_width_terminal_edits_without_drawing() {
    let mut ed = Editor::new(" > ".to_string());
    let mut st = ReadState::new();
    let (cmds, _) = ed.step(&mut st, press(Key::Char('x')), 0);
    assert_eq!(st.buf.text, chars("x"));
    assert!(cmds.is_empty());
}

#[test]
fn submit_emits_trailing_newline() {
    let mut ed = Editor::new(" > ".to_string());
    let mut st = ReadState::new();
    let (cmds, res) = ed.step(&mut st, press(Key::Enter), 80);
    assert_eq!(res, Some(EditResult::Done(String::new())));
    assert_eq!(cmds, vec![TermCmd::Print("\n".to_string())]);
}

struct RedHighlight;

impl Highlight for RedHighlight {
    fn highlight(&mut self, data: &str) -> String {
        format!("\x1b[31m{}\x1b[0m", data)
    }
}

#[test]
fn non_ascii_prompt_measured_by_codepoints() {
    // An escape-free prompt is one cell per codepoint, whatever the bytes.
    let mut ed = Editor::new("\u{e9}> ".to_string());
    let mut st = ReadState::new();
    let (cmds, _) = ed.step(&mut st, press(Key::Char('x')), 80);
    assert_eq!(st.buf.text, chars("x"));
    assert_eq!(cmds[0], TermCmd::MoveToColumn(3));
    assert_eq!(cmds.last().unwrap(), &TermCmd::MoveToColumn(4));
}

#[test]
fn escaped_non_ascii_prompt_edits_without_drawing() {
    // A non-ASCII prompt with escapes cannot be measured by the byte-indexed
    // escape scanner: nothing is drawn, but editing and the terminating
    // keys still work.
    let mut ed = Editor::new("\x1b[32m\u{e9}>\x1b[0m ".to_string());
    let mut st = ReadState::new();
    let (cmds, _) = ed.step(&mut st, press(Key::Char('x')), 80);
    assert_eq!(st.buf.text, chars("x"));
    assert!(cmds.is_empty());
    let (_, res) = ed.step(&mut st, press_ctrl(Key::Char('c')), 80);
    assert_eq!(res, Some(EditResult::Cancel));
}

#[test]
fn non_ascii_input_prints_through_plain_path() {
    let mut ed = Editor::new(" > ".to_string());
    let mut st = ReadState::new();
    let (cmds, _) = ed.step(&mut st, press(Key::Char('\u{e9}')), 80);
    assert_eq!(st.buf.text, chars("\u{e9}"));
    assert_eq!(cmds[2], TermCmd::Print("\u{e9}".to_string()));
    assert_eq!(cmds[3], TermCmd::MoveToColumn(4));
}

#[test]
fn escaped_prompt_counts_zero_width() {
    // The prompt's escapes take no columns: the visible prompt is "> ".
    let mut ed = Editor::new("\x1b[32m> \x1b[0m".to_string());
    let mut st = ReadState::new();
    let (cmds, _) = ed.step(&mut st, press(Key::Char('a')), 10);
    assert_eq!(cmds[0], TermCmd::MoveToColumn(2));
    assert_eq!(cmds.last().unwrap(), &TermCmd::MoveToColumn(3));
}

#[test]
fn highlighter_output_is_printed() {
    let mut ed = Editor::new("> ".to_string()).highlight(RedHighlight);
    let mut st = ReadState::new();
    let (cmds, _) = ed.step(&mut st, press(Key::Char('a')), 40);
    assert!(cmds.contains(&TermCmd::Print("\x1b[31ma\x1b[0m".to_string())));
}

#[test]
fn cancel_with_open_panel_erases_it_first() {
    let mut ed = Editor::new("> ".to_string())
        .completion(FixedCompletion(vec!["one".to_string()]));
    let mut st = ReadState::new();
    ed.step(&mut st, press(Key::Tab), 80);
    assert_eq!(st.comp.panel_rows, 1);
    let (cmds, res) = ed.step(&mut st, press_ctrl(Key::Char('c')), 80);
    assert_eq!(res, Some(EditResult::Cancel));
    assert_eq!(st.comp.panel_rows, 0);
    // The panel rows are cleared before the closing newline is printed.
    assert_eq!(cmds[0], TermCmd::MoveDown(1));
    assert_eq!(cmds.last().unwrap(), &TermCmd::Print("\n".to_string()));
}

#[test]
fn move_to_steps_back_to_target_row() {
    let rs = linoleum::RenderState { cursor_line: 2, num_lines: 2 };
    let (cmds, out) = linoleum::move_to(2, 3, 10, rs);
    assert_eq!(cmds, vec![TermCmd::MoveToColumn(5), TermCmd::MoveUp(2)]);
    assert_eq!(out.cursor_line, 0);
    assert_eq!(out.num_lines, 2);
}

#[test]
fn save_history_hands_back_path_and_text() {
    let mut ed = Editor::new(" > ".to_string()).history(History::new("hist".to_string(), 100));
    let mut st = ReadState::new();
    ed.step(&mut st, press(Key::Char('x')), 80);
    ed.step(&mut st, press(Key::Enter), 80);
    let (path, text) = ed.save_history().unwrap();
    assert_eq!(path, "hist");
    assert_eq!(text, "x");
    let ed2 = Editor::new(" > ".to_string());
    assert!(ed2.save_history().is_none());
}
