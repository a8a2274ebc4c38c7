use linoleum::{Editor, Key, KeyInput, ReadState};

fn chars(s: &str) -> Vec<char> {
    s.chars().collect()
}

fn plain(code: Key) -> KeyInput {
    KeyInput { code, shift: false, control: false, caps_lock: false }
}

fn ctrl(code: Key) -> KeyInput {
    KeyInput { code, shift: false, control: true, caps_lock: false }
}

#[test]
fn word_boundary_backward_foo_bar() {
    let ed = Editor::new(" > ".to_string());
    let text = chars("foo-bar");
    assert_eq!(ed.find_word_boundary(&text, 7, true), 4);
}

#[test]
fn word_delete_backward_yields_foo_dash() {
    let mut ed = Editor::new(" > ".to_string());
    let mut st = ReadState::new();
    st.buf.text = chars("foo-bar");
    st.buf.cursor = 7;
    let (_cmds, res) = ed.step(&mut st, ctrl(Key::Char('h')), 80);
    assert!(res.is_none());
    assert_eq!(st.buf.text, chars("foo-"));
    assert_eq!(st.buf.cursor, 4);
}

#[test]
fn word_boundary_backward_repeated_delimiters() {
    let ed = Editor::new(" > ".to_string());
    // A delimiter right below the start is returned itself, so runs of
    // delimiters are stepped one at a time.
    let text = chars("ab--");
    assert_eq!(ed.find_word_boundary(&text, 4, true), 3);
    assert_eq!(ed.find_word_boundary(&text, 3, true), 2);
}

#[test]
fn word_boundary_backward_no_delimiter() {
    let ed = Editor::new(" > ".to_string());
    let text = chars("abc");
    assert_eq!(ed.find_word_boundary(&text, 3, true), 0);
    assert_eq!(ed.find_word_boundary(&text, 0, true), 0);
}

#[test]
fn word_boundary_forward_stops_at_delimiter() {
    let ed = Editor::new(" > ".to_string());
    let text = chars("ab-cd");
    assert_eq!(ed.find_word_boundary(&text, 0, false), 2);
}

#[test]
fn word_boundary_forward_delimiter_last() {
    let ed = Editor::new(" > ".to_string());
    // The forward scan stops at the last index even when the delimiter sits
    // there.
    let text = chars("ab-");
    assert_eq!(ed.find_word_boundary(&text, 0, false), 2);
}

#[test]
fn word_boundary_forward_no_delimiter_returns_last_index() {
    let ed = Editor::new(" > ".to_string());
    let text = chars("abcd");
    assert_eq!(ed.find_word_boundary(&text, 0, false), 3);
}

#[test]
fn space_boundary_ignores_other_delimiters() {
    let ed = Editor::new(" > ".to_string());
    let text = chars("a-b c");
    // Only the space counts: scanning back from the end lands just after it.
    assert_eq!(ed.find_space_boundary(&text, 5, true), 4);
}

#[test]
fn word_right_jumps_past_delimiter() {
    let mut ed = Editor::new(" > ".to_string());
    let mut st = ReadState::new();
    st.buf.text = chars("ab-cd");
    st.buf.cursor = 0;
    ed.step(&mut st, ctrl(Key::Right), 80);
    assert_eq!(st.buf.cursor, 3);
}

#[test]
fn word_right_at_end_stays_put() {
    let mut ed = Editor::new(" > ".to_string());
    let mut st = ReadState::new();
    st.buf.text = chars("ab");
    st.buf.cursor = 2;
    ed.step(&mut st, ctrl(Key::Right), 80);
    assert_eq!(st.buf.cursor, 2);
}

#[test]
fn word_right_on_empty_buffer_stays_put() {
    let mut ed = Editor::new(" > ".to_string());
    let mut st = ReadState::new();
    ed.step(&mut st, ctrl(Key::Right), 80);
    assert_eq!(st.buf.cursor, 0);
}

#[test]
fn word_left_jumps_to_boundary() {
    let mut ed = Editor::new(" > ".to_string());
    let mut st = ReadState::new();
    st.buf.text = chars("foo-bar");
    st.buf.cursor = 7;
    ed.step(&mut st, ctrl(Key::Left), 80);
    assert_eq!(st.buf.cursor, 4);
}

#[test]
fn empty_break_set_disables_word_motion() {
    let mut ed = Editor::new(" > ".to_string()).word_breaks(String::new());
    let mut st = ReadState::new();
    st.buf.text = chars("foo-bar");
    st.buf.cursor = 7;
    ed.step(&mut st, ctrl(Key::Left), 80);
    // With no delimiters the backward scan runs to the buffer edge.
    assert_eq!(st.buf.cursor, 0);
    let (_cmds, _) = ed.step(&mut st, plain(Key::End), 80);
    assert_eq!(st.buf.cursor, 7);
}
