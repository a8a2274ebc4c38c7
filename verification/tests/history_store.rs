use linoleum::History;

fn strings(v: &[&str]) -> Vec<String> {
    v.iter().map(|s| s.to_string()).collect()
}

#[test]
fn push_caps_at_max_lines_oldest_dropped() {
    let mut h = History::new("hist".to_string(), 3);
    for e in ["e1", "e2", "e3", "e4", "e5"] {
        h.push(e.to_string());
    }
    assert_eq!(h.lines(), &strings(&["e3", "e4", "e5"]));
}

#[test]
fn save_then_reload_reproduces_entries() {
    let mut h = History::new("hist".to_string(), 3);
    for e in ["e1", "e2", "e3", "e4", "e5"] {
        h.push(e.to_string());
    }
    let text = h.to_text();
    assert_eq!(text, "e3\ne4\ne5");
    let reloaded = History::from_text("hist".to_string(), &text, 3);
    assert_eq!(reloaded.lines(), h.lines());
}

#[test]
fn navigation_up_and_down() {
    let mut h = History::new("hist".to_string(), 100);
    h.push("a".to_string());
    h.push("b".to_string());
    h.push("c".to_string());
    assert_eq!(h.up(), Some("c".to_string()));
    assert_eq!(h.up(), Some("b".to_string()));
    assert_eq!(h.up(), Some("a".to_string()));
    assert_eq!(h.up(), None);
    assert_eq!(h.down(), Some("b".to_string()));
}

#[test]
fn down_at_newest_returns_nothing() {
    let mut h = History::new("hist".to_string(), 100);
    h.push("a".to_string());
    h.push("b".to_string());
    assert_eq!(h.down(), None);
    assert_eq!(h.up(), Some("b".to_string()));
    assert_eq!(h.down(), None);
}

#[test]
fn reset_index_forgets_recall_position() {
    let mut h = History::new("hist".to_string(), 100);
    h.push("a".to_string());
    h.push("b".to_string());
    assert_eq!(h.up(), Some("b".to_string()));
    h.reset_index();
    assert_eq!(h.up(), Some("b".to_string()));
}

#[test]
fn from_text_empty_is_empty_history() {
    let h = History::from_text("hist".to_string(), "", 10);
    assert!(h.lines().is_empty());
}

#[test]
fn from_text_splits_on_newlines() {
    let h = History::from_text("hist".to_string(), "a\n\nb", 10);
    assert_eq!(h.lines(), &strings(&["a", "", "b"]));
}

#[test]
fn trailing_newline_is_a_terminator() {
    let h = History::from_text("hist".to_string(), "a\nb\n", 10);
    assert_eq!(h.lines(), &strings(&["a", "b"]));
}

#[test]
fn newline_only_text_is_one_empty_entry() {
    let h = History::from_text("hist".to_string(), "\n", 10);
    assert_eq!(h.lines(), &strings(&[""]));
}

#[test]
fn trailing_crlf_is_one_terminator() {
    let h = History::from_text("hist".to_string(), "a\r\n", 10);
    assert_eq!(h.lines(), &strings(&["a"]));
}

#[test]
fn empty_newest_entry_is_lost_on_reload() {
    // The documented lossy case: an empty newest entry serializes to a
    // trailing newline, which reads back as a terminator.
    let mut h = History::new("hist".to_string(), 10);
    h.push("a".to_string());
    h.push(String::new());
    let text = h.to_text();
    assert_eq!(text, "a\n");
    let reloaded = History::from_text("hist".to_string(), &text, 10);
    assert_eq!(reloaded.lines(), &strings(&["a"]));
}

#[test]
fn from_text_strips_crlf_terminators() {
    let h = History::from_text("hist".to_string(), "a\r\nb\r\nc", 10);
    assert_eq!(h.lines(), &strings(&["a", "b", "c"]));
}

#[test]
fn lone_trailing_carriage_return_is_kept() {
    // Only a carriage return right before a newline is a terminator.
    let h = History::from_text("hist".to_string(), "a\r", 10);
    assert_eq!(h.lines(), &strings(&["a\r"]));
}

#[test]
fn carriage_return_inside_a_line_is_kept() {
    let h = History::from_text("hist".to_string(), "a\rb\nc", 10);
    assert_eq!(h.lines(), &strings(&["a\rb", "c"]));
}

#[test]
fn from_text_truncates_to_last_max_lines() {
    let h = History::from_text("hist".to_string(), "a\nb\nc\nd", 2);
    assert_eq!(h.lines(), &strings(&["c", "d"]));
}

#[test]
fn from_text_starts_not_recalling() {
    let mut h = History::from_text("hist".to_string(), "a\nb", 10);
    assert_eq!(h.up(), Some("b".to_string()));
}

#[test]
fn to_text_of_empty_history_is_empty() {
    let h = History::new("hist".to_string(), 10);
    assert_eq!(h.to_text(), "");
}

#[test]
fn round_trip_keeps_empty_entries_in_the_middle() {
    let mut h = History::new("hist".to_string(), 10);
    h.push("a".to_string());
    h.push(String::new());
    h.push("b".to_string());
    let text = h.to_text();
    assert_eq!(text, "a\n\nb");
    let reloaded = History::from_text("hist".to_string(), &text, 10);
    assert_eq!(reloaded.lines(), h.lines());
}

#[test]
fn file_path_is_kept() {
    let h = History::new("some/file".to_string(), 10);
    assert_eq!(h.file_path(), "some/file");
}

#[test]
fn push_with_zero_cap_retains_nothing() {
    let mut h = History::new("hist".to_string(), 0);
    h.push("a".to_string());
    assert!(h.lines().is_empty());
}
