use yash::read_line::history::History;

#[test]
fn scroll_back_through_history() {
    let mut h = History::from_lines(vec!["ls".to_string(), "pwd".to_string()]);
    assert_eq!(h.scroll("", 1), Some("pwd".to_string()));
    assert_eq!(h.scroll("pwd", 1), Some("ls".to_string()));
    assert_eq!(h.scroll("ls", 1), None);
    // the index stayed on "ls": one step forward is "pwd"
    assert_eq!(h.scroll("ls", -1), Some("pwd".to_string()));
}

#[test]
fn scrolling_forward_returns_the_draft() {
    let mut h = History::from_lines(vec!["ls".to_string()]);
    assert_eq!(h.scroll("draft", 1), Some("ls".to_string()));
    assert_eq!(h.scroll("ls", -1), Some("draft".to_string()));
    assert_eq!(h.scroll("draft", -1), None);
}

#[test]
fn push_skips_empty_lines_and_unselect_resets() {
    let mut h = History::from_lines(vec![]);
    h.push(String::new());
    h.push("echo".to_string());
    assert_eq!(h.lines(), &["echo".to_string()][..]);
    assert_eq!(h.scroll("x", 1), Some("echo".to_string()));
    h.unselect();
    assert_eq!(h.scroll("y", -1), None);
    assert_eq!(h.scroll("y", 1), Some("echo".to_string()));
}
