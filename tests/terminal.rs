use yash::read_line::cursor::{
    bell, kill_line, kill_to_term_end, move_down, move_left, move_right, move_up,
    parse_cursor_report, set_position,
};
use yash::utils::{char_at, char_count, hash, path_filename, path_parent, BytesBuf};
use yash::widget::{grid, paint_selected, GridStyle};
use yash::Vec2;

#[test]
fn cursor_moves() {
    assert_eq!(move_left(3), b"\x1b[3D".to_vec());
    assert_eq!(move_right(12), b"\x1b[12C".to_vec());
    assert_eq!(move_up(1), b"\x1b[1A".to_vec());
    assert_eq!(move_down(250), b"\x1b[250B".to_vec());
    assert!(move_left(0).is_empty());
    assert_eq!(move_right(4294967295), b"\x1b[4294967295C".to_vec());
}

#[test]
fn fixed_sequences() {
    assert_eq!(set_position(5, 10), b"\x1b[10;5H".to_vec());
    assert_eq!(kill_line(), b"\x1b[K".to_vec());
    assert_eq!(kill_to_term_end(), b"\x1b[J".to_vec());
    assert_eq!(bell(), b"\x07".to_vec());
}

#[test]
fn cursor_reports() {
    assert_eq!(parse_cursor_report(b"\x1b[12;40R"), Some(Vec2::new(40, 12)));
    assert_eq!(parse_cursor_report(b"\x1b[007;1R"), Some(Vec2::new(1, 7)));
    assert_eq!(parse_cursor_report(b"\x1b[12;R"), None);
    assert_eq!(parse_cursor_report(b"\x1b[;4R"), None);
    assert_eq!(parse_cursor_report(b"\x1b[1a;4R"), None);
    assert_eq!(parse_cursor_report(b"\x1b[1;4"), None);
    assert_eq!(parse_cursor_report(b"\x1b[4294967296;1R"), None);
    assert_eq!(parse_cursor_report(b"\x1b[4294967295;1R"), Some(Vec2::new(1, 4294967295)));
}

#[test]
fn characters_and_paths() {
    assert_eq!(char_count("aé€"), 3);
    assert_eq!(char_at("aé€", 2), Some(3));
    assert_eq!(char_at("aé€", 3), None);
    assert_eq!(path_parent("src/main.rs"), Some("src".to_string()));
    assert_eq!(path_parent("src/"), Some("src/".to_string()));
    assert_eq!(path_parent("/etc"), Some("/".to_string()));
    assert_eq!(path_parent("main.rs"), None);
    assert_eq!(path_filename("src/main.rs"), Some("main.rs".to_string()));
    assert_eq!(path_filename("src/"), Some(String::new()));
    assert_eq!(path_filename(""), None);
}

#[test]
fn fingerprints_tell_words_apart() {
    assert_eq!(hash("sr"), hash("sr"));
    assert_ne!(hash("sr"), hash("src"));
}

#[test]
fn bytes_buf_joins() {
    let mut b = BytesBuf::new();
    b.push_slice(b"a");
    b.push(b"c".to_vec());
    b.insert(1, b"b".to_vec());
    b.extend(vec![b"d".to_vec()]);
    assert_eq!(b.join(b", "), b"a, b, c, d".to_vec());
    assert_eq!(BytesBuf::of(vec![b"x".to_vec(), b"y".to_vec()]).join(b""), b"xy".to_vec());
    assert!(BytesBuf::new().join(b"-").is_empty());
}

#[test]
fn grid_draws_columns() {
    let items: Vec<Vec<char>> = ["a", "bb", "c", "d", "e"].iter().map(|s| s.chars().collect()).collect();
    let r = grid(Vec2::new(3, 1), Vec2::new(80, 24), &items, 1, GridStyle::default());
    assert_eq!(r.elements_shown, 5);
    let mut want = b"\x1b[J\r\n".to_vec();
    want.extend_from_slice(b"a\x1b[1D\n\x1b[7mbb\x1b[0m\x1b[2D\nc\x1b[1D\nd\x1b[1D\n\x1b[4A\x1b[4C");
    want.extend_from_slice(b"e\x1b[1D\n\x1b[1A\x1b[3C");
    want.extend_from_slice(b"\r\x1b[1A\x1b[2C");
    assert_eq!(r.response, want);
    assert_eq!(paint_selected(&['x']), b"\x1b[7mx\x1b[0m".to_vec());
}

#[test]
fn grid_stops_at_the_terminal_width() {
    let items: Vec<Vec<char>> = ["abcdef", "b", "c", "d", "e"].iter().map(|s| s.chars().collect()).collect();
    let r = grid(Vec2::new(1, 1), Vec2::new(4, 24), &items, 9, GridStyle { horizontal_gap: 1 });
    assert_eq!(r.elements_shown, 4);
    let mut want = b"\x1b[J\r\n".to_vec();
    want.extend_from_slice(b"abcd\x1b[4D\nb\x1b[1D\nc\x1b[1D\nd\x1b[1D\n\x1b[4A\x1b[5C");
    want.extend_from_slice(b"\r\x1b[1A");
    assert_eq!(r.response, want);
}
