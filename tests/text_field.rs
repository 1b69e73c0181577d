use yash::read_line::text_field::{Commands, SpecialKey, TextField};
use yash::Vec2;

fn field() -> TextField {
    TextField::new(Vec2::new(80, 1))
}

#[test]
fn typing_then_backspace() {
    let mut f = field();
    let r = f.handle_input("ab");
    assert_eq!(r.bytes, b"ab".to_vec());
    let r = f.handle_input("\x7f");
    assert_eq!(f.text(), "a");
    assert_eq!(f.cursor_pos().x, 1);
    assert_eq!(r.bytes, b"\x1b[1D\x1b[K".to_vec());
}

#[test]
fn insert_in_the_middle() {
    let mut f = field();
    let _ = f.handle_input("ab");
    f.move_left(1);
    let r = f.handle_input("c");
    assert_eq!(f.text(), "acb");
    assert_eq!(f.cursor_pos().x, 2);
    assert_eq!(r.bytes, b"\x1b[1D\x1b[Kcb\x1b[1D".to_vec());
}

#[test]
fn backspace_in_the_middle_redraws_tail() {
    let mut f = field();
    let _ = f.handle_input("abc");
    f.move_left(1);
    let r = f.handle_input("\x7f");
    assert_eq!(f.text(), "ac");
    assert_eq!(f.cursor_pos().x, 1);
    assert_eq!(r.bytes, b"\x1b[1D\x1b[1D\x1b[Kc\x1b[1D".to_vec());
}

#[test]
fn backspace_at_line_start_does_nothing() {
    let mut f = field();
    let r = f.handle_input("\x7f");
    assert_eq!(f.text(), "");
    assert!(r.bytes.is_empty());
}

#[test]
fn arrow_up_is_a_command_not_text() {
    let mut f = field();
    let r = f.handle_input("\x1b[A");
    assert_eq!(r.commands, Commands::Special(SpecialKey::Up));
    assert_eq!(r.commands.get_key(), Some(SpecialKey::Up));
    assert_eq!(f.text(), "");
    assert!(r.bytes.is_empty());
}

#[test]
fn control_keys_give_commands() {
    let mut f = field();
    assert!(f.handle_input("\x03").commands.is_exit());
    assert!(f.handle_input("\x04").commands.is_eof());
    assert!(f.handle_input("\r").commands.is_newline());
    assert_eq!(f.handle_input("\t").commands, Commands::special(SpecialKey::Tab));
    assert_eq!(f.handle_input("\x1b[Z").commands, Commands::Special(SpecialKey::ShiftTab));
    assert_eq!(f.handle_input("\x1b[B").commands, Commands::Special(SpecialKey::Down));
    assert_eq!(f.handle_input("x").commands, Commands::Empty);
    assert_eq!(Commands::Newline.get_key(), None);
}

#[test]
fn last_command_of_a_chunk_wins() {
    let mut f = field();
    let r = f.handle_input("\x03\r");
    assert_eq!(r.commands, Commands::Newline);
}

#[test]
fn home_end_and_arrows() {
    let mut f = field();
    let _ = f.handle_input("hello");
    let r = f.handle_input("\x01");
    assert_eq!(f.cursor_pos().x, 0);
    assert_eq!(r.bytes, b"\x1b[5D".to_vec());
    let r = f.handle_input("\x05");
    assert_eq!(f.cursor_pos().x, 5);
    assert_eq!(r.bytes, b"\x1b[5C".to_vec());
    let r = f.handle_input("\x1b[D\x1b[D\x1b[C");
    assert_eq!(f.cursor_pos().x, 4);
    assert_eq!(r.bytes, b"\x1b[1D\x1b[1D\x1b[1C".to_vec());
    let r = f.handle_input("\x1b[C\x1b[C");
    assert_eq!(f.cursor_pos().x, 5);
    assert_eq!(r.bytes, b"\x1b[1C".to_vec());
}

#[test]
fn delete_key_removes_char_under_cursor() {
    let mut f = field();
    let _ = f.handle_input("abc");
    f.move_left(2);
    let r = f.handle_input("\x1b[3~");
    assert_eq!(f.text(), "ac");
    assert_eq!(f.cursor_pos().x, 1);
    assert_eq!(r.bytes, b"\x1b[2D\x1b[1C\x1b[1D\x1b[Kc\x1b[1D".to_vec());
    f.move_right(1);
    let r = f.handle_input("\x1b[3~");
    assert_eq!(f.text(), "ac");
    assert_eq!(r.bytes, b"\x1b[1C".to_vec());
}

#[test]
fn other_control_bytes_are_ignored() {
    let mut f = field();
    let r = f.handle_input("\x02\x10\x1a");
    assert_eq!(f.text(), "");
    assert!(r.bytes.is_empty());
    assert_eq!(r.commands, Commands::Empty);
}

#[test]
fn multibyte_characters_count_as_one() {
    let mut f = field();
    let r = f.handle_input("é€");
    assert_eq!(r.bytes, "é€".as_bytes().to_vec());
    assert_eq!(f.cursor_pos().x, 2);
    f.move_left(1);
    let r = f.handle_input("x");
    assert_eq!(f.text(), "éx€");
    assert_eq!(r.bytes, "\x1b[1D\x1b[Kx€\x1b[1D".as_bytes().to_vec());
}

#[test]
fn insertion_stops_at_the_bound() {
    let mut f = TextField::new(Vec2::new(3, 1));
    let _ = f.handle_input("abcd");
    assert_eq!(f.text(), "abc");
    assert_eq!(f.cursor_pos().x, 3);
    f.move_left(1);
    let r = f.handle_input("z");
    assert_eq!(f.text(), "abc");
    assert_eq!(r.bytes, b"\x1b[1D".to_vec());
}

#[test]
fn set_bounds_cuts_text_and_cursor() {
    let mut f = field();
    let _ = f.handle_input("hello");
    f.set_bounds(Vec2::new(80, 1));
    assert_eq!(f.text(), "hello");
    assert_eq!(f.cursor_pos().x, 5);
    f.set_bounds(Vec2::new(3, 1));
    assert_eq!(f.text(), "hel");
    assert_eq!(f.cursor_pos().x, 3);
    f.set_bounds(Vec2::new(3, 1));
    assert_eq!(f.text(), "hel");
    assert_eq!(f.cursor_pos().x, 3);
}

#[test]
fn set_text_replaces_line() {
    let mut f = field();
    let _ = f.handle_input("abc");
    let r = f.set_text("pwd");
    assert_eq!(r.bytes, b"\x1b[3D\x1b[Kpwd".to_vec());
    assert_eq!(r.commands, Commands::Empty);
    assert_eq!(f.text(), "pwd");
    assert_eq!(f.cursor_pos().x, 3);
    let mut g = TextField::new(Vec2::new(2, 1));
    let r = g.set_text("long");
    assert_eq!(g.text(), "lo");
    assert_eq!(r.bytes, b"\x1b[Klo".to_vec());
}

#[test]
fn erase_left_and_right() {
    let mut f = field();
    let _ = f.handle_input("abcd");
    f.move_left(2);
    f.erase_right(5);
    assert_eq!(f.text(), "ab");
    assert_eq!(f.cursor_pos().x, 2);
    let r = f.take_response();
    assert_eq!(r.bytes, b"\x1b[2D\x1b[2C\x1b[1D\x1b[K\x1b[1D\x1b[K".to_vec());
    f.erase_left(1);
    assert_eq!(f.text(), "a");
    f.erase_left(4);
    assert_eq!(f.text(), "");
}

#[test]
fn erase_rest_move_to_and_clear() {
    let mut f = field();
    let _ = f.handle_input("abcd");
    f.move_to("abcd", 1);
    assert_eq!(f.cursor_pos().x, 1);
    f.erase_rest();
    assert_eq!(f.text(), "a");
    let r = f.take_response();
    assert_eq!(r.bytes, b"\x1b[3D\x1b[K".to_vec());
    f.move_to("a", 9);
    assert_eq!(f.cursor_pos().x, 1);
    f.clear();
    assert_eq!(f.text(), "");
    assert_eq!(f.cursor_pos(), Vec2::new(0, 0));
}
