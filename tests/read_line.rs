use yash::read_line::completion::files::DirEntry;
use yash::read_line::{unit_of, utf8_byte_len, Execute, ReadLine, Request, Unit};
use yash::Vec2;

fn reader(lines: &[&str]) -> ReadLine {
    let mut r = ReadLine::new_with_history(lines.iter().map(|s| s.to_string()).collect());
    r.start(Vec2::new(80, 1));
    r
}

#[test]
fn utf8_lead_bytes() {
    assert_eq!(utf8_byte_len(b'a'), None);
    assert_eq!(utf8_byte_len(0x82), None);
    assert_eq!(utf8_byte_len(0xc3), Some(2));
    assert_eq!(utf8_byte_len(0xe2), Some(3));
    assert_eq!(utf8_byte_len(0xf0), Some(4));
}

#[test]
fn three_byte_character_is_one_unit() {
    let unit = [0xe2u8, 0x82, 0xac];
    assert_eq!(utf8_byte_len(unit[0]), Some(3));
    assert_eq!(unit_of(unit[0]), Some(Unit::Exactly(3)));
    let mut r = reader(&[]);
    let out = r.feed_bytes(&unit).unwrap();
    assert_eq!(out.request, Request::Read);
    assert_eq!(out.bytes, unit.to_vec());
    assert_eq!(r.text(), "€");
}

#[test]
fn arrow_up_scrolls_history() {
    let mut r = reader(&["ls", "pwd"]);
    let _ = r.feed("x");
    let out = r.feed("\x1b[A");
    assert_eq!(out.request, Request::Read);
    assert_eq!(out.bytes, b"\x1b[1D\x1b[Kpwd".to_vec());
    assert_eq!(r.text(), "pwd");
    let out = r.feed("\x1b[B");
    assert_eq!(r.text(), "x");
    assert_eq!(out.bytes, b"\x1b[3D\x1b[Kx".to_vec());
    let out = r.feed("\x1b[B");
    assert_eq!(out.bytes, b"\x07".to_vec());
    assert_eq!(r.text(), "x");
}

#[test]
fn submit_cancel_and_eof() {
    let mut r = reader(&[]);
    let _ = r.feed("echo hi");
    let out = r.feed("\r");
    assert_eq!(out.request, Request::Finish(Execute::Command("echo hi".to_string())));
    let bytes = r.finish(&Execute::Command("echo hi".to_string()));
    assert_eq!(bytes, b"\r\n\x1b[J".to_vec());
    assert_eq!(r.history(), &["echo hi".to_string()][..]);
    r.start(Vec2::new(80, 1));
    assert_eq!(r.feed("\x03").request, Request::Finish(Execute::Exit));
    assert_eq!(r.feed("\x04").request, Request::Finish(Execute::Cancel));
    let _ = r.finish(&Execute::Cancel);
    assert_eq!(r.history().len(), 1);
}

#[test]
fn tab_completes_the_word_at_the_cursor() {
    let mut r = reader(&[]);
    let _ = r.feed("cat sr");
    let out = r.feed("\t");
    assert_eq!(out.request, Request::List(".".to_string()));
    let out = r.listed(vec![
        DirEntry { name: "srv.txt".to_string(), is_dir: false },
        DirEntry { name: "src".to_string(), is_dir: true },
    ]);
    assert_eq!(out.request, Request::Render);
    let out = r.render(Vec2::new(7, 1), Vec2::new(80, 24));
    assert_eq!(out.request, Request::Read);
    assert!(!out.bytes.is_empty());
    let out = r.feed("\t");
    assert_eq!(out.request, Request::Render);
    let _ = r.render(Vec2::new(7, 1), Vec2::new(80, 24));
    let out = r.feed("\r");
    assert_eq!(out.request, Request::Clear);
    let out = r.cleared(Vec2::new(7, 1));
    assert_eq!(out.request, Request::Read);
    assert_eq!(r.text(), "cat srv.txt");
    let mut want = b"\n\r\x1b[J\x1b[1A\x1b[6C".to_vec();
    want.extend_from_slice(b"\x1b[2D\x1b[2C\x1b[1D\x1b[K\x1b[1D\x1b[Ksrv.txt");
    assert_eq!(out.bytes, want);
    let out = r.feed("\r");
    assert_eq!(out.request, Request::Finish(Execute::Command("cat srv.txt".to_string())));
}

#[test]
fn cancel_during_completion_only_clears() {
    let mut r = reader(&[]);
    let _ = r.feed("sr");
    let _ = r.feed("\t");
    let _ = r.listed(vec![DirEntry { name: "src".to_string(), is_dir: true }]);
    let _ = r.render(Vec2::new(3, 1), Vec2::new(80, 24));
    let out = r.feed("\x03");
    assert_eq!(out.request, Request::Clear);
    let out = r.cleared(Vec2::new(3, 1));
    assert_eq!(out.request, Request::Read);
    assert_eq!(out.bytes, b"\n\r\x1b[J\x1b[1A\x1b[2C".to_vec());
    assert_eq!(r.text(), "sr");
    assert_eq!(r.feed("\x03").request, Request::Finish(Execute::Exit));
}

#[test]
fn scroll_and_complete_directly() {
    let mut r = reader(&["ls"]);
    assert_eq!(r.scroll_history(1), b"\x1b[Kls".to_vec());
    assert_eq!(r.scroll_history(1), b"\x07".to_vec());
    assert_eq!(r.complete_next(yash::read_line::completion::SelectionDirection::Down), Request::List(".".to_string()));
}

#[test]
fn units_by_first_byte() {
    assert_eq!(unit_of(0x1b), Some(Unit::Escape));
    assert_eq!(unit_of(b'a'), Some(Unit::Exactly(1)));
    assert_eq!(unit_of(0x82), Some(Unit::Exactly(1)));
    assert_eq!(unit_of(0xc3), Some(Unit::Exactly(2)));
    assert_eq!(unit_of(0xf4), Some(Unit::Exactly(4)));
    assert_eq!(unit_of(0xf8), None);
}

#[test]
fn invalid_utf8_is_refused() {
    let mut r = reader(&[]);
    assert!(r.feed_bytes(&[0xe2, 0x28, 0xa1]).is_none());
    assert!(r.feed_bytes(&[0xc0, 0xaf]).is_none());
    assert_eq!(r.text(), "");
    let out = r.feed_bytes(b"\x1b[D").unwrap();
    assert_eq!(out.request, Request::Read);
    let out = r.feed_bytes(&[0xc3, 0xa9]).unwrap();
    assert_eq!(out.bytes, vec![0xc3, 0xa9]);
    assert_eq!(r.text(), "é");
}
