use yash::read_line::completion::files::{format_filename, DirEntry, FileProvider};
use yash::read_line::completion::{Completer, SelectionDirection};
use yash::Vec2;

fn entry(name: &str, is_dir: bool) -> DirEntry {
    DirEntry { name: name.to_string(), is_dir }
}

fn listing() -> Vec<DirEntry> {
    vec![entry("srv.txt", false), entry("target", true), entry("src", true)]
}

fn chars(s: &str) -> Vec<char> {
    s.chars().collect()
}

#[test]
fn candidates_are_filtered_sorted_and_formatted() {
    let mut p = FileProvider::new();
    p.provide("sr", listing());
    assert_eq!(p.items(), &[chars("src/"), chars("srv.txt")][..]);
    assert_eq!(p.accept(&chars("src/")), chars("src/"));
}

#[test]
fn candidates_of_a_subdirectory_are_joined_to_it() {
    assert_eq!(FileProvider::listing_dir("src/ma"), "src");
    assert_eq!(FileProvider::listing_dir("src/"), "src/");
    assert_eq!(FileProvider::listing_dir("ma"), ".");
    let mut p = FileProvider::new();
    p.provide("src/ma", vec![entry("main.rs", false), entry("lib.rs", false), entry("macros", true)]);
    assert_eq!(p.items(), &[chars("macros/"), chars("main.rs")][..]);
    assert_eq!(p.accept(&chars("main.rs")), chars("src/main.rs"));
    let mut q = FileProvider::new();
    q.provide("src/", vec![entry("b", false), entry("a", false)]);
    assert_eq!(q.accept(&chars("a")), chars("src/a"));
}

#[test]
fn names_with_blanks_are_quoted() {
    assert_eq!(format_filename(&chars("my file"), false), chars("\"my file\""));
    assert_eq!(format_filename(&chars("dir\tx"), true), chars("\"dir\tx/\""));
    assert_eq!(format_filename(&chars("plain"), true), chars("plain/"));
}

#[test]
fn one_listing_per_word() {
    let mut c = Completer::new();
    let mut listings = 0;
    let mut ask = |c: &mut Completer, word: &str| {
        if c.next(word, SelectionDirection::Down) {
            listings += 1;
            c.provide(word, listing());
        }
        let _ = c.present(Vec2::new(1, 1), Vec2::new(80, 24));
    };
    ask(&mut c, "sr");
    ask(&mut c, "sr");
    drop(ask);
    assert_eq!(listings, 1);
    let mut listings2 = 0;
    if c.next("ta", SelectionDirection::Down) {
        listings2 += 1;
        c.provide("ta", listing());
    }
    assert_eq!(listings2, 1);
}

#[test]
fn cycling_wraps_over_the_shown_candidates() {
    let mut c = Completer::new();
    assert!(c.next("sr", SelectionDirection::Down));
    c.provide("sr", listing());
    let _ = c.present(Vec2::new(1, 1), Vec2::new(80, 24));
    assert_eq!(c.current_completion().unwrap().item(), "src/");
    assert!(!c.next("sr", SelectionDirection::Down));
    let _ = c.present(Vec2::new(1, 1), Vec2::new(80, 24));
    assert_eq!(c.current_completion().unwrap().item(), "srv.txt");
    assert!(!c.next("sr", SelectionDirection::Down));
    let _ = c.present(Vec2::new(1, 1), Vec2::new(80, 24));
    assert_eq!(c.current_completion().unwrap().item(), "src/");
    assert!(!c.next("sr", SelectionDirection::Up));
    assert_eq!(c.current_completion().unwrap().item(), "srv.txt");
}

#[test]
fn no_candidates_means_no_completion() {
    let mut c = Completer::new();
    assert!(c.next("zz", SelectionDirection::Down));
    c.provide("zz", listing());
    let bytes = c.present(Vec2::new(3, 1), Vec2::new(80, 24));
    assert_eq!(bytes, b"\x1b[J\r\n\r\x1b[1A\x1b[2C".to_vec());
    assert!(c.current_completion().is_none());
    assert!(!c.next("zz", SelectionDirection::Down));
}

#[test]
fn clear_erases_the_block() {
    let mut c = Completer::new();
    c.provide("sr", listing());
    let bytes = c.clear(5);
    assert_eq!(bytes, b"\n\r\x1b[J\x1b[1A\x1b[4C".to_vec());
    assert!(c.current_completion().is_none());
    c.unselect();
    assert!(c.next("sr", SelectionDirection::Down));
}
