//! The line-reading controller: it feeds input to the edit buffer and
//! decides, from the command that comes back, between editing, history,
//! completion and finishing the line. The caller does the terminal and
//! file-system work that a decision asks for and hands the results back.
use vstd::prelude::*;

use crate::read_line::completion::files::{dir_of, DirEntry, FileProvider};
use crate::read_line::completion::{
    presented, provided, Completer, CompleterModel, SelectionDirection, clear_bytes,
};
use crate::read_line::history::{scrolled, History, HistoryModel};
use crate::read_line::text_field::{decode, Commands, EditModel, Response, SpecialKey, TextField};
use crate::utils::{after_last, last_index, lemma_last_index_bounds, string_of};
use crate::Vec2;

pub mod completion;
pub mod cursor;
pub mod history;
pub mod text_field;

verus! {

/// How reading a line ended.
#[derive(Debug, Clone, PartialEq, Eq)]
pub enum Execute {
    Exit,
    Cancel,
    Command(String),
}

/// What the caller has to do next.
#[derive(Debug, Clone, PartialEq, Eq)]
pub enum Request {
    /// Read the next unit of input and hand it to `feed`.
    Read,
    /// The line is done; hand the outcome to `finish`.
    Finish(Execute),
    /// List this directory and hand the entries to `listed`.
    List(String),
    /// Query the cursor position and the terminal size; hand them to `render`.
    Render,
    /// Query the cursor position; hand it to `cleared`.
    Clear,
}

/// Bytes to write to the terminal, then the next request.
#[derive(Debug, Clone, PartialEq, Eq)]
pub struct Outcome {
    pub bytes: Vec<u8>,
    pub request: Request,
}

/// The number of bytes of the UTF-8 sequence that `lead` starts, for a lead
/// byte of a multi-byte sequence; `None` for a byte that stands alone.
pub fn utf8_byte_len(lead: u8) -> (r: Option<u8>)
    requires
        lead < 0xf8,
    ensures
        lead < 0xc0 ==> r is None,
        0xc0 <= lead < 0xe0 ==> r == Some(2u8),
        0xe0 <= lead < 0xf0 ==> r == Some(3u8),
        0xf0 <= lead ==> r == Some(4u8),
{
    if lead < 0xc0 {
        None
    } else if lead < 0xe0 {
        Some(2)
    } else if lead < 0xf0 {
        Some(3)
    } else {
        Some(4)
    }
}

/// How much input belongs to a unit that starts with a given byte.
#[derive(Clone, Copy, Debug, PartialEq, Eq, Structural)]
pub enum Unit {
    /// An escape sequence: the bytes available right after it belong to it.
    Escape,
    /// A character encoded in this many bytes in all.
    Exactly(usize),
}

/// The unit that `first` starts: an escape sequence, or a character whose
/// length the UTF-8 lead byte gives (one byte for any other byte). A byte
/// from `0xf8` on starts no UTF-8 sequence: none.
pub fn unit_of(first: u8) -> (r: Option<Unit>)
    ensures
        first == 0x1b ==> r == Some(Unit::Escape),
        first != 0x1b && first < 0xc0 ==> r == Some(Unit::Exactly(1)),
        0xc0 <= first < 0xe0 ==> r == Some(Unit::Exactly(2)),
        0xe0 <= first < 0xf0 ==> r == Some(Unit::Exactly(3)),
        0xf0 <= first < 0xf8 ==> r == Some(Unit::Exactly(4)),
        0xf8 <= first ==> r is None,
{
    if first == 0x1b {
        Some(Unit::Escape)
    } else if first >= 0xf8 {
        None
    } else {
        match utf8_byte_len(first) {
            Some(n) => Some(Unit::Exactly(n as usize)),
            None => Some(Unit::Exactly(1)),
        }
    }
}

/// The text of one unit of input, when its bytes are valid UTF-8.
/// Relies on `std::str::from_utf8`, which accepts exactly the valid UTF-8
/// byte strings and keeps their bytes.
#[verifier::external_body]
pub(crate) fn decode_unit(bytes: &[u8]) -> (r: Option<String>)
    ensures
        r is Some <==> vstd::utf8::valid_utf8(bytes@),
        r matches Some(s) ==> vstd::utf8::encode_utf8(s@) == bytes@,
{
    std::str::from_utf8(bytes).ok().map(String::from)
}

/// The word that ends at the cursor: the text since the last space before
/// the cursor.
pub open spec fn word_at(text: Seq<char>, cursor: nat) -> Seq<char> {
    let before = text.take(cursor as int);
    before.skip(last_index(before, ' ') + 1)
}

pub struct ReadLineModel {
    pub history: HistoryModel,
    pub completer: CompleterModel,
    pub field: EditModel,
    pub pending: Option<(Seq<u8>, Commands)>,
}

impl ReadLineModel {
    pub open spec fn wf(self) -> bool {
        self.field.wf() && self.history.wf()
    }
}

/// A history scroll by `offset` while idle: the line reached replaces the
/// buffer, or the bell rings when there is none.
pub open spec fn scrolls(m: ReadLineModel, bytes: Seq<u8>, offset: int, n: ReadLineModel, out: Seq<u8>) -> bool {
    let draft_line = text_at_scroll(m, offset);
    &&& scrolled(m.history, m.field.text, offset, n.history, draft_line)
    &&& n.completer == m.completer
    &&& n.pending == m.pending
    &&& match draft_line {
        Some(t) => n.field == m.field.replaced(t) && out == bytes + m.field.replace_bytes(t),
        None => n.field == m.field && out == bytes + seq![0x07u8],
    }
}

/// The line a history scroll by `offset` reaches, if any.
pub open spec fn text_at_scroll(m: ReadLineModel, offset: int) -> Option<Seq<char>> {
    crate::read_line::history::text_at(
        m.history,
        crate::read_line::history::draft_after(m.history, m.field.text),
        m.history.index + offset,
    )
}

/// A completion request on the word at the cursor: the selection moves or
/// is dropped; without one the directory must be listed, else the
/// candidates are drawn again.
pub open spec fn completes(
    m: ReadLineModel,
    bytes: Seq<u8>,
    direction: SelectionDirection,
    n: ReadLineModel,
    out: Seq<u8>,
    req: Request,
) -> bool {
    let word = word_at(m.field.text, m.field.cursor);
    &&& n.field == m.field
    &&& n.history == m.history
    &&& n.pending == m.pending
    &&& n.completer.selection == m.completer.after_next(word, direction)
    &&& n.completer.provider == m.completer.provider
    &&& out == bytes
    &&& if n.completer.selection is None {
        req matches Request::List(dir) && dir@ == dir_of(word)
    } else {
        req == Request::Render
    }
}

/// Accepting the highlighted candidate: the word at the cursor is erased,
/// the candidate is typed in its place with completion already off, and
/// what that typing yields waits until the candidate block is cleared.
pub open spec fn accepts(m: ReadLineModel, bytes: Seq<u8>, n: ReadLineModel, out: Seq<u8>, req: Request) -> bool {
    let wc = word_at(m.field.text, m.field.cursor).len();
    let typed = decode(m.field.move_left(wc).erase_right(wc), m.completer.current()->0);
    &&& n.field == typed.taken()
    &&& n.pending == Some((typed.pending, typed.command))
    &&& n.completer.selection is None
    &&& n.completer.provider == m.completer.provider
    &&& n.history == m.history
    &&& out == bytes
    &&& req == Request::Clear
}

/// The controller's transitions on a decoded response (`bytes`, `cmd`):
/// from `m` it goes to `n`, writes `out` and asks for `req`.
pub open spec fn responds(
    m: ReadLineModel,
    bytes: Seq<u8>,
    cmd: Commands,
    n: ReadLineModel,
    out: Seq<u8>,
    req: Request,
) -> bool {
    if m.completer.current() is None {
        match cmd {
            Commands::Empty => n == m && out == bytes && req == Request::Read,
            Commands::Cancel => n == m && out == bytes && req == Request::Finish(Execute::Exit),
            Commands::Eof => n == m && out == bytes && req == Request::Finish(Execute::Cancel),
            Commands::Newline => n == m && out == bytes && (req matches Request::Finish(
                Execute::Command(s),
            ) && s@ == m.field.text),
            Commands::Special(k) => match k {
                SpecialKey::Up => scrolls(m, bytes, 1, n, out) && req == Request::Read,
                SpecialKey::Down => scrolls(m, bytes, -1, n, out) && req == Request::Read,
                SpecialKey::Tab => completes(m, bytes, SelectionDirection::Down, n, out, req),
                SpecialKey::ShiftTab => completes(m, bytes, SelectionDirection::Up, n, out, req),
            },
        }
    } else {
        match cmd {
            Commands::Empty => n == m && out == bytes && req == Request::Read,
            Commands::Eof | Commands::Cancel => {
                &&& n == ReadLineModel {
                    completer: CompleterModel { selection: None, ..m.completer },
                    ..m
                }
                &&& out == bytes
                &&& req == Request::Clear
            },
            Commands::Newline => accepts(m, bytes, n, out, req),
            Commands::Special(k) => match k {
                SpecialKey::Down | SpecialKey::Tab => completes(
                    m,
                    bytes,
                    SelectionDirection::Down,
                    n,
                    out,
                    req,
                ),
                SpecialKey::Up | SpecialKey::ShiftTab => completes(
                    m,
                    bytes,
                    SelectionDirection::Up,
                    n,
                    out,
                    req,
                ),
            },
        }
    }
}

/// Reads lines with editing, history and completion.
#[derive(Debug)]
pub struct ReadLine {
    history: History,
    completion: Completer,
    text_field: TextField,
    pending: Option<Response>,
}

impl View for ReadLine {
    type V = ReadLineModel;

    closed spec fn view(&self) -> ReadLineModel {
        ReadLineModel {
            history: self.history@,
            completer: self.completion@,
            field: self.text_field@,
            pending: match self.pending {
                Some(r) => Some((r.bytes@, r.commands)),
                None => None,
            },
        }
    }
}

impl ReadLine {
    pub fn new_with_history(lines: Vec<String>) -> (r: ReadLine)
        ensures
            r@.wf(),
            r@.history.past == lines@,
            r@.history.draft is None,
            r@.history.index == 0,
            r@.completer.selection is None,
            r@.field.text.len() == 0,
            r@.field.bounds.x == 0 && r@.field.bounds.y == 0,
            r@.pending is None,
    {
        ReadLine {
            history: History::from_lines(lines),
            completion: Completer::new(),
            text_field: TextField::new(Vec2 { x: 0, y: 0 }),
            pending: None,
        }
    }

    /// The lines submitted so far, oldest first.
    pub fn history(&self) -> (r: &[String])
        ensures
            r@ == self@.history.past,
    {
        self.history.lines()
    }

    /// The line being edited.
    pub fn text(&self) -> (r: String)
        ensures
            r@ == self@.field.text,
    {
        self.text_field.text()
    }

    /// Starts a new line in a space `bounds.x` columns wide.
    pub fn start(&mut self, bounds: Vec2)
        requires
            old(self)@.wf(),
        ensures
            final(self)@.wf(),
            final(self)@.field.text.len() == 0,
            final(self)@.field.cursor == 0,
            final(self)@.field.bounds == bounds,
            final(self)@.field.pending.len() == 0,
            final(self)@.field.command == Commands::Empty,
            final(self)@.history == old(self)@.history,
            final(self)@.completer == old(self)@.completer,
            final(self)@.pending is None,
    {
        self.text_field.clear();
        self.text_field.set_bounds(bounds);
        self.pending = None;
        proof {
            assert(self@.field.text =~= Seq::<char>::empty());
        }
    }

    fn word_at_cursor(text_field: &TextField) -> (r: Vec<char>)
        requires
            text_field@.wf(),
        ensures
            r@ == word_at(text_field@.text, text_field@.cursor),
            r@.len() <= text_field@.cursor,
    {
        let line = text_field.chars();
        let end = text_field.cursor_pos().x as usize;
        let before = vstd::slice::slice_subrange(line, 0, end);
        proof {
            assert(before@ == text_field@.text.take(end as int));
            lemma_last_index_bounds(before@, ' ');
        }
        let start = after_last(before, ' ');
        let word = vstd::slice::slice_to_vec(vstd::slice::slice_subrange(before, start, end));
        proof {
            assert(word@ =~= before@.skip(start as int));
        }
        word
    }

    /// Scrolls the history by `offset` and gives the bytes that show the
    /// line reached, or the bell.
    pub fn scroll_history(&mut self, offset: isize) -> (r: Vec<u8>)
        requires
            old(self)@.wf(),
        ensures
            final(self)@.wf(),
            scrolls(old(self)@, Seq::empty(), offset as int, final(self)@, r@),
    {
        let current = self.text_field.text();
        match self.history.scroll(current.as_str(), offset) {
            Some(line) => {
                let response = self.text_field.set_text(line.as_str());
                proof {
                    assert(Seq::<u8>::empty() + response.bytes@ =~= response.bytes@);
                }
                response.bytes
            },
            None => {
                let bell = cursor::bell();
                proof {
                    assert(Seq::<u8>::empty() + seq![0x07u8] =~= seq![0x07u8]);
                }
                bell
            },
        }
    }

    /// Moves the completion selection for the word at the cursor.
    pub fn complete_next(&mut self, direction: SelectionDirection) -> (r: Request)
        requires
            old(self)@.wf(),
        ensures
            final(self)@.wf(),
            completes(old(self)@, Seq::empty(), direction, final(self)@, Seq::empty(), r),
    {
        let word = Self::word_at_cursor(&self.text_field);
        let w = string_of(word.as_slice());
        if self.completion.next(w.as_str(), direction) {
            Request::List(FileProvider::listing_dir(w.as_str()))
        } else {
            Request::Render
        }
    }

    fn append(out: &mut Vec<u8>, mut more: Vec<u8>)
        ensures
            final(out)@ == old(out)@ + more@,
    {
        out.append(&mut more);
    }

    fn handle_response(&mut self, response: Response) -> (r: Outcome)
        requires
            old(self)@.wf(),
        ensures
            final(self)@.wf(),
            responds(old(self)@, response.bytes@, response.commands, final(self)@, r.bytes@, r.request),
    {
        let mut bytes = response.bytes;
        let ghost b0 = bytes@;
        match self.completion.current_completion() {
            None => {
                let request = match response.commands {
                    Commands::Empty => Request::Read,
                    Commands::Cancel => Request::Finish(Execute::Exit),
                    Commands::Eof => Request::Finish(Execute::Cancel),
                    Commands::Newline => Request::Finish(Execute::Command(self.text_field.text())),
                    Commands::Special(key) => match key {
                        SpecialKey::Up => {
                            let more = self.scroll_history(1);
                            Self::append(&mut bytes, more);
                            Request::Read
                        },
                        SpecialKey::Down => {
                            let more = self.scroll_history(-1);
                            Self::append(&mut bytes, more);
                            Request::Read
                        },
                        SpecialKey::Tab => self.complete_next(SelectionDirection::Down),
                        SpecialKey::ShiftTab => self.complete_next(SelectionDirection::Up),
                    },
                };
                Outcome { bytes, request }
            },
            Some(info) => {
                let request = match response.commands {
                    Commands::Empty => Request::Read,
                    Commands::Eof | Commands::Cancel => {
                        self.completion.unselect();
                        Request::Clear
                    },
                    Commands::Newline => {
                        let word = Self::word_at_cursor(&self.text_field);
                        let wc = word.len() as u32;
                        self.text_field.move_left(wc);
                        self.text_field.erase_right(wc);
                        let item = info.item();
                        let typed = self.text_field.handle_input(item.as_str());
                        self.completion.unselect();
                        self.pending = Some(typed);
                        Request::Clear
                    },
                    Commands::Special(key) => match key {
                        SpecialKey::Down | SpecialKey::Tab => self.complete_next(
                            SelectionDirection::Down,
                        ),
                        SpecialKey::Up | SpecialKey::ShiftTab => self.complete_next(
                            SelectionDirection::Up,
                        ),
                    },
                };
                Outcome { bytes, request }
            },
        }
    }

    /// Takes one unit of input: a full escape sequence or one character.
    pub fn feed(&mut self, input: &str) -> (r: Outcome)
        requires
            old(self)@.wf(),
        ensures
            final(self)@.wf(),
            ({
                let d = decode(old(self)@.field, input@);
                responds(
                    ReadLineModel { field: d.taken(), ..old(self)@ },
                    d.pending,
                    d.command,
                    final(self)@,
                    r.bytes@,
                    r.request,
                )
            }),
    {
        let response = self.text_field.handle_input(input);
        self.handle_response(response)
    }

    /// Takes one unit of input as raw bytes; none, and nothing changes, when
    /// they are not valid UTF-8.
    pub fn feed_bytes(&mut self, bytes: &[u8]) -> (r: Option<Outcome>)
        requires
            old(self)@.wf(),
        ensures
            final(self)@.wf(),
            r is None <==> !vstd::utf8::valid_utf8(bytes@),
            r is None ==> final(self)@ == old(self)@,
            r matches Some(o) ==> ({
                let d = decode(old(self)@.field, vstd::utf8::decode_utf8(bytes@));
                responds(
                    ReadLineModel { field: d.taken(), ..old(self)@ },
                    d.pending,
                    d.command,
                    final(self)@,
                    o.bytes@,
                    o.request,
                )
            }),
    {
        match decode_unit(bytes) {
            Some(text) => {
                proof {
                    vstd::utf8::encode_utf8_decode_utf8(text@);
                }
                Some(self.feed(text.as_str()))
            },
            None => None,
        }
    }

    /// Takes the listing asked for by `Request::List`.
    pub fn listed(&mut self, listing: Vec<DirEntry>) -> (r: Outcome)
        requires
            old(self)@.wf(),
        ensures
            final(self)@.wf(),
            provided(
                old(self)@.completer,
                word_at(old(self)@.field.text, old(self)@.field.cursor),
                listing@,
                final(self)@.completer,
            ),
            final(self)@.field == old(self)@.field,
            final(self)@.history == old(self)@.history,
            final(self)@.pending == old(self)@.pending,
            r.bytes@.len() == 0,
            r.request == Request::Render,
    {
        let word = Self::word_at_cursor(&self.text_field);
        let w = string_of(word.as_slice());
        self.completion.provide(w.as_str(), listing);
        Outcome { bytes: Vec::new(), request: Request::Render }
    }

    /// Draws the candidates, as asked by `Request::Render`.
    pub fn render(&mut self, pos: Vec2, size: Vec2) -> (r: Outcome)
        requires
            old(self)@.wf(),
        ensures
            final(self)@.wf(),
            presented(old(self)@.completer, pos, size, final(self)@.completer, r.bytes@),
            final(self)@.field == old(self)@.field,
            final(self)@.history == old(self)@.history,
            final(self)@.pending == old(self)@.pending,
            r.request == Request::Read,
    {
        let bytes = self.completion.present(pos, size);
        Outcome { bytes, request: Request::Read }
    }

    /// Erases the candidate block, as asked by `Request::Clear`, then goes
    /// on with what an accepted candidate yielded.
    pub fn cleared(&mut self, pos: Vec2) -> (r: Outcome)
        requires
            old(self)@.wf(),
        ensures
            final(self)@.wf(),
            ({
                let n1 = ReadLineModel {
                    completer: CompleterModel { selection: None, ..old(self)@.completer },
                    pending: None,
                    ..old(self)@
                };
                let cb = clear_bytes(pos.x);
                &&& r.bytes@.len() >= cb.len()
                &&& r.bytes@.take(cb.len() as int) == cb
                &&& match old(self)@.pending {
                    None => final(self)@ == n1 && r.bytes@ == cb && r.request == Request::Read,
                    Some(p) => responds(
                        n1,
                        p.0,
                        p.1,
                        final(self)@,
                        r.bytes@.skip(cb.len() as int),
                        r.request,
                    ),
                }
            }),
    {
        let mut bytes = self.completion.clear(pos.x);
        let ghost cb = bytes@;
        let pending = self.pending.take();
        match pending {
            None => Outcome { bytes, request: Request::Read },
            Some(response) => {
                let next = self.handle_response(response);
                let ghost rest = next.bytes@;
                Self::append(&mut bytes, next.bytes);
                proof {
                    assert(bytes@.take(cb.len() as int) =~= cb);
                    assert(bytes@.skip(cb.len() as int) =~= rest);
                }
                Outcome { bytes, request: next.request }
            },
        }
    }

    /// Ends the line: a submitted command goes into the history, and the
    /// history is back at the draft. Gives the bytes that move below the
    /// line and erase what is under it.
    pub fn finish(&mut self, execute: &Execute) -> (r: Vec<u8>)
        requires
            old(self)@.wf(),
        ensures
            final(self)@.wf(),
            final(self)@.history.past == match execute {
                Execute::Command(line) => if line@.len() > 0 {
                    old(self)@.history.past.push(*line)
                } else {
                    old(self)@.history.past
                },
                _ => old(self)@.history.past,
            },
            final(self)@.history.index == 0,
            final(self)@.history.draft is None,
            final(self)@.field == old(self)@.field,
            final(self)@.completer == old(self)@.completer,
            r@ == seq![0x0du8, 0x0au8, 0x1bu8, 0x5bu8, 0x4au8],
    {
        match execute {
            Execute::Command(line) => self.history.push(line.clone()),
            _ => {},
        }
        self.history.unselect();
        let r = vec![0x0d, 0x0a, 0x1b, 0x5b, 0x4a];
        assert(r@ =~= seq![0x0du8, 0x0au8, 0x1bu8, 0x5bu8, 0x4au8]);
        r
    }
}

} // verus!
