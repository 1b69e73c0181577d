//! The edit buffer: the line being typed, its cursor, and the terminal
//! output that keeps the screen in step with it.
use vstd::prelude::*;
use vstd::utf8::{encode_scalar, encode_utf8};

use crate::read_line::cursor::{self, kill_line_seq, left_seq, right_seq};
use crate::utils::{chars_of, push_char, push_utf8, string_of};
use crate::Vec2;

verus! {

/// Keys that the buffer does not handle itself and hands to its caller.
#[derive(Clone, Copy, Debug, PartialEq, Eq, Structural)]
pub enum SpecialKey {
    Up,
    Down,
    Tab,
    ShiftTab,
}

/// The command decoded from one chunk of input: nothing, end of file,
/// cancel, submit, or a special key, never two of them at once.
#[derive(Clone, Copy, Debug, PartialEq, Eq, Structural)]
pub enum Commands {
    Empty,
    Eof,
    Cancel,
    Newline,
    Special(SpecialKey),
}

impl Commands {
    pub fn special(key: SpecialKey) -> (r: Commands)
        ensures
            r == Commands::Special(key),
    {
        Commands::Special(key)
    }

    /// The special key this command carries, if it is one.
    pub fn get_key(&self) -> (r: Option<SpecialKey>)
        ensures
            r == (match *self {
                Commands::Special(k) => Some(k),
                _ => None,
            }),
    {
        match *self {
            Commands::Special(k) => Some(k),
            _ => None,
        }
    }

    pub fn is_eof(&self) -> (r: bool)
        ensures
            r == (*self == Commands::Eof),
    {
        matches!(*self, Commands::Eof)
    }

    pub fn is_exit(&self) -> (r: bool)
        ensures
            r == (*self == Commands::Cancel),
    {
        matches!(*self, Commands::Cancel)
    }

    pub fn is_newline(&self) -> (r: bool)
        ensures
            r == (*self == Commands::Newline),
    {
        matches!(*self, Commands::Newline)
    }
}

/// What the buffer hands back after a request: the bytes to write to the
/// terminal and the command that was recognised.
#[derive(Clone, Debug, PartialEq, Eq)]
pub struct Response {
    pub bytes: Vec<u8>,
    pub commands: Commands,
}

impl Response {
    pub fn new() -> (r: Response)
        ensures
            r.bytes@.len() == 0,
            r.commands == Commands::Empty,
    {
        Response { bytes: Vec::new(), commands: Commands::Empty }
    }
}

/// The abstract state of a `TextField`.
pub struct EditModel {
    pub text: Seq<char>,
    pub cursor: nat,
    pub bounds: Vec2,
    pub pending: Seq<u8>,
    pub command: Commands,
}

impl EditModel {
    /// The cursor stays within the text and the text within the width.
    pub open spec fn wf(self) -> bool {
        self.cursor <= self.text.len() <= self.bounds.x
    }

    pub open spec fn with_command(self, c: Commands) -> EditModel {
        EditModel { command: c, ..self }
    }

    /// The pending response handed out and reset.
    pub open spec fn taken(self) -> EditModel {
        EditModel { pending: Seq::empty(), command: Commands::Empty, ..self }
    }

    /// Moves left by `times`, stopping at the start of the line.
    pub open spec fn move_left(self, times: nat) -> EditModel {
        let t = if times < self.cursor {
            times
        } else {
            self.cursor
        };
        EditModel { cursor: (self.cursor - t) as nat, pending: self.pending + left_seq(t), ..self }
    }

    /// Moves right by `times`; a move past the end of the text is refused.
    pub open spec fn move_right(self, times: nat) -> EditModel {
        if self.cursor + times > self.text.len() {
            self
        } else {
            EditModel { cursor: self.cursor + times, pending: self.pending + right_seq(times), ..self }
        }
    }

    /// Deletes the character left of the cursor and redraws the rest of
    /// the line: step back, erase to the end, write the tail, step back
    /// over it.
    pub open spec fn backspace(self) -> EditModel {
        if self.cursor == 0 {
            self
        } else {
            let x = (self.cursor - 1) as nat;
            let text = self.text.remove(x as int);
            let tail = text.skip(x as int);
            EditModel {
                text,
                cursor: x,
                pending: self.pending + left_seq(1) + kill_line_seq() + encode_utf8(tail) + left_seq(
                    tail.len(),
                ),
                ..self
            }
        }
    }

    /// Deletes the character under the cursor, if there is one.
    pub open spec fn delete_right(self) -> EditModel {
        if self.cursor < self.text.len() {
            self.move_right(1).backspace()
        } else {
            self
        }
    }

    /// Inserts `c` at the cursor unless the line is full. At the end of the
    /// line only the character is written; inside it the rest of the line
    /// is erased and rewritten and the cursor is brought back.
    pub open spec fn insert(self, c: char) -> EditModel {
        if self.text.len() >= self.bounds.x {
            self
        } else if self.cursor == self.text.len() {
            EditModel {
                text: self.text.push(c),
                cursor: self.cursor + 1,
                pending: self.pending + encode_scalar(c as u32),
                ..self
            }
        } else {
            let text = self.text.insert(self.cursor as int, c);
            let tail = text.skip(self.cursor as int);
            EditModel {
                text,
                cursor: self.cursor + 1,
                pending: self.pending + kill_line_seq() + encode_utf8(tail) + left_seq(
                    (tail.len() - 1) as nat,
                ),
                ..self
            }
        }
    }

    /// `times` backspaces, one after the other.
    pub open spec fn erase_left(self, times: nat) -> EditModel
        decreases times,
    {
        if times == 0 {
            self
        } else {
            self.backspace().erase_left((times - 1) as nat)
        }
    }

    /// Deletes up to `times` characters right of the cursor: moves over
    /// them, then erases them one by one.
    pub open spec fn erase_right(self, times: nat) -> EditModel {
        let room = (self.text.len() - self.cursor) as nat;
        let t = if times < room {
            times
        } else {
            room
        };
        self.move_right(t).erase_left(t)
    }

    pub open spec fn move_to(self, index: nat) -> EditModel {
        if index > self.cursor {
            self.move_right((index - self.cursor) as nat)
        } else {
            self.move_left((self.cursor - index) as nat)
        }
    }

    /// The line replaced by `t`, cut to the width, cursor at its end.
    pub open spec fn replaced(self, t: Seq<char>) -> EditModel {
        let n = if t.len() <= self.bounds.x {
            t.len()
        } else {
            self.bounds.x as nat
        };
        EditModel {
            text: t.take(n as int),
            cursor: n,
            pending: Seq::empty(),
            command: Commands::Empty,
            ..self
        }
    }

    /// The bytes that replace the line by `t`: back to its start, erase,
    /// write the text that fits.
    pub open spec fn replace_bytes(self, t: Seq<char>) -> Seq<u8> {
        self.pending + left_seq(self.cursor) + kill_line_seq() + encode_utf8(self.replaced(t).text)
    }

    pub open spec fn set_bounds(self, bounds: Vec2) -> EditModel {
        let n = if self.text.len() <= bounds.x {
            self.text.len()
        } else {
            bounds.x as nat
        };
        let c = if self.cursor <= n {
            self.cursor
        } else {
            n
        };
        EditModel { text: self.text.take(n as int), cursor: c, bounds, ..self }
    }
}

/// The effect of one chunk of input, element by element, as the input table
/// of the engine gives it; the command is the last one recognised.
pub open spec fn decode(m: EditModel, input: Seq<char>) -> EditModel
    decreases input.len(),
{
    if input.len() == 0 {
        m
    } else {
        let c = input[0] as u32;
        let rest = input.drop_first();
        if c == 1 {
            decode(m.move_left(m.cursor), rest)
        } else if c == 3 {
            decode(m.with_command(Commands::Cancel), rest)
        } else if c == 4 {
            decode(m.with_command(Commands::Eof), rest)
        } else if c == 5 {
            decode(m.move_right((m.text.len() - m.cursor) as nat), rest)
        } else if c == 9 {
            decode(m.with_command(Commands::Special(SpecialKey::Tab)), rest)
        } else if c == 13 {
            decode(m.with_command(Commands::Newline), rest)
        } else if c == 27 {
            if rest.len() == 0 {
                m
            } else if rest[0] != '[' {
                decode(m, rest.drop_first())
            } else if rest.len() == 1 {
                m
            } else {
                let k = rest[1];
                let tail = rest.skip(2);
                if k == 'A' {
                    decode(m.with_command(Commands::Special(SpecialKey::Up)), tail)
                } else if k == 'B' {
                    decode(m.with_command(Commands::Special(SpecialKey::Down)), tail)
                } else if k == 'C' {
                    decode(m.move_right(1), tail)
                } else if k == 'D' {
                    decode(m.move_left(1), tail)
                } else if k == 'Z' {
                    decode(m.with_command(Commands::Special(SpecialKey::ShiftTab)), tail)
                } else if k == '3' {
                    if tail.len() == 0 {
                        m
                    } else if tail[0] == '~' {
                        decode(m.delete_right(), tail.drop_first())
                    } else {
                        decode(m, tail.drop_first())
                    }
                } else {
                    decode(m, tail)
                }
            }
        } else if 1 <= c <= 26 {
            decode(m, rest)
        } else if c == 127 {
            decode(m.backspace(), rest)
        } else {
            decode(m.insert(input[0]), rest)
        }
    }
}

/// Each single edit keeps the buffer well-formed.
pub proof fn lemma_edit_keeps_bounds(m: EditModel, c: char, times: nat, cmd: Commands)
    requires
        m.wf(),
    ensures
        m.move_left(times).wf(),
        m.move_right(times).wf(),
        m.backspace().wf(),
        m.delete_right().wf(),
        m.insert(c).wf(),
        m.with_command(cmd).wf(),
{
}

/// Every edit keeps `cursor <= char_count(text) <= width`: whatever input
/// the buffer decodes, from a well-formed state it reaches a well-formed one.
pub proof fn lemma_decode_keeps_bounds(m: EditModel, input: Seq<char>)
    requires
        m.wf(),
    ensures
        decode(m, input).wf(),
    decreases input.len(),
{
    if input.len() > 0 {
        let c = input[0] as u32;
        let rest = input.drop_first();
        if c == 1 {
            lemma_edit_keeps_bounds(m, input[0], m.cursor, Commands::Empty);
            lemma_decode_keeps_bounds(m.move_left(m.cursor), rest);
        } else if c == 3 {
            lemma_decode_keeps_bounds(m.with_command(Commands::Cancel), rest);
        } else if c == 4 {
            lemma_decode_keeps_bounds(m.with_command(Commands::Eof), rest);
        } else if c == 9 {
            lemma_decode_keeps_bounds(m.with_command(Commands::Special(SpecialKey::Tab)), rest);
        } else if c == 13 {
            lemma_decode_keeps_bounds(m.with_command(Commands::Newline), rest);
        } else if c == 5 {
            lemma_edit_keeps_bounds(m, input[0], (m.text.len() - m.cursor) as nat, Commands::Empty);
            lemma_decode_keeps_bounds(m.move_right((m.text.len() - m.cursor) as nat), rest);
        } else if c == 27 {
            if rest.len() == 0 {
            } else if rest[0] != '[' {
                lemma_decode_keeps_bounds(m, rest.drop_first());
            } else if rest.len() == 1 {
            } else {
                let k = rest[1];
                let tail = rest.skip(2);
                lemma_edit_keeps_bounds(m, input[0], 1, Commands::Empty);
                if k == 'A' {
                    lemma_decode_keeps_bounds(m.with_command(Commands::Special(SpecialKey::Up)), tail);
                } else if k == 'B' {
                    lemma_decode_keeps_bounds(
                        m.with_command(Commands::Special(SpecialKey::Down)),
                        tail,
                    );
                } else if k == 'C' {
                    lemma_decode_keeps_bounds(m.move_right(1), tail);
                } else if k == 'D' {
                    lemma_decode_keeps_bounds(m.move_left(1), tail);
                } else if k == 'Z' {
                    lemma_decode_keeps_bounds(
                        m.with_command(Commands::Special(SpecialKey::ShiftTab)),
                        tail,
                    );
                } else if k == '3' {
                    if tail.len() == 0 {
                    } else if tail[0] == '~' {
                        lemma_decode_keeps_bounds(m.delete_right(), tail.drop_first());
                    } else {
                        lemma_decode_keeps_bounds(m, tail.drop_first());
                    }
                } else {
                    lemma_decode_keeps_bounds(m, tail);
                }
            }
        } else if 1 <= c <= 26 {
            lemma_decode_keeps_bounds(m, rest);
        } else if c == 127 {
            lemma_edit_keeps_bounds(m, input[0], 0, Commands::Empty);
            lemma_decode_keeps_bounds(m.backspace(), rest);
        } else {
            lemma_edit_keeps_bounds(m, input[0], 0, Commands::Empty);
            lemma_decode_keeps_bounds(m.insert(input[0]), rest);
        }
    }
}

/// Repeated backspaces keep the buffer well-formed.
pub proof fn lemma_erase_left_keeps_bounds(m: EditModel, times: nat)
    requires
        m.wf(),
    ensures
        m.erase_left(times).wf(),
    decreases times,
{
    if times > 0 {
        lemma_erase_left_keeps_bounds(m.backspace(), (times - 1) as nat);
    }
}

/// Inserting `c` at an interior position `i` gives `text[..i] + c + text[i..]`
/// with the cursor at `i + 1`. The output erases to the end of the line,
/// writes the `k + 1` characters from `i` on and steps back `k`, so the
/// terminal's cursor ends one column right of where it was.
pub proof fn lemma_insert_interior(m: EditModel, c: char)
    requires
        m.wf(),
        m.cursor < m.text.len(),
        m.text.len() < m.bounds.x,
    ensures
        m.insert(c).text == m.text.take(m.cursor as int) + seq![c] + m.text.skip(m.cursor as int),
        m.insert(c).cursor == m.cursor + 1,
        m.insert(c).pending == m.pending + kill_line_seq() + encode_utf8(
            m.insert(c).text.skip(m.cursor as int),
        ) + left_seq((m.text.len() - m.cursor) as nat),
        m.insert(c).text.skip(m.cursor as int).len() == (m.text.len() - m.cursor) + 1,
{
    assert(m.insert(c).text =~= m.text.take(m.cursor as int) + seq![c] + m.text.skip(
        m.cursor as int,
    ));
}

/// Cutting to a width is idempotent, and a width that the text already fits
/// leaves the text and the cursor as they are.
pub proof fn lemma_set_bounds_idempotent(m: EditModel, bounds: Vec2)
    requires
        m.wf(),
    ensures
        m.set_bounds(bounds).set_bounds(bounds) == m.set_bounds(bounds),
        bounds.x >= m.text.len() ==> m.set_bounds(bounds).text == m.text
            && m.set_bounds(bounds).cursor == m.cursor,
{
    assert(m.set_bounds(bounds).text.take(m.set_bounds(bounds).text.len() as int)
        =~= m.set_bounds(bounds).text);
    if bounds.x >= m.text.len() {
        assert(m.text.take(m.text.len() as int) =~= m.text);
    }
}

/// The line being edited.
#[derive(Debug)]
pub struct TextField {
    text: Vec<char>,
    cursor_x: u32,
    bounds: Vec2,
    response: Response,
}

impl View for TextField {
    type V = EditModel;

    closed spec fn view(&self) -> EditModel {
        EditModel {
            text: self.text@,
            cursor: self.cursor_x as nat,
            bounds: self.bounds,
            pending: self.response.bytes@,
            command: self.response.commands,
        }
    }
}

impl TextField {
    pub fn new(bounds: Vec2) -> (r: TextField)
        ensures
            r@.wf(),
            r@.text.len() == 0,
            r@.cursor == 0,
            r@.bounds == bounds,
            r@.pending.len() == 0,
            r@.command == Commands::Empty,
    {
        TextField { text: Vec::new(), cursor_x: 0, bounds, response: Response::new() }
    }

    /// Changes the width; a text that no longer fits is cut to it.
    pub fn set_bounds(&mut self, bounds: Vec2)
        requires
            old(self)@.wf(),
        ensures
            final(self)@ == old(self)@.set_bounds(bounds),
            final(self)@.wf(),
            bounds.x >= old(self)@.text.len() ==> final(self)@.text == old(self)@.text
                && final(self)@.cursor == old(self)@.cursor,
    {
        let w = bounds.x as usize;
        if self.text.len() > w {
            self.text.truncate(w);
        }
        if self.cursor_x as usize > self.text.len() {
            self.cursor_x = self.text.len() as u32;
        }
        self.bounds = bounds;
        proof {
            assert(self.text@ =~= old(self)@.set_bounds(bounds).text);
        }
    }

    fn append_bytes(&mut self, mut bytes: Vec<u8>)
        ensures
            final(self)@ == (EditModel { pending: old(self)@.pending + bytes@, ..old(self)@ }),
    {
        self.response.bytes.append(&mut bytes);
    }

    fn handle_backspace(&mut self)
        requires
            old(self)@.wf(),
        ensures
            final(self)@ == old(self)@.backspace(),
            final(self)@.wf(),
    {
        if self.cursor_x == 0 {
            return;
        }
        self.cursor_x = self.cursor_x - 1;
        let x = self.cursor_x as usize;
        self.text.remove(x);
        let n = self.text.len();
        self.append_bytes(cursor::move_left(1));
        self.append_bytes(cursor::kill_line());
        push_utf8(&mut self.response.bytes, self.text.as_slice(), x, n);
        self.append_bytes(cursor::move_left((n - x) as u32));
        proof {
            let tail = self.text@.skip(x as int);
            assert(self.text@.subrange(x as int, n as int) =~= tail);
            assert(self@.pending =~= old(self)@.backspace().pending);
        }
    }

    /// Deletes up to `times` characters left of the cursor, one at a time.
    pub fn erase_left(&mut self, times: u32)
        requires
            old(self)@.wf(),
        ensures
            final(self)@ == old(self)@.erase_left(times as nat),
            final(self)@.wf(),
    {
        let mut i: u32 = 0;
        while i < times
            invariant
                i <= times,
                self@.wf(),
                old(self)@.erase_left(times as nat) == self@.erase_left((times - i) as nat),
            decreases times - i,
        {
            self.handle_backspace();
            i = i + 1;
        }
    }

    /// Deletes up to `times` characters right of the cursor.
    pub fn erase_right(&mut self, times: u32)
        requires
            old(self)@.wf(),
        ensures
            final(self)@ == old(self)@.erase_right(times as nat),
            final(self)@.wf(),
    {
        let room = self.text.len() - self.cursor_x as usize;
        let t: u32 = if (times as usize) < room {
            times
        } else {
            room as u32
        };
        self.move_right(t);
        self.erase_left(t);
    }

    fn handle_char(&mut self, c: char)
        requires
            old(self)@.wf(),
        ensures
            final(self)@ == old(self)@.insert(c),
            final(self)@.wf(),
    {
        if self.text.len() >= self.bounds.x as usize {
            return;
        }
        let x = self.cursor_x as usize;
        if x == self.text.len() {
            self.text.push(c);
            push_char(&mut self.response.bytes, c);
        } else {
            self.text.insert(x, c);
            let n = self.text.len();
            self.append_bytes(cursor::kill_line());
            push_utf8(&mut self.response.bytes, self.text.as_slice(), x, n);
            self.append_bytes(cursor::move_left((n - x - 1) as u32));
            proof {
                let tail = self.text@.skip(x as int);
                assert(self.text@.subrange(x as int, n as int) =~= tail);
            }
        }
        self.cursor_x = self.cursor_x + 1;
        proof {
            assert(self@.pending =~= old(self)@.insert(c).pending);
        }
    }

    /// Replaces the whole line: back to the start of the line, erase it,
    /// write the new text, cut to the width.
    pub fn set_text(&mut self, text: &str) -> (r: Response)
        requires
            old(self)@.wf(),
        ensures
            r.bytes@ == old(self)@.replace_bytes(text@),
            r.commands == Commands::Empty,
            final(self)@ == old(self)@.replaced(text@),
            final(self)@.wf(),
    {
        let mut cs = chars_of(text);
        let w = self.bounds.x as usize;
        if cs.len() > w {
            cs.truncate(w);
        }
        let n = cs.len();
        let x = self.cursor_x;
        self.append_bytes(cursor::move_left(x));
        self.append_bytes(cursor::kill_line());
        push_utf8(&mut self.response.bytes, cs.as_slice(), 0, n);
        proof {
            assert(cs@.subrange(0, n as int) =~= cs@);
            assert(cs@ =~= text@.take(n as int));
        }
        self.text = cs;
        self.cursor_x = n as u32;
        self.response.commands = Commands::Empty;
        self.take_response()
    }

    /// Erases the line from the cursor on.
    pub fn erase_rest(&mut self)
        requires
            old(self)@.wf(),
        ensures
            final(self)@ == (EditModel {
                text: old(self)@.text.take(old(self)@.cursor as int),
                pending: old(self)@.pending + kill_line_seq(),
                ..old(self)@
            }),
            final(self)@.wf(),
    {
        self.append_bytes(cursor::kill_line());
        self.text.truncate(self.cursor_x as usize);
        proof {
            assert(self.text@ =~= old(self)@.text.take(old(self)@.cursor as int));
        }
    }

    /// Moves the cursor to character `index` of the line.
    pub fn move_to(&mut self, _text: &str, index: usize)
        requires
            old(self)@.wf(),
        ensures
            final(self)@ == old(self)@.move_to(index as nat),
            final(self)@.wf(),
    {
        let x = self.cursor_x as usize;
        if index > x {
            if index <= self.text.len() {
                self.move_right((index - x) as u32);
            }
        } else if index < x {
            self.move_left((x - index) as u32);
        }
    }

    pub fn move_left(&mut self, times: u32)
        requires
            old(self)@.wf(),
        ensures
            final(self)@ == old(self)@.move_left(times as nat),
            final(self)@.wf(),
    {
        let t = if times < self.cursor_x {
            times
        } else {
            self.cursor_x
        };
        self.cursor_x = self.cursor_x - t;
        self.append_bytes(cursor::move_left(t));
    }

    pub fn move_right(&mut self, times: u32)
        requires
            old(self)@.wf(),
        ensures
            final(self)@ == old(self)@.move_right(times as nat),
            final(self)@.wf(),
    {
        if times as usize > self.text.len() - self.cursor_x as usize {
            return;
        }
        self.cursor_x = self.cursor_x + times;
        self.append_bytes(cursor::move_right(times));
    }

    /// Decodes one chunk of input into edits of the line and a command, and
    /// hands out the response gathered so far.
    pub fn handle_input(&mut self, input: &str) -> (r: Response)
        requires
            old(self)@.wf(),
        ensures
            r.bytes@ == decode(old(self)@, input@).pending,
            r.commands == decode(old(self)@, input@).command,
            final(self)@ == decode(old(self)@, input@).taken(),
            final(self)@.wf(),
    {
        let cs = chars_of(input);
        let n = cs.len();
        let mut i: usize = 0;
        assert(input@.skip(0) =~= input@);
        while i < n
            invariant
                i <= n,
                n == cs@.len(),
                cs@ == input@,
                self@.wf(),
                decode(old(self)@, input@) == decode(self@, input@.skip(i as int)),
            decreases n - i,
        {
            let ghost s = input@.skip(i as int);
            proof {
                assert(s.drop_first() =~= input@.skip(i + 1));
                assert(s[0] == cs@[i as int]);
            }
            let c = cs[i];
            let v = c as u32;
            if v == 1 {
                let x = self.cursor_x;
                self.move_left(x);
                i = i + 1;
            } else if v == 3 {
                self.response.commands = Commands::Cancel;
                i = i + 1;
            } else if v == 4 {
                self.response.commands = Commands::Eof;
                i = i + 1;
            } else if v == 5 {
                let room = (self.text.len() - self.cursor_x as usize) as u32;
                self.move_right(room);
                i = i + 1;
            } else if v == 9 {
                self.response.commands = Commands::Special(SpecialKey::Tab);
                i = i + 1;
            } else if v == 13 {
                self.response.commands = Commands::Newline;
                i = i + 1;
            } else if v == 27 {
                if i + 1 >= n {
                    i = n;
                } else if cs[i + 1] != '[' {
                    proof {
                        assert(s.drop_first().drop_first() =~= input@.skip(i + 2));
                    }
                    i = i + 2;
                } else if i + 2 >= n {
                    i = n;
                } else {
                    proof {
                        assert(s.drop_first().skip(2) =~= input@.skip(i + 3));
                    }
                    let k = cs[i + 2];
                    if k == 'A' {
                        self.response.commands = Commands::Special(SpecialKey::Up);
                        i = i + 3;
                    } else if k == 'B' {
                        self.response.commands = Commands::Special(SpecialKey::Down);
                        i = i + 3;
                    } else if k == 'C' {
                        self.move_right(1);
                        i = i + 3;
                    } else if k == 'D' {
                        self.move_left(1);
                        i = i + 3;
                    } else if k == 'Z' {
                        self.response.commands = Commands::Special(SpecialKey::ShiftTab);
                        i = i + 3;
                    } else if k == '3' {
                        if i + 3 >= n {
                            i = n;
                        } else {
                            proof {
                                assert(s.drop_first().skip(2).drop_first() =~= input@.skip(i + 4));
                            }
                            if cs[i + 3] == '~' {
                                if (self.cursor_x as usize) < self.text.len() {
                                    self.move_right(1);
                                    self.handle_backspace();
                                }
                            }
                            i = i + 4;
                        }
                    } else {
                        i = i + 3;
                    }
                }
            } else if 1 <= v && v <= 26 {
                i = i + 1;
            } else if v == 127 {
                self.handle_backspace();
                i = i + 1;
            } else {
                self.handle_char(c);
                i = i + 1;
            }
        }
        proof {
            assert(input@.skip(n as int) =~= Seq::<char>::empty());
        }
        self.take_response()
    }

    /// Empties the line and drops the pending response; the width stays.
    pub fn clear(&mut self)
        ensures
            final(self)@ == (EditModel {
                text: Seq::empty(),
                cursor: 0,
                pending: Seq::empty(),
                command: Commands::Empty,
                ..old(self)@
            }),
            final(self)@.wf(),
    {
        self.text = Vec::new();
        self.cursor_x = 0;
        self.response = Response::new();
        proof {
            assert(self@.text =~= Seq::<char>::empty());
            assert(self@.pending =~= Seq::<u8>::empty());
        }
    }

    /// Hands out the pending response and starts a new one.
    pub fn take_response(&mut self) -> (r: Response)
        ensures
            r.bytes@ == old(self)@.pending,
            r.commands == old(self)@.command,
            final(self)@ == old(self)@.taken(),
    {
        let mut bytes: Vec<u8> = Vec::new();
        bytes.append(&mut self.response.bytes);
        let commands = self.response.commands;
        self.response.commands = Commands::Empty;
        proof {
            assert(bytes@ =~= old(self)@.pending);
        }
        Response { bytes, commands }
    }

    pub fn text(&self) -> (r: String)
        ensures
            r@ == self@.text,
    {
        string_of(self.text.as_slice())
    }

    /// The characters of the line.
    pub fn chars(&self) -> (r: &[char])
        ensures
            r@ == self@.text,
    {
        self.text.as_slice()
    }

    /// The cursor, as a column within the line; the row is always 0.
    pub fn cursor_pos(&self) -> (r: Vec2)
        ensures
            r.x == self@.cursor,
            r.y == 0,
    {
        Vec2 { x: self.cursor_x, y: 0 }
    }
}

} // verus!
