//! Filename completion: a cached selection over the candidates of the word
//! under the cursor.
use vstd::prelude::*;

use crate::read_line::completion::files::{
    dir_of, formatted, joined, matching, prefix_of, sorted_by_name, DirEntry, FileProvider,
    ProviderModel,
};
use crate::read_line::cursor::{self, kill_to_end_seq, right_seq, up_seq};
use crate::utils::{fingerprint, hash, join_parts, string_of, BytesBuf};
use crate::widget::{self, grid_bytes, grid_shown, GridStyle};
use crate::Vec2;

pub mod files;

verus! {

#[derive(Clone, Copy, Debug, PartialEq, Eq, Structural)]
pub enum SelectionDirection {
    Up,
    Down,
}

/// The highlighted candidate, how many candidates are on screen, and the
/// fingerprint of the word the candidates were listed for.
#[derive(Clone, Copy, Debug, PartialEq, Eq, Structural)]
pub struct Selection {
    pub index: u8,
    pub items_shown: u8,
    pub word_hash: u64,
}

impl Selection {
    pub fn new(current_word: &str) -> (r: Selection)
        ensures
            r.index == 0,
            r.items_shown == 1,
            r.word_hash == fingerprint(current_word@),
    {
        Selection { word_hash: hash(current_word), items_shown: 1, index: 0 }
    }
}

/// The next highlight: one down or up, wrapping over the items shown.
pub open spec fn cycled(index: u8, shown: u8, direction: SelectionDirection) -> u8 {
    match direction {
        SelectionDirection::Down => if index as int + 1 < shown as int {
            (index + 1) as u8
        } else {
            0
        },
        SelectionDirection::Up => if index > 0 {
            (index - 1) as u8
        } else if shown == 0 {
            0
        } else {
            (shown - 1) as u8
        },
    }
}

fn cycle(index: u8, shown: u8, direction: SelectionDirection) -> (r: u8)
    ensures
        r == cycled(index, shown, direction),
{
    match direction {
        SelectionDirection::Down => if (index as u32) + 1 < shown as u32 {
            index + 1
        } else {
            0
        },
        SelectionDirection::Up => if index > 0 {
            index - 1
        } else if shown == 0 {
            0
        } else {
            shown - 1
        },
    }
}

/// The text that accepting the current candidate inserts.
#[derive(Debug, Clone)]
pub struct CompletionInfo {
    item: Vec<char>,
}

impl View for CompletionInfo {
    type V = Seq<char>;

    closed spec fn view(&self) -> Seq<char> {
        self.item@
    }
}

impl CompletionInfo {
    pub fn item(&self) -> (r: String)
        ensures
            r@ == self@,
    {
        string_of(self.item.as_slice())
    }
}

#[derive(Debug)]
pub struct Completer {
    current_selection: Option<Selection>,
    file_provider: FileProvider,
}

pub struct CompleterModel {
    pub selection: Option<Selection>,
    pub provider: ProviderModel,
}

impl CompleterModel {
    /// The selection after a request for `word`: the highlight moves, and
    /// the selection is dropped when it was made for another word.
    pub open spec fn after_next(self, word: Seq<char>, direction: SelectionDirection) -> Option<
        Selection,
    > {
        match self.selection {
            Some(s) => if s.word_hash == fingerprint(word) {
                Some(Selection { index: cycled(s.index, s.items_shown, direction), ..s })
            } else {
                None
            },
            None => None,
        }
    }

    /// The text of the highlighted candidate, joined to its directory.
    pub open spec fn current(self) -> Option<Seq<char>> {
        match self.selection {
            Some(s) => if (s.index as int) < self.provider.items.len() {
                Some(joined(self.provider.cwd, self.provider.items[s.index as int]))
            } else {
                None
            },
            None => None,
        }
    }
}

impl View for Completer {
    type V = CompleterModel;

    closed spec fn view(&self) -> CompleterModel {
        CompleterModel { selection: self.current_selection, provider: self.file_provider@ }
    }
}

/// The bytes that erase the candidate block and return to column `x`.
pub open spec fn clear_bytes(x: u32) -> Seq<u8> {
    seq![0x0au8, 0x0du8] + kill_to_end_seq() + up_seq(1) + right_seq(
        if x > 0 {
            (x - 1) as nat
        } else {
            0
        },
    )
}

/// A request for the same word is served from the cache, while a word with
/// another fingerprint drops the selection and so asks for a new listing.
pub proof fn lemma_completion_cache(
    m: CompleterModel,
    word: Seq<char>,
    other: Seq<char>,
    direction: SelectionDirection,
)
    requires
        m.selection matches Some(s) && s.word_hash == fingerprint(word),
    ensures
        m.after_next(word, direction) matches Some(s) && s.word_hash == fingerprint(word),
        fingerprint(other) != fingerprint(word) ==> m.after_next(other, direction) is None,
{
}

/// `c2` is what `provide(word, listing)` leaves of `c`: the candidates
/// of the listing that match the word, sorted and formatted, and a new
/// selection on the first of them.
pub open spec fn provided(c: CompleterModel, word: Seq<char>, listing: Seq<DirEntry>, c2: CompleterModel) -> bool {
    &&& c2.selection == Some(Selection { index: 0, items_shown: 1, word_hash: fingerprint(word) })
    &&& c2.provider.cwd == dir_of(word)
    &&& c2.provider.entries.to_multiset() == matching(listing, prefix_of(word)).to_multiset()
    &&& sorted_by_name(c2.provider.entries)
    &&& c2.provider.items.len() == c2.provider.entries.len()
    &&& forall|i: int|
        0 <= i < c2.provider.items.len() ==> #[trigger] c2.provider.items[i] == formatted(
            c2.provider.entries[i].0,
            c2.provider.entries[i].1,
        )
}

/// `c2` and `out` are what `present(pos, size)` leaves and writes: the grid
/// of the candidates with the selection highlighted, and the number shown.
pub open spec fn presented(c: CompleterModel, pos: Vec2, size: Vec2, c2: CompleterModel, out: Seq<u8>) -> bool {
    &&& c2.provider == c.provider
    &&& match c.selection {
        Some(s) => {
            &&& out == grid_bytes(pos, size, c.provider.items, s.index as nat, 2)
            &&& c2.selection == Some(
                Selection {
                    items_shown: grid_shown(c.provider.items, size, s.index as nat, 2) as u8,
                    ..s
                },
            )
        },
        None => out.len() == 0 && c2.selection is None,
    }
}

impl Completer {
    pub fn new() -> (r: Completer)
        ensures
            r@.selection is None,
            r@.provider.cwd == seq!['.'],
            r@.provider.items.len() == 0,
    {
        Completer { current_selection: None, file_provider: FileProvider::new() }
    }

    /// Moves the highlight for a request on `current_word`. Returns true
    /// when no selection is left for that word, so that a listing of
    /// `FileProvider::listing_dir(current_word)` must be handed to `provide`.
    pub fn next(&mut self, current_word: &str, direction: SelectionDirection) -> (needs_listing:
        bool)
        ensures
            final(self)@.selection == old(self)@.after_next(current_word@, direction),
            final(self)@.provider == old(self)@.provider,
            needs_listing == final(self)@.selection is None,
    {
        match self.current_selection {
            Some(sel) => {
                let index = cycle(sel.index, sel.items_shown, direction);
                if hash(current_word) == sel.word_hash {
                    self.current_selection = Some(Selection { index, ..sel });
                } else {
                    self.current_selection = None;
                }
            },
            None => {},
        }
        self.current_selection.is_none()
    }

    /// Takes the listing for `current_word` and starts a selection on its
    /// first candidate.
    pub fn provide(&mut self, current_word: &str, listing: Vec<DirEntry>)
        ensures
            provided(old(self)@, current_word@, listing@, final(self)@),
    {
        self.file_provider.provide(current_word, listing);
        self.current_selection = Some(Selection::new(current_word));
    }

    /// Draws the candidates below the line, with the cursor at `pos` and
    /// the terminal of size `size`, and records how many are shown.
    pub fn present(&mut self, pos: Vec2, size: Vec2) -> (r: Vec<u8>)
        ensures
            presented(old(self)@, pos, size, final(self)@, r@),
    {
        match self.current_selection {
            Some(sel) => {
                let response = widget::grid(
                    pos,
                    size,
                    self.file_provider.items(),
                    sel.index,
                    GridStyle::default(),
                );
                self.current_selection = Some(Selection { items_shown: response.elements_shown, ..sel });
                response.response
            },
            None => Vec::new(),
        }
    }

    /// The highlighted candidate, if there is one.
    pub fn current_completion(&self) -> (r: Option<CompletionInfo>)
        ensures
            r matches Some(info) ==> self@.current() == Some(info@),
            r is None <==> self@.current() is None,
    {
        match self.current_selection {
            Some(sel) => {
                let items = self.file_provider.items();
                if (sel.index as usize) < items.len() {
                    let item = self.file_provider.accept(items[sel.index as usize].as_slice());
                    Some(CompletionInfo { item })
                } else {
                    None
                }
            },
            None => None,
        }
    }

    /// Drops the selection and gives the bytes that erase the candidate
    /// block, for a cursor in column `cursor_x`.
    pub fn clear(&mut self, cursor_x: u32) -> (r: Vec<u8>)
        ensures
            final(self)@.selection is None,
            final(self)@.provider == old(self)@.provider,
            r@ == clear_bytes(cursor_x),
    {
        self.unselect();
        let newline: Vec<u8> = vec![0x0a, 0x0d];
        let kill = cursor::kill_to_term_end();
        let mut buf = BytesBuf::of(vec![newline, kill]);
        let back: u32 = if cursor_x > 0 {
            cursor_x - 1
        } else {
            0
        };
        let up = cursor::move_up(1);
        let right = cursor::move_right(back);
        let ghost (u, g) = (up@, right@);
        buf.extend(vec![up, right]);
        let nothing: Vec<u8> = Vec::new();
        let r = buf.join(nothing.as_slice());
        proof {
            let p = buf@;
            let e = Seq::<u8>::empty();
            assert(p.len() == 4);
            assert(p.take(4) =~= p);
            assert(p.take(4).drop_last() =~= p.take(3));
            assert(p.take(3).drop_last() =~= p.take(2));
            assert(p.take(2).drop_last() =~= p.take(1));
            assert(join_parts(p.take(1), e) == p[0]);
            assert(join_parts(p.take(2), e) =~= p[0] + p[1]);
            assert(join_parts(p.take(3), e) =~= p[0] + p[1] + p[2]);
            assert(join_parts(p, e) =~= p[0] + p[1] + p[2] + p[3]);
            assert(p[0] =~= seq![0x0au8, 0x0du8]);
            assert(p[1] == kill_to_end_seq());
            assert(p[2] == u);
            assert(p[3] == g);
            assert(nothing@ =~= e);
            assert(r@ =~= clear_bytes(cursor_x));
        }
        r
    }

    pub fn unselect(&mut self)
        ensures
            final(self)@.selection is None,
            final(self)@.provider == old(self)@.provider,
    {
        self.current_selection = None;
    }
}

} // verus!
