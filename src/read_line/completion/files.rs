//! Candidates for completion taken from a directory listing.
use vstd::prelude::*;

use vstd::slice::{slice_subrange, slice_to_vec};

use crate::utils::{after_last, chars_of, last_slash, lemma_last_index_bounds, parent_of, string_of};

verus! {

/// One entry of a directory listing, as the caller read it.
#[derive(Clone, Debug, PartialEq, Eq)]
pub struct DirEntry {
    pub name: String,
    pub is_dir: bool,
}

/// Character-wise lexicographic order, the order of `Ord` on `[char]`.
pub open spec fn lex_le(a: Seq<char>, b: Seq<char>) -> bool
    decreases a.len(),
{
    if a.len() == 0 {
        true
    } else if b.len() == 0 {
        false
    } else if (a[0] as u32) < (b[0] as u32) {
        true
    } else if a[0] != b[0] {
        false
    } else {
        lex_le(a.drop_first(), b.drop_first())
    }
}

pub open spec fn entry_view(e: (Vec<char>, bool)) -> (Seq<char>, bool) {
    (e.0@, e.1)
}

pub open spec fn sorted_by_name(s: Seq<(Seq<char>, bool)>) -> bool {
    forall|i: int, j: int| 0 <= i < j < s.len() ==> lex_le(#[trigger] s[i].0, #[trigger] s[j].0)
}

/// The directory a partial path is completed in: its parent, or `.`.
pub open spec fn dir_of(word: Seq<char>) -> Seq<char> {
    match parent_of(word) {
        Some(p) => p,
        None => seq!['.'],
    }
}

/// The file-name prefix that candidates must start with.
pub open spec fn prefix_of(word: Seq<char>) -> Seq<char> {
    word.skip(last_slash(word) + 1)
}

/// The entries whose names start with `prefix`, in listing order.
pub open spec fn matching(entries: Seq<DirEntry>, prefix: Seq<char>) -> Seq<(Seq<char>, bool)>
    decreases entries.len(),
{
    if entries.len() == 0 {
        seq![]
    } else {
        let rest = matching(entries.drop_last(), prefix);
        let e = entries.last();
        if prefix.is_prefix_of(e.name@) {
            rest.push((e.name@, e.is_dir))
        } else {
            rest
        }
    }
}

pub open spec fn has_blank(s: Seq<char>) -> bool {
    exists|i: int| 0 <= i < s.len() && (s[i] == ' ' || s[i] == '\t')
}

/// How a candidate is shown and inserted: directories get a trailing `/`,
/// names with a space or tab are put in double quotes.
pub open spec fn formatted(name: Seq<char>, is_dir: bool) -> Seq<char> {
    let f = if is_dir {
        name.push('/')
    } else {
        name
    };
    if has_blank(f) {
        seq!['"'] + f + seq!['"']
    } else {
        f
    }
}

/// A candidate joined to the directory it was found in, as a path.
pub open spec fn joined(dir: Seq<char>, item: Seq<char>) -> Seq<char> {
    if dir == seq!['.'] {
        item
    } else if dir.len() > 0 && dir.last() == '/' {
        dir + item
    } else {
        dir + seq!['/'] + item
    }
}

/// Sorts entries by name.
/// Relies on `slice::sort` on `(Vec<char>, bool)` pairs: the result is a
/// permutation, ordered as tuples, hence by name first.
#[verifier::external_body]
fn sort_entries(v: &mut Vec<(Vec<char>, bool)>)
    ensures
        final(v)@.map_values(|e: (Vec<char>, bool)| entry_view(e)).to_multiset() == old(
            v,
        )@.map_values(|e: (Vec<char>, bool)| entry_view(e)).to_multiset(),
        sorted_by_name(final(v)@.map_values(|e: (Vec<char>, bool)| entry_view(e))),
{
    v.sort()
}

/// Directory listings turned into completion candidates.
#[derive(Debug, Clone)]
pub struct FileProvider {
    cwd: Vec<char>,
    entries: Vec<(Vec<char>, bool)>,
    items: Vec<Vec<char>>,
}

pub struct ProviderModel {
    pub cwd: Seq<char>,
    pub entries: Seq<(Seq<char>, bool)>,
    pub items: Seq<Seq<char>>,
}

impl View for FileProvider {
    type V = ProviderModel;

    closed spec fn view(&self) -> ProviderModel {
        ProviderModel {
            cwd: self.cwd@,
            entries: self.entries@.map_values(|e: (Vec<char>, bool)| entry_view(e)),
            items: crate::widget::views(self.items@),
        }
    }
}

fn is_prefix(p: &[char], s: &[char]) -> (r: bool)
    ensures
        r == p@.is_prefix_of(s@),
{
    if p.len() > s.len() {
        return false;
    }
    let mut i: usize = 0;
    while i < p.len()
        invariant
            i <= p@.len() <= s@.len(),
            forall|j: int| 0 <= j < i ==> p@[j] == s@[j],
        decreases p.len() - i,
    {
        if p[i] != s[i] {
            assert(s@.take(p@.len() as int)[i as int] == s@[i as int]);
            return false;
        }
        i = i + 1;
    }
    assert(p@ =~= s@.take(p@.len() as int));
    true
}

fn has_blank_exec(s: &[char]) -> (r: bool)
    ensures
        r == has_blank(s@),
{
    let mut i: usize = 0;
    while i < s.len()
        invariant
            i <= s@.len(),
            forall|j: int| 0 <= j < i ==> s@[j] != ' ' && s@[j] != '\t',
        decreases s.len() - i,
    {
        if s[i] == ' ' || s[i] == '\t' {
            return true;
        }
        i = i + 1;
    }
    false
}

/// The text under which an entry is offered.
pub fn format_filename(name: &[char], is_dir: bool) -> (r: Vec<char>)
    ensures
        r@ == formatted(name@, is_dir),
{
    let mut f: Vec<char> = slice_to_vec(name);
    if is_dir {
        f.push('/');
    }
    if has_blank_exec(f.as_slice()) {
        let mut q: Vec<char> = Vec::new();
        q.push('"');
        let mut i: usize = 0;
        while i < f.len()
            invariant
                i <= f@.len(),
                q@ == seq!['"'] + f@.take(i as int),
            decreases f.len() - i,
        {
            q.push(f[i]);
            proof {
                assert(f@.take(i + 1) =~= f@.take(i as int).push(f@[i as int]));
            }
            i = i + 1;
        }
        q.push('"');
        proof {
            assert(f@.take(f@.len() as int) =~= f@);
        }
        q
    } else {
        f
    }
}

/// The directory of a partial path: its parent, or `.` when it has none.
fn dir_of_exec(word: &[char]) -> (r: Vec<char>)
    ensures
        r@ == dir_of(word@),
{
    match crate::utils::parent_chars(word) {
        Some(p) => p,
        None => vec!['.'],
    }
}

impl FileProvider {
    pub fn new() -> (r: FileProvider)
        ensures
            r@.cwd == seq!['.'],
            r@.entries.len() == 0,
            r@.items.len() == 0,
    {
        let r = FileProvider { cwd: vec!['.'], entries: Vec::new(), items: Vec::new() };
        proof {
            assert(r@.cwd =~= seq!['.']);
        }
        r
    }

    /// The directory to list for `current_word`.
    pub fn listing_dir(current_word: &str) -> (r: String)
        ensures
            r@ == dir_of(current_word@),
    {
        let w = chars_of(current_word);
        let d = dir_of_exec(w.as_slice());
        string_of(d.as_slice())
    }

    /// Takes the listing of `listing_dir(current_word)`: keeps the entries
    /// whose names start with the word's file-name part, sorts them by name
    /// and formats them.
    pub fn provide(&mut self, current_word: &str, listing: Vec<DirEntry>)
        ensures
            final(self)@.cwd == dir_of(current_word@),
            final(self)@.entries.to_multiset() == matching(
                listing@,
                prefix_of(current_word@),
            ).to_multiset(),
            sorted_by_name(final(self)@.entries),
            final(self)@.items.len() == final(self)@.entries.len(),
            forall|i: int|
                0 <= i < final(self)@.items.len() ==> #[trigger] final(self)@.items[i] == formatted(
                    final(self)@.entries[i].0,
                    final(self)@.entries[i].1,
                ),
    {
        let w = chars_of(current_word);
        proof {
            lemma_last_index_bounds(w@, '/');
        }
        let start = after_last(w.as_slice(), '/');
        let prefix: Vec<char> = slice_to_vec(slice_subrange(w.as_slice(), start, w.len()));
        let mut kept: Vec<(Vec<char>, bool)> = Vec::new();
        let mut i: usize = 0;
        while i < listing.len()
            invariant
                i <= listing@.len(),
                prefix@ == prefix_of(current_word@),
                kept@.map_values(|e: (Vec<char>, bool)| entry_view(e)) == matching(
                    listing@.take(i as int),
                    prefix@,
                ),
            decreases listing.len() - i,
        {
            let name = chars_of(listing[i].name.as_str());
            proof {
                assert(listing@.take(i + 1).drop_last() =~= listing@.take(i as int));
            }
            if is_prefix(prefix.as_slice(), name.as_slice()) {
                let ghost before = kept@;
                kept.push((name, listing[i].is_dir));
                proof {
                    assert(kept@.map_values(|e: (Vec<char>, bool)| entry_view(e)) =~= before.map_values(
                        |e: (Vec<char>, bool)| entry_view(e),
                    ).push((listing@[i as int].name@, listing@[i as int].is_dir)));
                }
            }
            i = i + 1;
        }
        proof {
            assert(listing@.take(listing@.len() as int) =~= listing@);
        }
        sort_entries(&mut kept);
        let mut items: Vec<Vec<char>> = Vec::new();
        let mut k: usize = 0;
        while k < kept.len()
            invariant
                k <= kept@.len(),
                items@.len() == k,
                forall|j: int|
                    0 <= j < k ==> #[trigger] items@[j]@ == formatted(kept@[j].0@, kept@[j].1),
            decreases kept.len() - k,
        {
            let f = format_filename(kept[k].0.as_slice(), kept[k].1);
            items.push(f);
            k = k + 1;
        }
        self.cwd = dir_of_exec(w.as_slice());
        self.entries = kept;
        self.items = items;
    }

    pub fn items(&self) -> (r: &[Vec<char>])
        ensures
            crate::widget::views(r@) == self@.items,
    {
        self.items.as_slice()
    }

    /// The text that accepting `item` inserts: the item itself when listing
    /// the current directory, else the item joined to the listed directory.
    pub fn accept(&self, item: &[char]) -> (r: Vec<char>)
        ensures
            r@ == joined(self@.cwd, item@),
    {
        let n = self.cwd.len();
        if n == 1 && self.cwd[0] == '.' {
            proof {
                assert(self@.cwd =~= seq!['.']);
            }
            return slice_to_vec(item);
        }
        proof {
            assert(self@.cwd != seq!['.']);
        }
        let mut r = slice_to_vec(self.cwd.as_slice());
        if !(n > 0 && self.cwd[n - 1] == '/') {
            r.push('/');
        }
        let mut tail = slice_to_vec(item);
        r.append(&mut tail);
        r
    }
}

} // verus!
