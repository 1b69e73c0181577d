//! Character, UTF-8 and path helpers shared by the engine.
use vstd::prelude::*;
use vstd::slice::{slice_subrange, slice_to_vec};
use vstd::utf8::{encode_scalar, encode_utf8};

verus! {

broadcast use vstd::utf8::char_is_scalar;

/// The position of the last `c` in `s`, or -1 when there is none.
pub open spec fn last_index(s: Seq<char>, c: char) -> int
    decreases s.len(),
{
    if s.len() == 0 {
        -1
    } else if s.last() == c {
        s.len() - 1
    } else {
        last_index(s.drop_last(), c)
    }
}

/// The position of the last `/` in `s`, or -1 when there is none.
pub open spec fn last_slash(s: Seq<char>) -> int {
    last_index(s, '/')
}

/// The text of an optional string.
pub open spec fn opt_view(o: Option<String>) -> Option<Seq<char>> {
    match o {
        Some(s) => Some(s@),
        None => None,
    }
}

/// The directory part of a possibly partial path: the whole text when it
/// ends with a separator, else the text before the last separator (`/` when
/// that is the root), and none when there is no separator.
pub open spec fn parent_of(s: Seq<char>) -> Option<Seq<char>> {
    if s.len() > 0 && s.last() == '/' {
        Some(s)
    } else if last_slash(s) < 0 {
        None
    } else if last_slash(s) == 0 {
        Some(seq!['/'])
    } else {
        Some(s.take(last_slash(s)))
    }
}

/// The file-name part of a possibly partial path: what follows the last
/// separator, empty when the text ends with one, none for the empty path.
pub open spec fn filename_of(s: Seq<char>) -> Option<Seq<char>> {
    if s.len() == 0 {
        None
    } else {
        Some(s.skip(last_slash(s) + 1))
    }
}

pub proof fn lemma_last_index_bounds(s: Seq<char>, c: char)
    ensures
        -1 <= last_index(s, c) < s.len(),
        last_index(s, c) >= 0 ==> s[last_index(s, c)] == c,
        forall|j: int| last_index(s, c) < j < s.len() ==> s[j] != c,
    decreases s.len(),
{
    if s.len() > 0 && s.last() != c {
        lemma_last_index_bounds(s.drop_last(), c);
        assert forall|j: int| last_index(s, c) < j < s.len() implies s[j] != c by {
            if j < s.len() - 1 {
                assert(s[j] == s.drop_last()[j]);
            }
        }
    }
}

pub proof fn lemma_encode_utf8_concat(a: Seq<char>, b: Seq<char>)
    ensures
        encode_utf8(a + b) == encode_utf8(a) + encode_utf8(b),
    decreases a.len(),
{
    if a.len() == 0 {
        assert(a + b =~= b);
        assert(encode_utf8(a) =~= seq![]);
        assert(encode_utf8(a) + encode_utf8(b) =~= encode_utf8(b));
    } else {
        lemma_encode_utf8_concat(a.drop_first(), b);
        assert((a + b).drop_first() =~= a.drop_first() + b);
        assert(encode_utf8(a + b) == encode_scalar((a + b)[0] as u32) + encode_utf8(
            (a + b).drop_first(),
        ));
        assert(encode_utf8(a + b) =~= encode_utf8(a) + encode_utf8(b));
    }
}

pub proof fn lemma_encode_utf8_push(a: Seq<char>, c: char)
    ensures
        encode_utf8(a.push(c)) == encode_utf8(a) + encode_scalar(c as u32),
{
    lemma_encode_utf8_concat(a, seq![c]);
    assert(a.push(c) =~= a + seq![c]);
    assert(seq![c].drop_first() =~= Seq::<char>::empty());
    assert(encode_utf8(Seq::<char>::empty()) =~= Seq::<u8>::empty());
    assert(encode_utf8(seq![c]) =~= encode_scalar(c as u32));
}

/// The characters of `s`, in order.
/// Relies on `str::chars`, which yields the Unicode scalar values of the text.
#[verifier::external_body]
pub(crate) fn chars_of(s: &str) -> (r: Vec<char>)
    ensures
        r@ == s@,
{
    s.chars().collect()
}

/// The text made of `cs`.
/// Relies on `String::from_iter` over `char`s, which appends them in order.
#[verifier::external_body]
pub(crate) fn string_of(cs: &[char]) -> (r: String)
    ensures
        r@ == cs@,
{
    cs.iter().collect()
}

/// Appends the UTF-8 encoding of `c`.
/// Relies on `bstr::ByteVec::push_char`, which extends the vector with the
/// bytes of `char::encode_utf8`.
#[verifier::external_body]
pub(crate) fn push_char(buf: &mut Vec<u8>, c: char)
    ensures
        final(buf)@ == old(buf)@ + encode_scalar(c as u32),
{
    bstr::ByteVec::push_char(buf, c)
}

/// Appends the UTF-8 encoding of `cs[start..end]`.
pub fn push_utf8(buf: &mut Vec<u8>, cs: &[char], start: usize, end: usize)
    requires
        start <= end <= cs@.len(),
    ensures
        final(buf)@ == old(buf)@ + encode_utf8(cs@.subrange(start as int, end as int)),
{
    let mut i = start;
    assert(cs@.subrange(start as int, start as int) =~= Seq::<char>::empty());
    assert(old(buf)@ =~= old(buf)@ + encode_utf8(Seq::<char>::empty()));
    while i < end
        invariant
            start <= i <= end <= cs@.len(),
            buf@ == old(buf)@ + encode_utf8(cs@.subrange(start as int, i as int)),
        decreases end - i,
    {
        push_char(buf, cs[i]);
        proof {
            lemma_encode_utf8_push(cs@.subrange(start as int, i as int), cs@[i as int]);
            assert(cs@.subrange(start as int, i + 1) =~= cs@.subrange(start as int, i as int).push(
                cs@[i as int],
            ));
        }
        i = i + 1;
    }
}

/// The number of UTF-8 bytes of `c`.
pub fn utf8_width(c: char) -> (r: usize)
    ensures
        r == encode_scalar(c as u32).len(),
{
    let v = c as u32;
    if v < 0x80 {
        1
    } else if v < 0x800 {
        2
    } else if v < 0x10000 {
        3
    } else {
        4
    }
}

/// Relies on `std::hash::BuildHasher::hash_one` with the unseeded
/// `DefaultHasher`: the fingerprint depends on the text alone.
#[verifier::external_body]
pub fn hash(value: &str) -> (r: u64)
    ensures
        r == fingerprint(value@),
{
    std::hash::BuildHasher::hash_one(
        &std::hash::BuildHasherDefault::<std::collections::hash_map::DefaultHasher>::default(),
        value,
    )
}

/// The fingerprint `hash` gives a text.
pub uninterp spec fn fingerprint(s: Seq<char>) -> u64;

/// The number of characters (Unicode scalar values) of `s`.
pub fn char_count(s: &str) -> (r: usize)
    ensures
        r == s@.len(),
{
    chars_of(s).len()
}

/// The byte offset at which character `index` of `s` starts.
pub fn char_at(s: &str, index: usize) -> (r: Option<usize>)
    ensures
        index < s@.len() ==> r == Some(encode_utf8(s@.take(index as int)).len() as usize),
        index >= s@.len() ==> r is None,
{
    let cs = chars_of(s);
    if index >= cs.len() {
        return None;
    }
    let total = s.as_bytes().len();
    let mut offset: usize = 0;
    let mut i: usize = 0;
    assert(s@.take(0) =~= Seq::<char>::empty());
    while i < index
        invariant
            i <= index < cs@.len(),
            cs@ == s@,
            offset == encode_utf8(s@.take(i as int)).len(),
            encode_utf8(s@).len() == total,
        decreases index - i,
    {
        proof {
            lemma_encode_utf8_push(s@.take(i as int), s@[i as int]);
            assert(s@.take(i + 1) =~= s@.take(i as int).push(s@[i as int]));
            lemma_encode_utf8_concat(s@.take(i + 1), s@.skip(i + 1));
            assert(s@.take(i + 1) + s@.skip(i + 1) =~= s@);
        }
        offset = offset + utf8_width(cs[i]);
        i = i + 1;
    }
    Some(offset)
}

/// One past the last `c` of `s`, or 0 when there is none.
pub fn after_last(s: &[char], c: char) -> (r: usize)
    ensures
        r == last_index(s@, c) + 1,
{
    let mut i = s.len();
    assert(s@.take(i as int) =~= s@);
    while i > 0
        invariant
            i <= s@.len(),
            last_index(s@, c) == last_index(s@.take(i as int), c),
        decreases i,
    {
        assert(s@.take(i as int).drop_last() =~= s@.take(i - 1));
        if s[i - 1] == c {
            return i;
        }
        i = i - 1;
    }
    0
}

/// The directory part of the path `s`, as `parent_of` gives it.
pub fn parent_chars(s: &[char]) -> (r: Option<Vec<char>>)
    ensures
        r matches Some(p) ==> parent_of(s@) == Some(p@),
        r is None <==> parent_of(s@) is None,
{
    let n = s.len();
    if n > 0 && s[n - 1] == '/' {
        return Some(slice_to_vec(s));
    }
    proof {
        lemma_last_index_bounds(s@, '/');
    }
    let k = after_last(s, '/');
    if k == 0 {
        None
    } else if k == 1 {
        Some(vec!['/'])
    } else {
        let p = slice_to_vec(slice_subrange(s, 0, k - 1));
        proof {
            assert(p@ =~= s@.take(k - 1));
        }
        Some(p)
    }
}

/// The directory part of a path: the whole path when it ends with `/`,
/// else what precedes the last `/`, and none without a `/`.
pub fn path_parent(path: &str) -> (r: Option<String>)
    ensures
        r matches Some(p) ==> parent_of(path@) == Some(p@),
        r is None <==> parent_of(path@) is None,
{
    let cs = chars_of(path);
    match parent_chars(cs.as_slice()) {
        Some(p) => Some(string_of(p.as_slice())),
        None => None,
    }
}

/// The file-name part of a path: what follows the last `/`.
pub fn path_filename(path: &str) -> (r: Option<String>)
    ensures
        r matches Some(f) ==> filename_of(path@) == Some(f@),
        r is None <==> filename_of(path@) is None,
{
    let cs = chars_of(path);
    if cs.len() == 0 {
        return None;
    }
    proof {
        lemma_last_index_bounds(cs@, '/');
    }
    let k = after_last(cs.as_slice(), '/');
    let f = slice_subrange(cs.as_slice(), k, cs.len());
    proof {
        assert(f@ =~= cs@.skip(k as int));
    }
    Some(string_of(f))
}

/// `parts` joined with `sep` between each two of them.
pub open spec fn join_parts(parts: Seq<Seq<u8>>, sep: Seq<u8>) -> Seq<u8>
    decreases parts.len(),
{
    if parts.len() == 0 {
        seq![]
    } else if parts.len() == 1 {
        parts[0]
    } else {
        join_parts(parts.drop_last(), sep) + sep + parts.last()
    }
}

pub open spec fn byte_views(v: Seq<Vec<u8>>) -> Seq<Seq<u8>> {
    v.map_values(|b: Vec<u8>| b@)
}

/// Byte strings gathered to be joined later.
#[derive(Debug, Clone)]
pub struct BytesBuf {
    buf: Vec<Vec<u8>>,
}

impl View for BytesBuf {
    type V = Seq<Seq<u8>>;

    closed spec fn view(&self) -> Seq<Seq<u8>> {
        byte_views(self.buf@)
    }
}

impl BytesBuf {
    pub fn new() -> (r: BytesBuf)
        ensures
            r@.len() == 0,
    {
        let r = BytesBuf { buf: Vec::new() };
        assert(r@ =~= Seq::<Seq<u8>>::empty());
        r
    }

    /// A buffer holding `elements`, in order.
    pub fn of(elements: Vec<Vec<u8>>) -> (r: BytesBuf)
        ensures
            r@ == byte_views(elements@),
    {
        BytesBuf { buf: elements }
    }

    /// Appends a copy of `item`.
    pub fn push_slice(&mut self, item: &[u8])
        ensures
            final(self)@ == old(self)@.push(item@),
    {
        self.push(slice_to_vec(item));
    }

    pub fn push(&mut self, item: Vec<u8>)
        ensures
            final(self)@ == old(self)@.push(item@),
    {
        self.buf.push(item);
        assert(self@ =~= old(self)@.push(item@));
    }

    /// Puts `item` at position `index`, shifting what follows.
    pub fn insert(&mut self, index: usize, item: Vec<u8>)
        requires
            index <= old(self)@.len(),
        ensures
            final(self)@ == old(self)@.insert(index as int, item@),
    {
        self.buf.insert(index, item);
        assert(self@ =~= old(self)@.insert(index as int, item@));
    }

    /// Appends `items`, in order.
    pub fn extend(&mut self, items: Vec<Vec<u8>>)
        ensures
            final(self)@ == old(self)@ + byte_views(items@),
    {
        let mut i: usize = 0;
        while i < items.len()
            invariant
                i <= items@.len(),
                self@ == old(self)@ + byte_views(items@).take(i as int),
            decreases items.len() - i,
        {
            self.push_slice(items[i].as_slice());
            assert(byte_views(items@).take(i + 1) =~= byte_views(items@).take(i as int).push(
                items@[i as int]@,
            ));
            assert(self@ =~= old(self)@ + byte_views(items@).take(i + 1));
            i = i + 1;
        }
        assert(byte_views(items@).take(items@.len() as int) =~= byte_views(items@));
    }

    /// The parts joined with `sep` between each two.
    pub fn join(&self, sep: &[u8]) -> (r: Vec<u8>)
        ensures
            r@ == join_parts(self@, sep@),
    {
        let mut out: Vec<u8> = Vec::new();
        let mut i: usize = 0;
        assert(self@.take(0) =~= Seq::<Seq<u8>>::empty());
        while i < self.buf.len()
            invariant
                i <= self@.len(),
                self@.len() == self.buf@.len(),
                out@ == join_parts(self@.take(i as int), sep@),
            decreases self.buf.len() - i,
        {
            if i > 0 {
                let mut s = slice_to_vec(sep);
                out.append(&mut s);
            }
            let mut part = slice_to_vec(self.buf[i].as_slice());
            out.append(&mut part);
            proof {
                let t = self@.take(i + 1);
                assert(t.drop_last() =~= self@.take(i as int));
                assert(t.last() == self.buf@[i as int]@);
                if i == 0 {
                    assert(out@ =~= join_parts(t, sep@));
                } else {
                    assert(out@ =~= join_parts(t, sep@));
                }
            }
            i = i + 1;
        }
        assert(self@.take(self@.len() as int) =~= self@);
        out
    }
}

} // verus!
