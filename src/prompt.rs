//! Colour markup in prompts: `%F{#rrggbb}` becomes the escape sequence
//! that sets that 24-bit foreground colour.
use vstd::prelude::*;

use crate::utils::{chars_of, string_of};

verus! {

pub open spec fn is_hex(c: char) -> bool {
    ('0' <= c <= '9') || ('a' <= c <= 'f') || ('A' <= c <= 'F')
}

pub open spec fn hex_value(c: char) -> nat {
    if '0' <= c <= '9' {
        (c as nat - '0' as nat) as nat
    } else if 'a' <= c <= 'f' {
        (c as nat - 'a' as nat + 10) as nat
    } else {
        (c as nat - 'A' as nat + 10) as nat
    }
}

/// The byte written by two hex digits.
pub open spec fn hex_byte(hi: char, lo: char) -> nat {
    hex_value(hi) * 16 + hex_value(lo)
}

/// A colour tag `%F{#` six hex digits `}` starts at `i`.
pub open spec fn color_tag_at(s: Seq<char>, i: int) -> bool {
    &&& 0 <= i
    &&& i + 11 <= s.len()
    &&& s[i] == '%'
    &&& s[i + 1] == 'F'
    &&& s[i + 2] == '{'
    &&& s[i + 3] == '#'
    &&& forall|j: int| i + 4 <= j < i + 10 ==> is_hex(#[trigger] s[j])
    &&& s[i + 10] == '}'
}

/// The decimal digits of `n`, as characters.
pub open spec fn decimal_chars(n: nat) -> Seq<char>
    decreases n,
{
    if n < 10 {
        seq![(48 + n) as char]
    } else {
        decimal_chars(n / 10).push((48 + n % 10) as char)
    }
}

/// `ESC [ 38;2; <r> ; <g> ; <b> m`: 24-bit foreground colour.
pub open spec fn rgb_prefix(r: nat, g: nat, b: nat) -> Seq<char> {
    seq!['\x1b', '[', '3', '8', ';', '2', ';'] + decimal_chars(r) + seq![';'] + decimal_chars(g)
        + seq![';'] + decimal_chars(b) + seq!['m']
}

/// The sequence for the tag that starts at the front of `s`.
pub open spec fn tag_prefix(s: Seq<char>) -> Seq<char> {
    rgb_prefix(hex_byte(s[4], s[5]), hex_byte(s[6], s[7]), hex_byte(s[8], s[9]))
}

/// `s` with every colour tag, left to right, replaced by its sequence.
pub open spec fn replaced_colors(s: Seq<char>) -> Seq<char>
    decreases s.len(),
{
    if s.len() == 0 {
        seq![]
    } else if color_tag_at(s, 0) {
        tag_prefix(s) + replaced_colors(s.skip(11))
    } else {
        seq![s[0]] + replaced_colors(s.drop_first())
    }
}

fn is_hex_exec(c: char) -> (r: bool)
    ensures
        r == is_hex(c),
{
    ('0' <= c && c <= '9') || ('a' <= c && c <= 'f') || ('A' <= c && c <= 'F')
}

fn hex_value_exec(c: char) -> (r: u32)
    requires
        is_hex(c),
    ensures
        r == hex_value(c),
        r < 16,
{
    if '0' <= c && c <= '9' {
        c as u32 - '0' as u32
    } else if 'a' <= c && c <= 'f' {
        c as u32 - 'a' as u32 + 10
    } else {
        c as u32 - 'A' as u32 + 10
    }
}

/// `ESC [ 0 m`: attributes off.
pub open spec fn reset_chars() -> Seq<char> {
    seq!['\x1b', '[', '0', 'm']
}

/// `text` painted in a 24-bit foreground colour.
/// Relies on `yansi_term::Colour::RGB(r, g, b).paint(text)`, which displays
/// as the prefix `ESC[38;2;<r>;<g>;<b>m`, the text, then the reset `ESC[0m`.
#[verifier::external_body]
fn paint_rgb(r: u8, g: u8, b: u8, text: &str) -> (out: String)
    ensures
        out@ == rgb_prefix(r as nat, g as nat, b as nat) + text@ + reset_chars(),
{
    yansi_term::Colour::RGB(r, g, b).paint(text).to_string()
}

fn tag_at(s: &[char], i: usize) -> (r: bool)
    ensures
        r == color_tag_at(s@, i as int),
{
    if i > s.len() || s.len() - i < 11 {
        return false;
    }
    if !(s[i] == '%' && s[i + 1] == 'F' && s[i + 2] == '{' && s[i + 3] == '#' && s[i + 10] == '}') {
        return false;
    }
    let end = i + 10;
    let mut j = i + 4;
    while j < end
        invariant
            end == i + 10,
            i + 4 <= j <= end <= s@.len(),
            forall|k: int| i + 4 <= k < j ==> is_hex(#[trigger] s@[k]),
        decreases end - j,
    {
        if !is_hex_exec(s[j]) {
            return false;
        }
        j = j + 1;
    }
    true
}

/// Replaces every colour tag `%F{#rrggbb}` of `text` by the escape
/// sequence that sets that foreground colour; the rest is kept.
pub fn replace_colors(text: &str) -> (r: String)
    ensures
        r@ == replaced_colors(text@),
{
    let s = chars_of(text);
    let n = s.len();
    let mut out: Vec<char> = Vec::new();
    let mut i: usize = 0;
    assert(s@.skip(0) =~= s@);
    while i < n
        invariant
            i <= n == s@.len(),
            s@ == text@,
            out@ + replaced_colors(s@.skip(i as int)) == replaced_colors(text@),
        decreases n - i,
    {
        let ghost rest = s@.skip(i as int);
        if tag_at(s.as_slice(), i) {
            proof {
                assert(color_tag_at(rest, 0) == color_tag_at(s@, i as int)) by {
                    assert forall|j: int| 4 <= j < 10 implies rest[j] == s@[i + j] by {}
                }
                assert(rest.skip(11) =~= s@.skip(i + 11));
            }
            let ghost before = out@;
            let r = hex_value_exec(s[i + 4]) * 16 + hex_value_exec(s[i + 5]);
            let g = hex_value_exec(s[i + 6]) * 16 + hex_value_exec(s[i + 7]);
            let b = hex_value_exec(s[i + 8]) * 16 + hex_value_exec(s[i + 9]);
            let empty = String::new();
            let painted = chars_of(paint_rgb(r as u8, g as u8, b as u8, empty.as_str()).as_str());
            let ghost prefix = rgb_prefix(r as nat, g as nat, b as nat);
            proof {
                assert(painted@ =~= prefix + reset_chars());
            }
            let end = painted.len() - 4;
            let mut k: usize = 0;
            while k < end
                invariant
                    k <= end,
                    end + 4 == painted@.len(),
                    painted@ == prefix + reset_chars(),
                    out@ == before + prefix.take(k as int),
                decreases end - k,
            {
                out.push(painted[k]);
                proof {
                    assert(prefix.take(k + 1) =~= prefix.take(k as int).push(prefix[k as int]));
                }
                k = k + 1;
            }
            proof {
                assert(prefix.take(end as int) =~= prefix);
            }
            proof {
                assert(rest[4] == s@[i + 4]);
                assert(rest[5] == s@[i + 5]);
                assert(rest[6] == s@[i + 6]);
                assert(rest[7] == s@[i + 7]);
                assert(rest[8] == s@[i + 8]);
                assert(rest[9] == s@[i + 9]);
                assert(out@ =~= before + tag_prefix(rest));
                assert(before + tag_prefix(rest) + replaced_colors(rest.skip(11)) =~= before
                    + replaced_colors(rest));
            }
            i = i + 11;
        } else {
            proof {
                assert(color_tag_at(rest, 0) == color_tag_at(s@, i as int)) by {
                    if rest.len() >= 11 {
                        assert forall|j: int| 4 <= j < 10 implies rest[j] == s@[i + j] by {}
                    }
                }
                assert(rest.drop_first() =~= s@.skip(i + 1));
                assert(out@.push(s@[i as int]) + replaced_colors(rest.drop_first()) =~= out@
                    + replaced_colors(rest));
            }
            out.push(s[i]);
            i = i + 1;
        }
    }
    proof {
        assert(s@.skip(n as int) =~= Seq::<char>::empty());
        assert(out@ + Seq::<char>::empty() =~= out@);
    }
    string_of(out.as_slice())
}

} // verus!
