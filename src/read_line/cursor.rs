//! Encoders for the ANSI escape sequences the engine writes, and the parser
//! for the terminal's cursor-position report.
use vstd::prelude::*;

use crate::Vec2;

verus! {

pub const ESC: u8 = 0x1b;

pub const CSI_OPEN: u8 = 0x5b;

/// The ASCII decimal digits of `n`, most significant first, without padding.
pub open spec fn decimal(n: nat) -> Seq<u8>
    decreases n,
{
    if n < 10 {
        seq![(48 + n) as u8]
    } else {
        decimal(n / 10).push((48 + n % 10) as u8)
    }
}

/// `ESC [ <n> <letter>`, or nothing when `n` is zero.
pub open spec fn csi_move(n: nat, letter: u8) -> Seq<u8> {
    if n == 0 {
        seq![]
    } else {
        seq![ESC, CSI_OPEN] + decimal(n) + seq![letter]
    }
}

pub open spec fn left_seq(n: nat) -> Seq<u8> {
    csi_move(n, 0x44)
}

pub open spec fn right_seq(n: nat) -> Seq<u8> {
    csi_move(n, 0x43)
}

pub open spec fn down_seq(n: nat) -> Seq<u8> {
    csi_move(n, 0x42)
}

pub open spec fn up_seq(n: nat) -> Seq<u8> {
    csi_move(n, 0x41)
}

/// `ESC [ K`: erase from the cursor to the end of the line.
pub open spec fn kill_line_seq() -> Seq<u8> {
    seq![ESC, CSI_OPEN, 0x4bu8]
}

/// `ESC [ J`: erase from the cursor to the end of the screen.
pub open spec fn kill_to_end_seq() -> Seq<u8> {
    seq![ESC, CSI_OPEN, 0x4au8]
}

/// Appends the decimal digits of `n` to `buf`.
pub fn push_decimal(buf: &mut Vec<u8>, n: u32)
    ensures
        final(buf)@ == old(buf)@ + decimal(n as nat),
    decreases n,
{
    if n >= 10 {
        push_decimal(buf, n / 10);
    }
    buf.push((48 + n % 10) as u8);
    proof {
        if n >= 10 {
            assert(decimal(n as nat) == decimal((n / 10) as nat).push((48 + n % 10) as u8));
        }
    }
}

fn csi(n: u32, letter: u8) -> (r: Vec<u8>)
    ensures
        r@ == csi_move(n as nat, letter),
{
    let mut buf: Vec<u8> = Vec::new();
    if n != 0 {
        buf.push(ESC);
        buf.push(CSI_OPEN);
        push_decimal(&mut buf, n);
        buf.push(letter);
        assert(buf@ =~= seq![ESC, CSI_OPEN] + decimal(n as nat) + seq![letter]);
    }
    assert(n == 0 ==> buf@ =~= csi_move(n as nat, letter));
    buf
}

/// Moves the cursor `times` columns to the left.
pub fn move_left(times: u32) -> (r: Vec<u8>)
    ensures
        r@ == left_seq(times as nat),
{
    csi(times, 0x44)
}

/// Moves the cursor `times` columns to the right.
pub fn move_right(times: u32) -> (r: Vec<u8>)
    ensures
        r@ == right_seq(times as nat),
{
    csi(times, 0x43)
}

/// Moves the cursor `times` rows down.
pub fn move_down(times: u32) -> (r: Vec<u8>)
    ensures
        r@ == down_seq(times as nat),
{
    csi(times, 0x42)
}

/// Moves the cursor `times` rows up.
pub fn move_up(times: u32) -> (r: Vec<u8>)
    ensures
        r@ == up_seq(times as nat),
{
    csi(times, 0x41)
}

/// `ESC [ <y> ; <x> H`: puts the cursor at column `x` of row `y`.
pub open spec fn position_seq(x: nat, y: nat) -> Seq<u8> {
    seq![ESC, CSI_OPEN] + decimal(y) + seq![0x3bu8] + decimal(x) + seq![0x48u8]
}

pub fn set_position(x: u8, y: u8) -> (r: Vec<u8>)
    ensures
        r@ == position_seq(x as nat, y as nat),
{
    let mut buf: Vec<u8> = Vec::new();
    buf.push(ESC);
    buf.push(CSI_OPEN);
    push_decimal(&mut buf, y as u32);
    buf.push(0x3b);
    push_decimal(&mut buf, x as u32);
    buf.push(0x48);
    assert(buf@ =~= position_seq(x as nat, y as nat));
    buf
}

pub fn kill_line() -> (r: Vec<u8>)
    ensures
        r@ == kill_line_seq(),
{
    let r = vec![ESC, CSI_OPEN, 0x4b];
    assert(r@ =~= kill_line_seq());
    r
}

pub fn kill_to_term_end() -> (r: Vec<u8>)
    ensures
        r@ == kill_to_end_seq(),
{
    let r = vec![ESC, CSI_OPEN, 0x4a];
    assert(r@ =~= kill_to_end_seq());
    r
}

/// The terminal bell, `0x07`.
pub fn bell() -> (r: Vec<u8>)
    ensures
        r@ == seq![0x07u8],
{
    let r = vec![0x07];
    assert(r@ =~= seq![0x07u8]);
    r
}

/// Bytes that are all ASCII digits, at least one.
pub open spec fn is_digits(s: Seq<u8>) -> bool {
    s.len() > 0 && forall|i: int| 0 <= i < s.len() ==> 0x30 <= #[trigger] s[i] <= 0x39
}

/// The number that a string of ASCII digits writes in decimal.
pub open spec fn digits_value(s: Seq<u8>) -> nat
    decreases s.len(),
{
    if s.len() == 0 {
        0
    } else {
        digits_value(s.drop_last()) * 10 + (s.last() - 0x30) as nat
    }
}

/// The cursor-position report `ESC [ <row> ; <col> R`.
pub open spec fn report_seq(row: Seq<u8>, col: Seq<u8>) -> Seq<u8> {
    seq![ESC, CSI_OPEN] + row + seq![0x3bu8] + col + seq![0x52u8]
}

/// `b` is a report of row `row` and column `col`, both fitting a `u32`.
pub open spec fn is_report(b: Seq<u8>, row: Seq<u8>, col: Seq<u8>) -> bool {
    &&& is_digits(row)
    &&& is_digits(col)
    &&& digits_value(row) <= u32::MAX
    &&& digits_value(col) <= u32::MAX
    &&& b == report_seq(row, col)
}

proof fn lemma_digits_value_grows(s: Seq<u8>, i: int)
    requires
        0 <= i <= s.len(),
        forall|j: int| 0 <= j < s.len() ==> 0x30 <= #[trigger] s[j] <= 0x39,
    ensures
        digits_value(s.take(i)) <= digits_value(s),
    decreases s.len() - i,
{
    if i < s.len() {
        lemma_digits_value_grows(s, i + 1);
        assert(s.take(i + 1).drop_last() =~= s.take(i));
    } else {
        assert(s.take(i) =~= s);
    }
}

/// Reads the digits `b[start..end]` as a `u32`; none when one of them is
/// not a digit, when there are none, or when the number does not fit.
fn parse_digits(b: &[u8], start: usize, end: usize) -> (r: Option<u32>)
    requires
        start <= end <= b@.len(),
    ensures
        ({
            let s = b@.subrange(start as int, end as int);
            &&& r matches Some(v) ==> is_digits(s) && digits_value(s) <= u32::MAX && v
                == digits_value(s)
            &&& r is None ==> !(is_digits(s) && digits_value(s) <= u32::MAX)
        }),
{
    let ghost s = b@.subrange(start as int, end as int);
    if start == end {
        return None;
    }
    let mut acc: u64 = 0;
    let mut i = start;
    assert(s.take(0) =~= Seq::<u8>::empty());
    while i < end
        invariant
            start <= i <= end <= b@.len(),
            s == b@.subrange(start as int, end as int),
            forall|j: int| 0 <= j < i - start ==> 0x30 <= #[trigger] s[j] <= 0x39,
            acc == digits_value(s.take(i - start)),
            acc <= u32::MAX,
        decreases end - i,
    {
        let d = b[i];
        if d < 0x30 || d > 0x39 {
            proof {
                assert(s[i - start] == d);
            }
            return None;
        }
        let next = acc * 10 + (d - 0x30) as u64;
        proof {
            assert(s.take(i + 1 - start).drop_last() =~= s.take(i - start));
            assert(s[i - start] == d);
        }
        if next > 0xffff_ffff {
            proof {
                if is_digits(s) {
                    lemma_digits_value_grows(s, i + 1 - start);
                }
            }
            return None;
        }
        acc = next;
        i = i + 1;
    }
    proof {
        assert(s.take(end - start) =~= s);
    }
    Some(acc as u32)
}

/// Reads the terminal's reply to a cursor-position query. Gives the column
/// as `x` and the row as `y`, or none when the reply is malformed.
pub fn parse_cursor_report(report: &[u8]) -> (r: Option<Vec2>)
    ensures
        r matches Some(v) ==> exists|row: Seq<u8>, col: Seq<u8>|
            is_report(report@, row, col) && v.x == digits_value(col) && v.y == digits_value(row),
        r is None ==> forall|row: Seq<u8>, col: Seq<u8>| !is_report(report@, row, col),
{
    let n = report.len();
    if n < 6 || report[0] != ESC || report[1] != CSI_OPEN || report[n - 1] != 0x52 {
        proof {
            assert forall|row: Seq<u8>, col: Seq<u8>| !is_report(report@, row, col) by {
                if is_report(report@, row, col) {
                    assert(report@[0] == ESC);
                    assert(report@[1] == CSI_OPEN);
                    assert(report@[n - 1] == 0x52);
                }
            }
        }
        return None;
    }
    let mut k: usize = 2;
    while k < n - 1 && report[k] != 0x3b
        invariant
            2 <= k <= n - 1,
            n == report@.len(),
            forall|j: int| 2 <= j < k ==> report@[j] != 0x3b,
        decreases n - k,
    {
        k = k + 1;
    }
    let row = parse_digits(report, 2, k);
    let col = if k < n - 1 {
        parse_digits(report, k + 1, n - 1)
    } else {
        None
    };
    proof {
        assert forall|rs: Seq<u8>, cs: Seq<u8>| #[trigger] is_report(report@, rs, cs) implies rs
            == report@.subrange(2, k as int) && k < n - 1 && cs == report@.subrange(
            k + 1,
            n - 1,
        ) by {
            let e = (rs.len() + 2) as int;
            assert(report@[e] == 0x3b);
            assert forall|j: int| 2 <= j < e implies report@[j] != 0x3b by {
                assert(report@[j] == rs[j - 2]);
            }
            if k < e {
                assert(report@[k as int] == rs[k - 2]);
            }
            assert(k == e);
            assert(rs =~= report@.subrange(2, k as int));
            assert(cs =~= report@.subrange(k + 1, n - 1));
        }
    }
    match (row, col) {
        (Some(y), Some(x)) => {
            proof {
                let rs = report@.subrange(2, k as int);
                let cs = report@.subrange(k + 1, n - 1);
                assert(report@ =~= report_seq(rs, cs));
                assert(is_report(report@, rs, cs));
            }
            Some(Vec2 { x, y })
        },
        _ => None,
    }
}

} // verus!
