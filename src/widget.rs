//! Rendering of completion candidates as a grid of columns below the line.
use vstd::prelude::*;
use vstd::utf8::encode_utf8;

use crate::read_line::cursor::{self, kill_to_end_seq, left_seq, right_seq, up_seq};
use crate::utils::push_utf8;
use crate::Vec2;

verus! {

pub type Pos = Vec2;

pub type Size = Vec2;

/// Items per column.
pub const ROWS: usize = 4;

/// At most this many items are shown: a selection index is a `u8`.
pub const MAX_SHOWN: usize = 255;

/// `ESC [ 7 m`, reverse video on.
pub open spec fn reverse_seq() -> Seq<u8> {
    seq![0x1bu8, 0x5bu8, 0x37u8, 0x6du8]
}

/// `ESC [ 0 m`, attributes off.
pub open spec fn reset_seq() -> Seq<u8> {
    seq![0x1bu8, 0x5bu8, 0x30u8, 0x6du8]
}

pub open spec fn min_nat(a: nat, b: nat) -> nat {
    if a <= b {
        a
    } else {
        b
    }
}

/// One cell: the item cut to `width` characters, highlighted when selected,
/// then back to the column's start and down a row.
pub open spec fn cell(item: Seq<char>, width: nat, selected: bool) -> Seq<u8> {
    let t = item.take(min_nat(item.len(), width) as int);
    let shown = if selected {
        reverse_seq() + encode_utf8(t) + reset_seq()
    } else {
        encode_utf8(t)
    };
    shown + left_seq(t.len()) + seq![0x0au8]
}

/// The cells of items `start .. start + count`.
pub open spec fn cells(
    items: Seq<Seq<char>>,
    start: nat,
    count: nat,
    width: nat,
    selected: nat,
) -> Seq<u8>
    decreases count,
{
    if count == 0 {
        seq![]
    } else {
        let k = start + count - 1;
        cells(items, start, (count - 1) as nat, width, selected) + cell(items[k as int], width, k == selected)
    }
}

/// The width of the column made of items `start .. start + count`.
pub open spec fn column_width(items: Seq<Seq<char>>, start: nat, count: nat, width: nat) -> nat
    decreases count,
{
    if count == 0 {
        0
    } else {
        let prev = column_width(items, start, (count - 1) as nat, width);
        let w = min_nat(items[start + count - 1].len(), width);
        if prev >= w {
            prev
        } else {
            w
        }
    }
}

/// How many items the column starting at `start` holds.
pub open spec fn column_len(n: nat, start: nat) -> nat {
    min_nat(min_nat(ROWS as nat, (n - start) as nat), (MAX_SHOWN - start) as nat)
}

/// The columns from item `start` on, with `remaining` columns of the
/// terminal left: each column is followed by a move back up and right past
/// it and the gap. Also gives the number of items shown in all.
pub open spec fn columns(
    items: Seq<Seq<char>>,
    start: nat,
    remaining: nat,
    selected: nat,
    gap: nat,
) -> (Seq<u8>, nat)
    decreases items.len() - start,
{
    if start >= items.len() || remaining == 0 || start >= MAX_SHOWN {
        (seq![], start)
    } else {
        let count = column_len(items.len(), start);
        let w = column_width(items, start, count, remaining);
        let rest = columns(items, start + count, (remaining - w) as nat, selected, gap);
        (cells(items, start, count, remaining, selected) + up_seq(count) + right_seq(w + gap)
            + rest.0, rest.1)
    }
}

/// The whole grid: erase below, start on the next line, draw the columns,
/// then go back to column `pos.x` of the line.
pub open spec fn grid_bytes(
    pos: Vec2,
    size: Vec2,
    items: Seq<Seq<char>>,
    selected: nat,
    gap: nat,
) -> Seq<u8> {
    kill_to_end_seq() + seq![0x0du8, 0x0au8] + columns(
        items,
        0,
        min_nat(size.x as nat, 255),
        selected,
        gap,
    ).0 + seq![0x0du8] + up_seq(1) + right_seq(if pos.x > 0 { (pos.x - 1) as nat } else { 0 })
}

pub open spec fn grid_shown(items: Seq<Seq<char>>, size: Vec2, selected: nat, gap: nat) -> nat {
    columns(items, 0, min_nat(size.x as nat, 255), selected, gap).1
}

/// The character sequences of a list of items.
pub open spec fn views(items: Seq<Vec<char>>) -> Seq<Seq<char>> {
    items.map_values(|i: Vec<char>| i@)
}

pub struct GridStyle {
    pub horizontal_gap: u8,
}

impl Default for GridStyle {
    fn default() -> (r: GridStyle)
        ensures
            r.horizontal_gap == 2,
    {
        GridStyle { horizontal_gap: 2 }
    }
}

pub struct GridResponse {
    pub elements_shown: u8,
    pub response: Vec<u8>,
}

/// `text`, highlighted.
pub fn paint_selected(text: &[char]) -> (r: Vec<u8>)
    ensures
        r@ == reverse_seq() + encode_utf8(text@) + reset_seq(),
{
    let mut r: Vec<u8> = vec![0x1b, 0x5b, 0x37, 0x6d];
    push_utf8(&mut r, text, 0, text.len());
    r.push(0x1b);
    r.push(0x5b);
    r.push(0x30);
    r.push(0x6d);
    proof {
        assert(text@.subrange(0, text@.len() as int) =~= text@);
    }
    assert(r@ =~= reverse_seq() + encode_utf8(text@) + reset_seq());
    r
}

fn push_bytes(buf: &mut Vec<u8>, mut bytes: Vec<u8>)
    ensures
        final(buf)@ == old(buf)@ + bytes@,
{
    buf.append(&mut bytes);
}

proof fn lemma_column_width_bound(items: Seq<Seq<char>>, start: nat, count: nat, width: nat)
    ensures
        column_width(items, start, count, width) <= width,
    decreases count,
{
    if count > 0 {
        lemma_column_width_bound(items, start, (count - 1) as nat, width);
    }
}

proof fn lemma_columns_shown(items: Seq<Seq<char>>, start: nat, remaining: nat, selected: nat, gap: nat)
    requires
        start <= MAX_SHOWN,
    ensures
        start <= columns(items, start, remaining, selected, gap).1 <= MAX_SHOWN,
    decreases items.len() - start,
{
    if !(start >= items.len() || remaining == 0 || start >= MAX_SHOWN) {
        let count = column_len(items.len(), start);
        let w = column_width(items, start, count, remaining);
        lemma_columns_shown(items, start + count, (remaining - w) as nat, selected, gap);
    }
}

fn push_cell(buf: &mut Vec<u8>, item: &[char], width: u32, selected: bool) -> (r: u32)
    ensures
        final(buf)@ == old(buf)@ + cell(item@, width as nat, selected),
        r == min_nat(item@.len(), width as nat),
{
    let len = item.len();
    let t: usize = if len < width as usize {
        len
    } else {
        width as usize
    };
    let ghost b0 = buf@;
    if selected {
        let mut rev: Vec<u8> = vec![0x1b, 0x5b, 0x37, 0x6d];
        buf.append(&mut rev);
        push_utf8(buf, item, 0, t);
        let mut reset: Vec<u8> = vec![0x1b, 0x5b, 0x30, 0x6d];
        buf.append(&mut reset);
    } else {
        push_utf8(buf, item, 0, t);
    }
    let ghost shown = buf@.subrange(b0.len() as int, buf@.len() as int);
    push_bytes(buf, cursor::move_left(t as u32));
    buf.push(0x0a);
    proof {
        let tk = item@.take(t as int);
        assert(item@.subrange(0, t as int) =~= tk);
        if selected {
            assert(shown =~= reverse_seq() + encode_utf8(tk) + reset_seq());
        } else {
            assert(shown =~= encode_utf8(tk));
        }
        assert(buf@ =~= b0 + shown + left_seq(t as nat) + seq![0x0au8]);
    }
    t as u32
}

/// Writes the column of items `start .. start + count`; returns its width.
fn push_column(
    buf: &mut Vec<u8>,
    items: &[Vec<char>],
    start: usize,
    count: usize,
    width: u32,
    selected: u8,
) -> (r: u32)
    requires
        start + count <= items@.len(),
    ensures
        final(buf)@ == old(buf)@ + cells(
            views(items@),
            start as nat,
            count as nat,
            width as nat,
            selected as nat,
        ),
        r == column_width(views(items@), start as nat, count as nat, width as nat),
        r <= width,
{
    let ghost all = views(items@);
    let n = items.len();
    let mut col_width: u32 = 0;
    let mut k: usize = 0;
    while k < count
        invariant
            n == items@.len(),
            start + count <= n,
            all == views(items@),
            k <= count,
            buf@ == old(buf)@ + cells(all, start as nat, k as nat, width as nat, selected as nat),
            col_width == column_width(all, start as nat, k as nat, width as nat),
            col_width <= width,
        decreases count - k,
    {
        let ghost b0 = buf@;
        let t = push_cell(buf, items[start + k].as_slice(), width, start + k == selected as usize);
        proof {
            assert(all[(start + k) as int] == items@[(start + k) as int]@);
            assert(buf@ =~= old(buf)@ + cells(all, start as nat, (k + 1) as nat, width as nat, selected as nat));
        }
        if t > col_width {
            col_width = t;
        }
        k = k + 1;
    }
    col_width
}

/// Draws `items` in columns of `ROWS` below the line, the item at index
/// `selected` highlighted, and brings the cursor back to column `pos.x`.
pub fn grid(pos: Pos, term_size: Size, items: &[Vec<char>], selected: u8, style: GridStyle) -> (r:
    GridResponse)
    ensures
        r.response@ == grid_bytes(
            pos,
            term_size,
            views(items@),
            selected as nat,
            style.horizontal_gap as nat,
        ),
        r.elements_shown == grid_shown(
            views(items@),
            term_size,
            selected as nat,
            style.horizontal_gap as nat,
        ),
{
    let ghost all = views(items@);
    let ghost sel = selected as nat;
    let ghost gap = style.horizontal_gap as nat;
    let mut buf: Vec<u8> = cursor::kill_to_term_end();
    buf.push(0x0d);
    buf.push(0x0a);
    let ghost head = buf@;
    let n = items.len();
    let mut remaining: u32 = if term_size.x < 255 {
        term_size.x
    } else {
        255
    };
    let ghost rem0 = remaining as nat;
    let mut start: usize = 0;
    proof {
        lemma_columns_shown(all, 0, rem0, sel, gap);
    }
    while start < n && remaining > 0 && start < MAX_SHOWN
        invariant
            n == items@.len() == all.len(),
            all == views(items@),
            gap == style.horizontal_gap as nat,
            sel == selected as nat,
            start <= MAX_SHOWN,
            remaining <= 255,
            forall|j: int| 0 <= j < n ==> #[trigger] all[j] == items@[j]@,
            columns(all, 0, rem0, sel, gap) == (
                buf@.subrange(head.len() as int, buf@.len() as int) + columns(
                    all,
                    start as nat,
                    remaining as nat,
                    sel,
                    gap,
                ).0,
                columns(all, start as nat, remaining as nat, sel, gap).1,
            ),
            head.len() <= buf@.len(),
            buf@.subrange(0, head.len() as int) == head,
        decreases n - start,
    {
        let count: usize = if n - start < ROWS {
            n - start
        } else {
            ROWS
        };
        let count: usize = if MAX_SHOWN - start < count {
            MAX_SHOWN - start
        } else {
            count
        };
        let ghost before = buf@;
        let col_width = push_column(&mut buf, items, start, count, remaining, selected);
        push_bytes(&mut buf, cursor::move_up(count as u32));
        push_bytes(&mut buf, cursor::move_right(col_width + style.horizontal_gap as u32));
        proof {
            assert(count == column_len(n as nat, start as nat));
            assert(!(start >= all.len() || remaining == 0 || start >= MAX_SHOWN));
            assert(col_width == column_width(all, start as nat, count as nat, remaining as nat));
            assert((col_width + style.horizontal_gap as u32) as nat == col_width + gap);
            let rest = columns(all, (start + count) as nat, (remaining - col_width) as nat, sel, gap);
            assert(columns(all, start as nat, remaining as nat, sel, gap) == (
                cells(all, start as nat, count as nat, remaining as nat, sel) + up_seq(count as nat)
                    + right_seq((col_width + gap) as nat) + rest.0,
                rest.1,
            ));
            assert(buf@.subrange(head.len() as int, buf@.len() as int) =~= before.subrange(
                head.len() as int,
                before.len() as int,
            ) + cells(all, start as nat, count as nat, remaining as nat, sel) + up_seq(
                count as nat,
            ) + right_seq((col_width + gap) as nat));
            assert(buf@.subrange(0, head.len() as int) =~= before.subrange(0, head.len() as int));
        }
        remaining = remaining - col_width;
        start = start + count;
    }
    proof {
        assert(columns(all, start as nat, remaining as nat, sel, gap) == (Seq::<u8>::empty(), start as nat));
    }
    let ghost body = buf@.subrange(head.len() as int, buf@.len() as int);
    buf.push(0x0d);
    push_bytes(&mut buf, cursor::move_up(1));
    let back: u32 = if pos.x > 0 {
        pos.x - 1
    } else {
        0
    };
    push_bytes(&mut buf, cursor::move_right(back));
    proof {
        assert(head =~= kill_to_end_seq() + seq![0x0du8, 0x0au8]);
        assert(columns(all, 0, rem0, sel, gap).0 =~= body);
        assert(buf@ =~= grid_bytes(pos, term_size, all, sel, gap));
    }
    GridResponse { elements_shown: start as u8, response: buf }
}

} // verus!
