use vstd::prelude::*;

use crate::text::{
    blank_pair, byte_text, finish_text, gutter, hex_digit, hex_dump, hex_pad, hex_pair,
    offset_text, padding, render, row_after, row_end, separator, COLON, DIGIT_ZERO, DOT,
    LETTER_A, LETTER_X, ROW_WIDTH, SPACE,
};

verus! {

/// Writing `a` and then `b` gives the same text, and leaves the same row, as
/// writing `a + b` in one call.
pub proof fn lemma_chunking(pos: nat, row: Seq<u8>, a: Seq<u8>, b: Seq<u8>, shown: bool)
    ensures
        render(pos, row, a + b, shown) == render(pos, row, a, shown) + render(
            pos + a.len(),
            row_after(pos, row, a),
            b,
            shown,
        ),
        row_after(pos, row, a + b) == row_after(pos + a.len(), row_after(pos, row, a), b),
    decreases b.len(),
{
    if b.len() == 0 {
        assert(a + b =~= a);
        assert(render(pos, row, a, shown) + Seq::<u8>::empty() =~= render(pos, row, a, shown));
    } else {
        lemma_chunking(pos, row, a, b.drop_last(), shown);
        assert((a + b).drop_last() =~= a + b.drop_last());
        assert((a + b).last() == b.last());
        let q = pos + a.len();
        let ra = row_after(pos, row, a);
        assert(render(q, ra, b, shown) == render(q, ra, b.drop_last(), shown) + byte_text(
            (q + b.len() - 1) as nat,
            row_after(q, ra, b.drop_last()),
            b.last(),
            shown,
        ));
        assert(render(pos, row, a + b, shown) =~= render(pos, row, a, shown) + render(
            q,
            ra,
            b,
            shown,
        ));
    }
}

/// The dump of `a + b` is the text of writing `a`, then writing `b`, then
/// finishing: how the input is split into writes does not change the output.
pub proof fn lemma_chunked_dump(a: Seq<u8>, b: Seq<u8>)
    ensures
        hex_dump(a + b) == render(0, Seq::empty(), a, true) + render(
            a.len(),
            row_after(0, Seq::empty(), a),
            b,
            true,
        ) + finish_text(a.len() + b.len(), row_after(a.len(), row_after(0, Seq::empty(), a), b)),
{
    lemma_chunking(0, Seq::empty(), a, b, true);
}

/// Empty input gives no text at all: no row and no padding row.
pub proof fn lemma_empty_dump()
    ensures
        hex_dump(Seq::empty()) == Seq::<u8>::empty(),
{
    assert(padding(0) =~= Seq::<u8>::empty());
    assert(hex_dump(Seq::empty()) =~= Seq::<u8>::empty());
}

/// The hex fields and separators of slots `0 .. s.len()` holding `s`, every
/// byte shown.
pub open spec fn hex_slots(s: Seq<u8>) -> Seq<u8>
    decreases s.len(),
{
    if s.len() == 0 {
        Seq::empty()
    } else {
        hex_slots(s.drop_last()) + hex_pair(s.last()) + separator((s.len() - 1) as nat)
    }
}

/// Blank hex fields and their separators for slots `from .. to`.
pub open spec fn blank_slots(from: nat, to: nat) -> Seq<u8>
    decreases to,
{
    if to <= from {
        Seq::empty()
    } else {
        blank_slots(from, (to - 1) as nat) + blank_pair() + separator((to - 1) as nat)
    }
}

/// `n` dots.
pub open spec fn dots(n: nat) -> Seq<u8> {
    Seq::new(n, |i: int| DOT)
}

/// Writing the first `t` bytes of a row from a row boundary gives the offset
/// column and their slots, and leaves those bytes as the row.
proof fn lemma_row_prefix(pos: nat, s: Seq<u8>)
    requires
        pos % (ROW_WIDTH as nat) == 0,
        1 <= s.len() < ROW_WIDTH,
    ensures
        render(pos, Seq::empty(), s, true) == offset_text(pos) + hex_slots(s),
        row_after(pos, Seq::empty(), s) == s,
    decreases s.len(),
{
    let t = s.len();
    if t == 1 {
        assert(s.drop_last() =~= Seq::<u8>::empty());
        assert(Seq::<u8>::empty().push(s.last()) =~= s);
        assert(render(pos, Seq::empty(), s.drop_last(), true) == Seq::<u8>::empty());
        assert(row_after(pos, Seq::empty(), s.drop_last()) == Seq::<u8>::empty());
        assert(hex_slots(s.drop_last()) == Seq::<u8>::empty());
        assert(hex_slots(s) =~= hex_pair(s.last()) + separator(0));
        assert(render(pos, Seq::empty(), s, true) == Seq::<u8>::empty() + byte_text(
            pos,
            Seq::empty(),
            s.last(),
            true,
        ));
        assert(render(pos, Seq::empty(), s, true) =~= offset_text(pos) + hex_slots(s));
    } else {
        lemma_row_prefix(pos, s.drop_last());
        assert((pos + t - 1) % 16 == t - 1) by (nonlinear_arith)
            requires
                pos % 16 == 0,
                1 <= t < 16,
        ;
        assert(s.drop_last().push(s.last()) =~= s);
        let j = ((pos + t - 1) as nat) % (ROW_WIDTH as nat);
        assert(j == t - 1);
        assert(byte_text((pos + t - 1) as nat, s.drop_last(), s.last(), true) =~= hex_pair(
            s.last(),
        ) + separator((t - 1) as nat));
        assert(render(pos, Seq::empty(), s, true) == render(
            pos,
            Seq::empty(),
            s.drop_last(),
            true,
        ) + byte_text((pos + t - 1) as nat, s.drop_last(), s.last(), true));
        assert(render(pos, Seq::empty(), s, true) =~= offset_text(pos) + hex_slots(s));
    }
}

/// Sixteen bytes written from a row boundary make exactly one full row: the
/// offset column, every slot shown in hexadecimal, and the gutter of those
/// bytes; the row is then empty again.
pub proof fn lemma_full_row(pos: nat, s: Seq<u8>)
    requires
        pos % (ROW_WIDTH as nat) == 0,
        s.len() == ROW_WIDTH,
    ensures
        render(pos, Seq::empty(), s, true) == offset_text(pos) + hex_slots(s) + gutter(s)
            + row_end(),
        row_after(pos, Seq::empty(), s) == Seq::<u8>::empty(),
{
    lemma_row_prefix(pos, s.drop_last());
    assert((pos + 15) % 16 == 15) by (nonlinear_arith)
        requires
            pos % 16 == 0,
    ;
    assert(s.drop_last().push(s.last()) =~= s);
    assert(render(pos, Seq::empty(), s, true) =~= offset_text(pos) + hex_slots(s) + gutter(s)
        + row_end());
}

/// Input of exactly one row's length dumps as that one row, with no blank
/// slot and nothing after it.
pub proof fn lemma_single_row_dump(s: Seq<u8>)
    requires
        s.len() == ROW_WIDTH,
    ensures
        hex_dump(s) == offset_text(0) + hex_slots(s) + gutter(s) + row_end(),
{
    lemma_full_row(0, s);
    assert(padding(16) =~= Seq::<u8>::empty());
    assert(hex_dump(s) =~= offset_text(0) + hex_slots(s) + gutter(s) + row_end());
}

/// `n` zero bytes.
pub open spec fn zeros(n: nat) -> Seq<u8> {
    Seq::new(n, |i: int| 0u8)
}

/// The row after `s` arrives is the last `(pos + s.len()) % 16` bytes of
/// what the row held and `s`.
pub proof fn lemma_row_after_suffix(pos: nat, row: Seq<u8>, s: Seq<u8>)
    requires
        row.len() == pos % (ROW_WIDTH as nat),
    ensures
        ({
            let all = row + s;
            let k = (pos + s.len()) % (ROW_WIDTH as nat);
            k <= all.len() && row_after(pos, row, s) == all.subrange(all.len() - k, all.len() as int)
        }),
    decreases s.len(),
{
    let all = row + s;
    if s.len() == 0 {
        assert(all =~= row);
        assert(all.subrange(all.len() - pos % 16, all.len() as int) =~= row);
    } else {
        let s0 = s.drop_last();
        let b = s.last();
        lemma_row_after_suffix(pos, row, s0);
        let all0 = row + s0;
        let q = (pos + s0.len()) % 16;
        let k = (pos + s.len()) % 16;
        assert(all =~= all0.push(b));
        assert(k == if q == 15 { 0 } else { q + 1 }) by (nonlinear_arith)
            requires
                q == (pos + s0.len()) % 16,
                k == (pos + s0.len() + 1) % 16,
        ;
        if q == 15 {
            assert(all.subrange(all.len() - k, all.len() as int) =~= Seq::<u8>::empty());
        } else {
            assert(all.subrange(all.len() - k, all.len() as int) =~= all0.subrange(
                all0.len() - q,
                all0.len() as int,
            ).push(b));
        }
    }
}

/// Blank slots written after the `k` bytes of a partial row: `t` of them
/// that do not reach the row's end leave blank fields and grow the row by
/// zeros.
proof fn lemma_blank_run(pos: nat, row: Seq<u8>, t: nat)
    requires
        row.len() == pos % (ROW_WIDTH as nat),
        row.len() > 0,
        row.len() + t < ROW_WIDTH,
    ensures
        render(pos, row, zeros(t), false) == blank_slots(row.len(), row.len() + t),
        row_after(pos, row, zeros(t)) == row + zeros(t),
    decreases t,
{
    let k = row.len();
    if t == 0 {
        assert(zeros(0) =~= Seq::<u8>::empty());
        assert(row + zeros(0) =~= row);
    } else {
        lemma_blank_run(pos, row, (t - 1) as nat);
        assert(zeros(t).drop_last() =~= zeros((t - 1) as nat));
        assert((pos + t - 1) % 16 == k + t - 1) by (nonlinear_arith)
            requires
                k == pos % 16,
                k + t < 16,
                t >= 1,
        ;
        assert((row + zeros((t - 1) as nat)).push(0u8) =~= row + zeros(t));
        let j = ((pos + t - 1) as nat) % (ROW_WIDTH as nat);
        assert(j != 0 && j != 15);
        assert(byte_text((pos + t - 1) as nat, row + zeros((t - 1) as nat), 0u8, false)
            =~= blank_pair() + separator((k + t - 1) as nat));
    }
}

/// Padding a partial row of `k` bytes gives `16 - k` blank slots, then the
/// gutter of those bytes followed by `16 - k` dots.
pub proof fn lemma_finish_text(pos: nat, row: Seq<u8>)
    requires
        row.len() == pos % (ROW_WIDTH as nat),
        row.len() > 0,
    ensures
        finish_text(pos, row) == blank_slots(row.len(), ROW_WIDTH as nat) + gutter(row) + dots(
            (ROW_WIDTH - row.len()) as nat,
        ) + row_end(),
{
    let k = row.len();
    let m = (16 - k) as nat;
    assert(padding(pos) =~= zeros(m));
    lemma_blank_run(pos, row, (m - 1) as nat);
    assert(zeros(m).drop_last() =~= zeros((m - 1) as nat));
    assert((pos + m - 1) % 16 == 15) by (nonlinear_arith)
        requires
            k == pos % 16,
            m == 16 - k,
            k > 0,
    ;
    let r = row + zeros((m - 1) as nat);
    assert(r.push(0u8) =~= row + zeros(m));
    assert(gutter(row + zeros(m)) =~= gutter(row) + dots(m));
    assert(byte_text((pos + m - 1) as nat, r, 0u8, false) =~= blank_pair() + separator(15)
        + gutter(row) + dots(m) + row_end());
    assert(finish_text(pos, row) =~= blank_slots(k, 16) + gutter(row) + dots(m) + row_end());
}

/// When the input does not fill its last row, the dump ends with `16 - k`
/// blank slots and a gutter of the last `k` bytes followed by `16 - k` dots,
/// where `k` is the length modulo sixteen.
pub proof fn lemma_last_row_padding(s: Seq<u8>)
    requires
        s.len() % (ROW_WIDTH as nat) != 0,
    ensures
        ({
            let k = s.len() % (ROW_WIDTH as nat);
            hex_dump(s) == render(0, Seq::empty(), s, true) + blank_slots(k, ROW_WIDTH as nat)
                + gutter(s.subrange(s.len() - k, s.len() as int)) + dots(
                (ROW_WIDTH - k) as nat,
            ) + row_end()
        }),
{
    let k = s.len() % 16;
    lemma_row_after_suffix(0, Seq::empty(), s);
    assert(Seq::<u8>::empty() + s =~= s);
    let row = row_after(0, Seq::empty(), s);
    assert(row == s.subrange(s.len() - k, s.len() as int));
    lemma_finish_text(s.len(), row);
}

/// `16` to the power `w`.
pub open spec fn pow16(w: nat) -> nat
    decreases w,
{
    if w == 0 {
        1
    } else {
        16 * pow16((w - 1) as nat)
    }
}

/// Whether `c` is an uppercase hexadecimal digit.
pub open spec fn is_upper_hex(c: u8) -> bool {
    (DIGIT_ZERO <= c && c <= DIGIT_ZERO + 9) || (LETTER_A <= c && c <= LETTER_A + 5)
}

/// The value of an uppercase hexadecimal digit.
pub open spec fn digit_value(c: u8) -> nat {
    if c < LETTER_A {
        (c - DIGIT_ZERO) as nat
    } else {
        (c - LETTER_A + 10) as nat
    }
}

/// The number that a string of uppercase hexadecimal digits denotes.
pub open spec fn hex_value(s: Seq<u8>) -> nat
    decreases s.len(),
{
    if s.len() == 0 {
        0
    } else {
        hex_value(s.drop_last()) * 16 + digit_value(s.last())
    }
}

/// A number below `16^w`, padded to `w` digits, is exactly `w` uppercase
/// hexadecimal digits that denote it.
pub proof fn lemma_hex_pad_exact(n: nat, w: nat)
    requires
        n < pow16(w),
    ensures
        hex_pad(n, w).len() == w,
        hex_value(hex_pad(n, w)) == n,
        forall|i: int| 0 <= i < w ==> is_upper_hex(#[trigger] hex_pad(n, w)[i]),
    decreases w,
{
    if w == 0 {
        assert(n == 0);
    } else {
        let p = pow16((w - 1) as nat);
        assert(n / 16 < p) by (nonlinear_arith)
            requires
                n < 16 * p,
        ;
        lemma_hex_pad_exact(n / 16, (w - 1) as nat);
        let d = hex_digit(n % 16);
        assert(digit_value(d) == n % 16);
        assert(hex_pad(n, w).drop_last() =~= hex_pad(n / 16, (w - 1) as nat));
        assert(n == (n / 16) * 16 + n % 16) by (nonlinear_arith);
    }
}

/// The offset column of row `k` is `0x`, the eight uppercase hexadecimal
/// digits of `16 * k`, and `: `.
pub proof fn lemma_row_offset(k: nat)
    requires
        16 * k < pow16(8),
    ensures
        ({
            let t = offset_text(16 * k);
            let digits = t.subrange(2, 10);
            &&& t.len() == 12
            &&& t.subrange(0, 2) == seq![DIGIT_ZERO, LETTER_X]
            &&& t.subrange(10, 12) == seq![COLON, SPACE]
            &&& forall|i: int| 0 <= i < 8 ==> is_upper_hex(#[trigger] digits[i])
            &&& hex_value(digits) == 16 * k
        }),
{
    lemma_hex_pad_exact(16 * k, 8);
    let t = offset_text(16 * k);
    assert(t.subrange(2, 10) =~= hex_pad(16 * k, 8));
    assert(t.subrange(0, 2) =~= seq![DIGIT_ZERO, LETTER_X]);
    assert(t.subrange(10, 12) =~= seq![COLON, SPACE]);
}

} // verus!
