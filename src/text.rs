use vstd::prelude::*;

verus! {

/// Bytes in one row of the dump.
pub const ROW_WIDTH: usize = 16;

/// Bytes in one half of a row; a wider gap follows this slot.
pub const HALF_ROW: usize = 8;

/// ASCII `0`.
pub const DIGIT_ZERO: u8 = 0x30;

/// ASCII `A`.
pub const LETTER_A: u8 = 0x41;

/// ASCII `x`.
pub const LETTER_X: u8 = 0x78;

/// ASCII `:`.
pub const COLON: u8 = 0x3a;

/// ASCII space.
pub const SPACE: u8 = 0x20;

/// ASCII `|`.
pub const BAR: u8 = 0x7c;

/// ASCII `.`, shown in the gutter for a control character.
pub const DOT: u8 = 0x2e;

/// ASCII newline.
pub const NEWLINE: u8 = 0x0a;

/// ASCII DEL, the one control character above the printable range.
pub const DELETE: u8 = 0x7f;

/// The uppercase hexadecimal digit for `d < 16`, as an ASCII byte.
pub open spec fn hex_digit(d: nat) -> u8 {
    if d < 10 {
        (DIGIT_ZERO + d) as u8
    } else {
        (LETTER_A + (d - 10)) as u8
    }
}

/// `n` in uppercase hexadecimal, zero-padded on the left to at least `w`
/// digits (`0` with `w == 0` gives no digits).
pub open spec fn hex_pad(n: nat, w: nat) -> Seq<u8>
    decreases n + w,
{
    if n == 0 && w == 0 {
        Seq::empty()
    } else {
        hex_pad(n / 16, if w > 0 { (w - 1) as nat } else { 0 }).push(hex_digit(n % 16))
    }
}

/// What a byte shows in the gutter: itself, or `.` for a control character.
pub open spec fn gutter_char(b: u8) -> u8 {
    if b < SPACE || b == DELETE {
        DOT
    } else {
        b
    }
}

/// The offset column of the row that starts at `pos`: `0x`, at least eight
/// uppercase hexadecimal digits, then `: `.
pub open spec fn offset_text(pos: nat) -> Seq<u8> {
    seq![DIGIT_ZERO, LETTER_X] + hex_pad(pos, 8) + seq![COLON, SPACE]
}

/// A byte as two uppercase hexadecimal digits.
pub open spec fn hex_pair(b: u8) -> Seq<u8> {
    seq![hex_digit(b as nat / 16), hex_digit(b as nat % 16)]
}

/// Two spaces: the hex field of a blank slot.
pub open spec fn blank_pair() -> Seq<u8> {
    seq![SPACE, SPACE]
}

/// The hex field of a slot holding `b`: its digits when `shown`, else blank.
pub open spec fn slot_text(b: u8, shown: bool) -> Seq<u8> {
    if shown {
        hex_pair(b)
    } else {
        blank_pair()
    }
}

/// What follows the hex field of slot `j`: ` | ` before the gutter after the
/// last slot, two spaces after the half-row slot, one space elsewhere.
pub open spec fn separator(j: nat) -> Seq<u8> {
    if j == ROW_WIDTH - 1 {
        seq![SPACE, BAR, SPACE]
    } else if j == HALF_ROW - 1 {
        seq![SPACE, SPACE]
    } else {
        seq![SPACE]
    }
}

/// The gutter of a row: each byte's gutter character.
pub open spec fn gutter(row: Seq<u8>) -> Seq<u8> {
    row.map_values(|b: u8| gutter_char(b))
}

/// What closes a row after its gutter: ` |` and a newline.
pub open spec fn row_end() -> Seq<u8> {
    seq![SPACE, BAR, NEWLINE]
}

/// The text for byte `b` arriving at position `pos`, where `row` holds the
/// bytes already in the current row: the offset column first if `b` opens a
/// row, its slot and separator, and the gutter if `b` completes the row.
pub open spec fn byte_text(pos: nat, row: Seq<u8>, b: u8, shown: bool) -> Seq<u8> {
    let j = pos % (ROW_WIDTH as nat);
    (if j == 0 {
        offset_text(pos)
    } else {
        Seq::empty()
    }) + slot_text(b, shown) + separator(j) + (if j == ROW_WIDTH - 1 {
        gutter(row.push(b)) + row_end()
    } else {
        Seq::empty()
    })
}

/// The current row after byte `b` arrives at position `pos`.
pub open spec fn next_row(pos: nat, row: Seq<u8>, b: u8) -> Seq<u8> {
    if pos % (ROW_WIDTH as nat) == ROW_WIDTH - 1 {
        Seq::empty()
    } else {
        row.push(b)
    }
}

/// The current row after `s` arrives at position `pos` with `row` current.
pub open spec fn row_after(pos: nat, row: Seq<u8>, s: Seq<u8>) -> Seq<u8>
    decreases s.len(),
{
    if s.len() == 0 {
        row
    } else {
        next_row((pos + s.len() - 1) as nat, row_after(pos, row, s.drop_last()), s.last())
    }
}

/// The text for `s` arriving at position `pos` with `row` current.
pub open spec fn render(pos: nat, row: Seq<u8>, s: Seq<u8>, shown: bool) -> Seq<u8>
    decreases s.len(),
{
    if s.len() == 0 {
        Seq::empty()
    } else {
        render(pos, row, s.drop_last(), shown) + byte_text(
            (pos + s.len() - 1) as nat,
            row_after(pos, row, s.drop_last()),
            s.last(),
            shown,
        )
    }
}

/// The zero bytes that pad a row from position `pos` to its end; none when
/// `pos` is on a row boundary.
pub open spec fn padding(pos: nat) -> Seq<u8> {
    if pos % (ROW_WIDTH as nat) == 0 {
        Seq::empty()
    } else {
        Seq::new((ROW_WIDTH - pos % (ROW_WIDTH as nat)) as nat, |i: int| 0u8)
    }
}

/// The text that completes a partial row: the padding bytes as blank slots.
pub open spec fn finish_text(pos: nat, row: Seq<u8>) -> Seq<u8> {
    render(pos, row, padding(pos), false)
}

/// The whole dump of `bytes`, written from a fresh writer and finished.
pub open spec fn hex_dump(bytes: Seq<u8>) -> Seq<u8> {
    render(0, Seq::empty(), bytes, true) + finish_text(
        bytes.len(),
        row_after(0, Seq::empty(), bytes),
    )
}

/// Appends `n` in uppercase hexadecimal, zero-padded to at least `w` digits.
pub(crate) fn push_hex(out: &mut Vec<u8>, n: usize, w: usize)
    ensures
        final(out)@ == old(out)@ + hex_pad(n as nat, w as nat),
    decreases n + w,
{
    if n == 0 && w == 0 {
        assert(old(out)@ + hex_pad(0, 0) =~= old(out)@);
        return;
    }
    let nw: usize = if w > 0 { w - 1 } else { 0 };
    push_hex(out, n / 16, nw);
    let d: usize = n % 16;
    let c: u8 = if d < 10 { DIGIT_ZERO + d as u8 } else { LETTER_A + (d - 10) as u8 };
    out.push(c);
    assert(final(out)@ =~= old(out)@ + hex_pad(n as nat, w as nat));
}

/// Appends the offset column of the row that starts at `pos`.
pub(crate) fn push_offset(out: &mut Vec<u8>, pos: usize)
    ensures
        final(out)@ == old(out)@ + offset_text(pos as nat),
{
    out.push(DIGIT_ZERO);
    out.push(LETTER_X);
    push_hex(out, pos, 8);
    out.push(COLON);
    out.push(SPACE);
    assert(final(out)@ =~= old(out)@ + offset_text(pos as nat));
}

/// Appends the hex field of a slot holding `b`.
pub(crate) fn push_slot(out: &mut Vec<u8>, b: u8, shown: bool)
    ensures
        final(out)@ == old(out)@ + slot_text(b, shown),
{
    if shown {
        let hi: usize = (b / 16) as usize;
        let lo: usize = (b % 16) as usize;
        push_hex(out, hi, 1);
        push_hex(out, lo, 1);
        assert(hex_pad(hi as nat, 1) =~= seq![hex_digit(hi as nat)]) by {
            reveal_with_fuel(hex_pad, 3);
        }
        assert(hex_pad(lo as nat, 1) =~= seq![hex_digit(lo as nat)]) by {
            reveal_with_fuel(hex_pad, 3);
        }
    } else {
        out.push(SPACE);
        out.push(SPACE);
    }
    assert(final(out)@ =~= old(out)@ + slot_text(b, shown));
}

/// Appends the separator that follows slot `j`.
pub(crate) fn push_separator(out: &mut Vec<u8>, j: usize)
    ensures
        final(out)@ == old(out)@ + separator(j as nat),
{
    if j == ROW_WIDTH - 1 {
        out.push(SPACE);
        out.push(BAR);
        out.push(SPACE);
    } else if j == HALF_ROW - 1 {
        out.push(SPACE);
        out.push(SPACE);
    } else {
        out.push(SPACE);
    }
    assert(final(out)@ =~= old(out)@ + separator(j as nat));
}

/// Appends the gutter of a full row and the text that closes the row.
pub(crate) fn push_gutter(out: &mut Vec<u8>, row: &[u8; ROW_WIDTH])
    ensures
        final(out)@ == old(out)@ + gutter(row@) + row_end(),
{
    let mut k: usize = 0;
    while k < ROW_WIDTH
        invariant
            k <= ROW_WIDTH,
            out@ == old(out)@ + gutter(row@.subrange(0, k as int)),
        decreases ROW_WIDTH - k,
    {
        out.push(gutter_byte(row[k]));
        k = k + 1;
        assert(gutter(row@.subrange(0, k as int)) =~= gutter(row@.subrange(0, k - 1)).push(
            gutter_char(row@[k - 1]),
        ));
    }
    assert(row@.subrange(0, ROW_WIDTH as int) =~= row@);
    out.push(SPACE);
    out.push(BAR);
    out.push(NEWLINE);
    assert(final(out)@ =~= old(out)@ + gutter(row@) + row_end());
}

/// The gutter character of `b`.
pub fn gutter_byte(b: u8) -> (r: u8)
    ensures
        r == gutter_char(b),
{
    if b < SPACE || b == DELETE {
        DOT
    } else {
        b
    }
}

} // verus!
