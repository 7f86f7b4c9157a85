use vstd::prelude::*;

use crate::text::{
    byte_text, finish_text, next_row, padding, push_gutter, push_offset, push_separator,
    push_slot, render, row_after, ROW_WIDTH,
};

verus! {

/// Formats bytes written in chunks of any size into hex-dump rows.
///
/// The writer keeps the number of bytes seen so far and the bytes of the row
/// being assembled, so rows stay aligned across calls. The last row is only
/// completed by [`HexWriter::finish`]; a writer dropped without it leaves that
/// row without padding and gutter.
pub struct HexWriter {
    count: usize,
    data: [u8; ROW_WIDTH],
}

impl HexWriter {
    /// Bytes written so far.
    pub closed spec fn position(&self) -> nat {
        self.count as nat
    }

    /// The bytes of the row being assembled, oldest first.
    pub closed spec fn row(&self) -> Seq<u8> {
        self.data@.subrange(0, (self.count % ROW_WIDTH) as int)
    }

    /// A writer at position zero with an empty row.
    pub fn new() -> (r: HexWriter)
        ensures
            r.position() == 0,
            r.row() == Seq::<u8>::empty(),
    {
        let r = HexWriter { count: 0, data: [0u8; ROW_WIDTH] };
        assert(r.row() =~= Seq::<u8>::empty());
        r
    }

    /// Bytes written so far.
    pub fn bytes_written(&self) -> (r: usize)
        ensures
            r == self.position(),
    {
        self.count
    }

    /// Appends the text for one byte `b` to `out` and takes it into the row.
    fn write_byte(&mut self, b: u8, shown: bool, out: &mut Vec<u8>)
        requires
            old(self).position() < usize::MAX,
        ensures
            final(self).position() == old(self).position() + 1,
            final(self).row() == next_row(old(self).position(), old(self).row(), b),
            final(out)@ == old(out)@ + byte_text(
                old(self).position(),
                old(self).row(),
                b,
                shown,
            ),
    {
        let ghost row = self.row();
        let j: usize = self.count % ROW_WIDTH;
        if j == 0 {
            push_offset(out, self.count);
        } else {
            assert(old(out)@ + Seq::<u8>::empty() =~= old(out)@);
        }
        push_slot(out, b, shown);
        push_separator(out, j);
        self.data[j] = b;
        self.count = self.count + 1;
        assert((self.count as int) % 16 == if j == 15 { 0 } else { j + 1 });
        if j == ROW_WIDTH - 1 {
            assert(self.data@ =~= row.push(b));
            push_gutter(out, &self.data);
            assert(self.row() =~= Seq::<u8>::empty());
        } else {
            assert(self.row() =~= row.push(b));
        }
        assert(final(out)@ =~= old(out)@ + byte_text(
            old(self).position(),
            row,
            b,
            shown,
        ));
    }

    /// Appends the text for `buf` to `out`, its bytes shown in hexadecimal
    /// when `shown`, as blank slots otherwise.
    fn write_(&mut self, buf: &[u8], shown: bool, out: &mut Vec<u8>)
        requires
            old(self).position() + buf@.len() <= usize::MAX,
        ensures
            final(self).position() == old(self).position() + buf@.len(),
            final(self).row() == row_after(old(self).position(), old(self).row(), buf@),
            final(out)@ == old(out)@ + render(
                old(self).position(),
                old(self).row(),
                buf@,
                shown,
            ),
    {
        let ghost p0 = old(self).position();
        let ghost r0 = old(self).row();
        let mut i: usize = 0;
        while i < buf.len()
            invariant
                i <= buf@.len(),
                p0 == old(self).position(),
                r0 == old(self).row(),
                p0 + buf@.len() <= usize::MAX,
                self.position() == p0 + i,
                self.row() == row_after(p0, r0, buf@.subrange(0, i as int)),
                out@ == old(out)@ + render(p0, r0, buf@.subrange(0, i as int), shown),
            decreases buf@.len() - i,
        {
            let ghost pre = buf@.subrange(0, i as int);
            self.write_byte(buf[i], shown, out);
            i = i + 1;
            let ghost s = buf@.subrange(0, i as int);
            assert(s.drop_last() =~= pre);
        }
        assert(buf@.subrange(0, buf@.len() as int) =~= buf@);
    }

    /// Appends the text for `buf` to `out` and returns the number of bytes
    /// taken, which is all of them.
    pub fn write(&mut self, buf: &[u8], out: &mut Vec<u8>) -> (r: usize)
        requires
            old(self).position() + buf@.len() <= usize::MAX,
        ensures
            r == buf@.len(),
            final(self).position() == old(self).position() + buf@.len(),
            final(self).row() == row_after(old(self).position(), old(self).row(), buf@),
            final(out)@ == old(out)@ + render(
                old(self).position(),
                old(self).row(),
                buf@,
                true,
            ),
    {
        self.write_(buf, true, out);
        buf.len()
    }

    /// Completes the current row, if one is partly written, with blank slots
    /// and its gutter, in which the blank slots show as `.`.
    pub fn finish(self, out: &mut Vec<u8>)
        requires
            self.position() + ROW_WIDTH <= usize::MAX,
        ensures
            final(out)@ == old(out)@ + finish_text(self.position(), self.row()),
    {
        let mut w = self;
        let j: usize = w.count % ROW_WIDTH;
        if j != 0 {
            let n: usize = ROW_WIDTH - j;
            let pad = vec![0u8; n];
            assert(pad@ =~= padding(self.position()));
            w.write_(pad.as_slice(), false, out);
        } else {
            assert(padding(self.position()) =~= Seq::<u8>::empty());
            assert(old(out)@ + finish_text(self.position(), self.row()) =~= old(out)@);
        }
    }
}

} // verus!
