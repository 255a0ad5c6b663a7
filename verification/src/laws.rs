//! Theorems about the decoder as a whole: facts that relate several
//! decoding steps, proved once and for all states and dimensions.

use vstd::prelude::*;
use vstd::arithmetic::mul::lemma_mul_basics;

use crate::glyph::Glyph;
use crate::glyph::default_glyph;
use crate::parser::ParserState;
use crate::parser::ParserView;
use crate::parser::arg_v;
use crate::parser::scan_args;
use crate::parser::sgr_fold;
use crate::parser::step;
use crate::parser::steps;
use crate::term::TermView;
use crate::term::cleared;
use crate::term::fresh_view;
use crate::term::lemma_cell_in_grid;
use crate::term::lemma_mul_distrib;

verus! {

/// Feeding one single byte is exactly one decoding step.
pub proof fn lemma_feed_one(p: ParserView, t: TermView, c: u8)
    ensures
        steps(p, t, seq![c]) == step(p, t, c),
{
    let r = step(p, t, c);
    assert(seq![c].skip(1) =~= Seq::<u8>::empty());
    assert(steps(r.0, r.1, Seq::<u8>::empty()) == (r.0, r.1));
}

/// Incremental/batch equivalence: feeding a byte sequence in two chunks,
/// one after the other, leaves the decoder and the terminal in exactly the
/// state of feeding the concatenation in one call. Applied repeatedly (down
/// to single bytes, by [`lemma_feed_one`]), any split of an input stream —
/// including one byte at a time — produces the same final state: no
/// operation depends on being handed multiple bytes atomically.
pub proof fn lemma_feed_split(p: ParserView, t: TermView, a: Seq<u8>, b: Seq<u8>)
    ensures
        steps(p, t, a + b) == steps(steps(p, t, a).0, steps(p, t, a).1, b),
    decreases a.len(),
{
    if a.len() == 0 {
        assert(a + b =~= b);
        assert(steps(p, t, a) == (p, t));
    } else {
        let r = step(p, t, a[0]);
        assert((a + b)[0] == a[0]);
        assert((a + b).skip(1) =~= a.skip(1) + b);
        lemma_feed_split(r.0, r.1, a.skip(1), b);
    }
}

/// A full reset (`ESC c`, RIS) fed to a decoder at ground leaves the
/// terminal cell-for-cell identical to a freshly constructed terminal of
/// the same dimensions, and the decoder back at ground.
pub proof fn lemma_full_reset_fresh(p: ParserView, t: TermView)
    requires
        p.state == ParserState::Ground,
        t.wf(),
    ensures
        steps(p, t, seq![0x1bu8, 0x63u8]).1 == fresh_view(t.cols, t.rows),
        steps(p, t, seq![0x1bu8, 0x63u8]).0.state == ParserState::Ground,
{
    let s = seq![0x1bu8, 0x63u8];
    let r1 = step(p, t, 0x1b);
    let r2 = step(r1.0, r1.1, 0x63);
    assert(s.skip(1) =~= seq![0x63u8]);
    assert(seq![0x63u8].skip(1) =~= Seq::<u8>::empty());
    assert(steps(p, t, s) == steps(r1.0, r1.1, seq![0x63u8]));
    assert(steps(r1.0, r1.1, seq![0x63u8]) == steps(r2.0, r2.1, Seq::<u8>::empty()));
    assert(steps(r2.0, r2.1, Seq::<u8>::empty()) == (r2.0, r2.1));
}

/// An erase-display sequence with argument 2 (`CSI 2 J`) fed to a decoder
/// at ground sets every cell of the grid to the default glyph and marks
/// every row dirty; the cursor does not move, and the decoder returns to
/// ground.
pub proof fn lemma_erase_display_all(p: ParserView, t: TermView)
    requires
        p.state == ParserState::Ground,
        t.wf(),
    ensures
        ({
            let r = steps(p, t, seq![0x1bu8, 0x5bu8, 0x32u8, 0x4au8]);
            &&& r.1.grid.len() == t.grid.len()
            &&& forall|i: int| 0 <= i < r.1.grid.len() ==> r.1.grid[i] == default_glyph()
            &&& r.1.dirty.len() == t.dirty.len()
            &&& forall|y: int| 0 <= y < r.1.dirty.len() ==> r.1.dirty[y]
            &&& r.1.cur_x == t.cur_x
            &&& r.1.cur_y == t.cur_y
            &&& r.0.state == ParserState::Ground
        }),
{
    let s = seq![0x1bu8, 0x5bu8, 0x32u8, 0x4au8];
    let r1 = step(p, t, 0x1b);
    let r2 = step(r1.0, r1.1, 0x5b);
    let r3 = step(r2.0, r2.1, 0x32);
    let r4 = step(r3.0, r3.1, 0x4a);
    assert(s.skip(1) =~= seq![0x5bu8, 0x32u8, 0x4au8]);
    assert(seq![0x5bu8, 0x32u8, 0x4au8].skip(1) =~= seq![0x32u8, 0x4au8]);
    assert(seq![0x32u8, 0x4au8].skip(1) =~= seq![0x4au8]);
    assert(seq![0x4au8].skip(1) =~= Seq::<u8>::empty());
    assert(steps(p, t, s) == steps(r1.0, r1.1, seq![0x5bu8, 0x32u8, 0x4au8]));
    assert(steps(r1.0, r1.1, seq![0x5bu8, 0x32u8, 0x4au8]) == steps(r2.0, r2.1, seq![0x32u8, 0x4au8]));
    assert(steps(r2.0, r2.1, seq![0x32u8, 0x4au8]) == steps(r3.0, r3.1, seq![0x4au8]));
    assert(steps(r3.0, r3.1, seq![0x4au8]) == steps(r4.0, r4.1, Seq::<u8>::empty()));
    assert(steps(r4.0, r4.1, Seq::<u8>::empty()) == (r4.0, r4.1));
    assert(r3.0.csi.buf =~= seq![0x32u8]);
    let buf = seq![0x32u8, 0x4au8];
    assert(r3.0.csi.buf.push(0x4a) =~= buf);
    assert(scan_args(buf, 0, Seq::empty(), Option::None) == scan_args(
        buf,
        1,
        Seq::empty(),
        Option::Some(2),
    ));
    assert(scan_args(buf, 1, Seq::empty(), Option::Some(2)) == scan_args(
        buf,
        1,
        Seq::empty().push(2i32),
        Option::None,
    ));
    assert(scan_args(buf, 1, Seq::empty().push(2i32), Option::None) == (
        1int,
        Seq::empty().push(2i32),
    ));
    assert(r4.0.csi.args == Seq::empty().push(2i32));
    assert(arg_v(r4.0.csi, 0, 0) == 2);
    assert(r4.1 == cleared(t, 0, 0, t.cols - 1, t.rows - 1));
    lemma_mul_distrib(t.rows - 1, 1, t.cols);
    lemma_cell_in_grid(t.cols - 1, t.rows - 1, t.cols, t.rows);
    lemma_mul_basics(t.cols);
    assert((t.rows - 1) * t.cols + (t.cols - 1) == t.rows * t.cols - 1);
    assert(r4.1.grid.len() == t.grid.len());
    assert forall|i: int| 0 <= i < r4.1.grid.len() implies r4.1.grid[i] == default_glyph() by {
        assert((t.rows - 1) * t.cols + (t.cols - 1) == t.rows * t.cols - 1);
    }
    assert forall|y: int| 0 <= y < r4.1.dirty.len() implies r4.1.dirty[y] by {
    }
}

/// An unknown CSI sequence (here `CSI 99 z`, whose final byte `z` names no
/// operation) fed to a decoder at ground leaves the grid and the cursor
/// completely unchanged, and the decoder returns cleanly to ground, ready
/// for the next sequence.
pub proof fn lemma_unknown_csi_ignored(p: ParserView, t: TermView)
    requires
        p.state == ParserState::Ground,
        t.wf(),
    ensures
        steps(p, t, seq![0x1bu8, 0x5bu8, 0x39u8, 0x39u8, 0x7au8]).1 == t,
        steps(p, t, seq![0x1bu8, 0x5bu8, 0x39u8, 0x39u8, 0x7au8]).0.state == ParserState::Ground,
{
    let s = seq![0x1bu8, 0x5bu8, 0x39u8, 0x39u8, 0x7au8];
    let r1 = step(p, t, 0x1b);
    let r2 = step(r1.0, r1.1, 0x5b);
    let r3 = step(r2.0, r2.1, 0x39);
    let r4 = step(r3.0, r3.1, 0x39);
    let r5 = step(r4.0, r4.1, 0x7a);
    assert(s.skip(1) =~= seq![0x5bu8, 0x39u8, 0x39u8, 0x7au8]);
    assert(seq![0x5bu8, 0x39u8, 0x39u8, 0x7au8].skip(1) =~= seq![0x39u8, 0x39u8, 0x7au8]);
    assert(seq![0x39u8, 0x39u8, 0x7au8].skip(1) =~= seq![0x39u8, 0x7au8]);
    assert(seq![0x39u8, 0x7au8].skip(1) =~= seq![0x7au8]);
    assert(seq![0x7au8].skip(1) =~= Seq::<u8>::empty());
    assert(steps(p, t, s) == steps(r1.0, r1.1, seq![0x5bu8, 0x39u8, 0x39u8, 0x7au8]));
    assert(steps(r1.0, r1.1, seq![0x5bu8, 0x39u8, 0x39u8, 0x7au8]) == steps(
        r2.0,
        r2.1,
        seq![0x39u8, 0x39u8, 0x7au8],
    ));
    assert(steps(r2.0, r2.1, seq![0x39u8, 0x39u8, 0x7au8]) == steps(r3.0, r3.1, seq![0x39u8, 0x7au8]));
    assert(steps(r3.0, r3.1, seq![0x39u8, 0x7au8]) == steps(r4.0, r4.1, seq![0x7au8]));
    assert(steps(r4.0, r4.1, seq![0x7au8]) == steps(r5.0, r5.1, Seq::<u8>::empty()));
    assert(steps(r5.0, r5.1, Seq::<u8>::empty()) == (r5.0, r5.1));
}

/// A graphic-rendition reset (`CSI 0 m`) followed by a printable character
/// writes that character with the default attributes — foreground 7,
/// background 0, no attribute flags — into the cell the cursor occupied
/// before the print, for every starting attribute state. The one family of
/// starting states left out is a cursor on the very last cell of the grid,
/// where the print itself scrolls the grid and the written row shifts up.
pub proof fn lemma_sgr_reset_print(p: ParserView, t: TermView, c: u8)
    requires
        p.state == ParserState::Ground,
        t.wf(),
        0x20 <= c <= 0x7e,
        t.cur_x + 1 < t.cols || t.cur_y + 1 < t.rows,
    ensures
        ({
            let r = steps(p, t, seq![0x1bu8, 0x5bu8, 0x30u8, 0x6du8, c]);
            &&& r.1.grid.len() == t.grid.len()
            &&& r.1.grid[t.cur_y * t.cols + t.cur_x] == (Glyph {
                rune: c as u32,
                fg: 7,
                bg: 0,
                attrs: 0,
            })
        }),
{
    let s = seq![0x1bu8, 0x5bu8, 0x30u8, 0x6du8, c];
    let r1 = step(p, t, 0x1b);
    let r2 = step(r1.0, r1.1, 0x5b);
    let r3 = step(r2.0, r2.1, 0x30);
    let r4 = step(r3.0, r3.1, 0x6d);
    let r5 = step(r4.0, r4.1, c);
    assert(s.skip(1) =~= seq![0x5bu8, 0x30u8, 0x6du8, c]);
    assert(seq![0x5bu8, 0x30u8, 0x6du8, c].skip(1) =~= seq![0x30u8, 0x6du8, c]);
    assert(seq![0x30u8, 0x6du8, c].skip(1) =~= seq![0x6du8, c]);
    assert(seq![0x6du8, c].skip(1) =~= seq![c]);
    assert(seq![c].skip(1) =~= Seq::<u8>::empty());
    assert(steps(p, t, s) == steps(r1.0, r1.1, seq![0x5bu8, 0x30u8, 0x6du8, c]));
    assert(steps(r1.0, r1.1, seq![0x5bu8, 0x30u8, 0x6du8, c]) == steps(
        r2.0,
        r2.1,
        seq![0x30u8, 0x6du8, c],
    ));
    assert(steps(r2.0, r2.1, seq![0x30u8, 0x6du8, c]) == steps(r3.0, r3.1, seq![0x6du8, c]));
    assert(steps(r3.0, r3.1, seq![0x6du8, c]) == steps(r4.0, r4.1, seq![c]));
    assert(steps(r4.0, r4.1, seq![c]) == steps(r5.0, r5.1, Seq::<u8>::empty()));
    assert(steps(r5.0, r5.1, Seq::<u8>::empty()) == (r5.0, r5.1));
    assert(r3.0.csi.buf =~= seq![0x30u8]);
    let buf = seq![0x30u8, 0x6du8];
    assert(r3.0.csi.buf.push(0x6d) =~= buf);
    assert(scan_args(buf, 0, Seq::empty(), Option::None) == scan_args(
        buf,
        1,
        Seq::empty(),
        Option::Some(0),
    ));
    assert(scan_args(buf, 1, Seq::empty(), Option::Some(0)) == scan_args(
        buf,
        1,
        Seq::empty().push(0i32),
        Option::None,
    ));
    assert(scan_args(buf, 1, Seq::empty().push(0i32), Option::None) == (
        1int,
        Seq::empty().push(0i32),
    ));
    assert(r4.0.csi.args == Seq::empty().push(0i32));
    assert(sgr_fold(t.attr, Seq::empty().push(0i32), 0) == sgr_fold(
        default_glyph(),
        Seq::empty().push(0i32),
        1,
    ));
    assert(sgr_fold(default_glyph(), Seq::empty().push(0i32), 1) == default_glyph());
    assert(r4.1.attr == default_glyph());
    assert(r4.1.cur_x == t.cur_x && r4.1.cur_y == t.cur_y);
    assert(r4.1.grid == t.grid);
    lemma_cell_in_grid(t.cur_x, t.cur_y, t.cols, t.rows);
}

} // verus!
