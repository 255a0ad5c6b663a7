//! The byte decoder: an escape-sequence state machine that consumes one
//! input byte at a time and drives a [`Term`].
//!
//! Malformed or unsupported input is silently absorbed and parsing resumes
//! at ground; the decoder never fails. The in-progress sequence buffers are
//! bounded and append saturates: bytes of an over-long sequence are dropped
//! but parsing continues until the final byte is seen.

use vstd::prelude::*;
use vstd::pervasive::VecAdditionalExecFns;

use crate::glyph::ATTR_BLINK;
use crate::glyph::ATTR_BOLD;
use crate::glyph::ATTR_FAINT;
use crate::glyph::ATTR_INVISIBLE;
use crate::glyph::ATTR_ITALIC;
use crate::glyph::ATTR_REVERSE;
use crate::glyph::ATTR_STRUCK;
use crate::glyph::ATTR_UNDERLINE;
use crate::glyph::Glyph;
use crate::glyph::default_glyph;
use crate::term::MODE_ALTSCREEN;
use crate::term::MODE_WRAP;
use crate::term::Term;
use crate::term::TermView;
use crate::term::cleared;
use crate::term::deleted_chars;
use crate::term::deleted_lines;
use crate::term::fresh_view;
use crate::term::iclamp;
use crate::term::imin;
use crate::term::inserted_blank;
use crate::term::inserted_lines;
use crate::term::line_fed;
use crate::term::moved_by;
use crate::term::moved_to;
use crate::term::newlined;
use crate::term::put_char_v;
use crate::term::scrolled_down;
use crate::term::scrolled_up;

verus! {

/// Capacity of the in-progress escape-sequence byte buffer.
pub const ESC_BUF_SIZ: usize = 512;

/// Capacity of the parsed argument list.
pub const ESC_ARG_SIZ: usize = 16;

/// Capacity of the string-sequence (OSC) byte buffer.
pub const STR_BUF_SIZ: usize = 512;

/// The decoder's position in the escape-sequence grammar.
#[derive(Clone, Copy, PartialEq, Eq, Structural, Debug)]
pub enum ParserState {
    Ground,
    Escape,
    EscapeIntermediate,
    CsiEntry,
    CsiParam,
    CsiIntermediate,
    CsiIgnore,
    OscString,
    DcsEntry,
    DcsPassthrough,
    SosPmApcString,
}

/// The accumulators of an in-progress CSI sequence: the raw bytes, the
/// private-mode flag (a leading `?`), the parsed argument list, and a
/// two-byte final/mode capture.
pub struct CsiEscape {
    pub buf: Vec<u8>,
    pub priv_mode: bool,
    pub args: Vec<i32>,
    pub mode: (u8, u8),
}

/// The mathematical state of the CSI accumulators.
pub ghost struct CsiView {
    pub buf: Seq<u8>,
    pub priv_mode: bool,
    pub args: Seq<i32>,
    pub mode0: u8,
    pub mode1: u8,
}

impl View for CsiEscape {
    type V = CsiView;

    open spec fn view(&self) -> CsiView {
        CsiView {
            buf: self.buf@,
            priv_mode: self.priv_mode,
            args: self.args@,
            mode0: self.mode.0,
            mode1: self.mode.1,
        }
    }
}

/// Internal consistency of the CSI accumulators: bounded buffers and
/// nonnegative arguments.
pub open spec fn csi_wf(c: CsiView) -> bool {
    &&& c.buf.len() <= ESC_BUF_SIZ
    &&& c.args.len() <= ESC_ARG_SIZ
    &&& forall|i: int| 0 <= i < c.args.len() ==> c.args[i] >= 0
}

/// The CSI accumulators after a reset.
pub open spec fn empty_csi() -> CsiView {
    CsiView { buf: Seq::empty(), priv_mode: false, args: Seq::empty(), mode0: 0, mode1: 0 }
}

/// Whether `b` is an ASCII decimal digit.
pub open spec fn is_digit(b: u8) -> bool {
    0x30 <= b && b <= 0x39
}

/// One decimal digit appended to an accumulated argument value, saturating
/// at the largest 32-bit value on over-long digit runs.
pub open spec fn sat_digit(v: i32, b: u8) -> i32 {
    if v * 10 + (b - 0x30) > i32::MAX {
        i32::MAX
    } else {
        (v * 10 + (b - 0x30)) as i32
    }
}

/// The argument scan of a CSI parameter string, one byte at a time from
/// position `i`: a digit extends the argument being accumulated (`cur`); a
/// byte ending a digit run records it; a `;` with no preceding digits, or a
/// doubled `;`, records an explicit 0; any other byte, or a full argument
/// list, stops the scan. Returns the stop position and the argument list.
pub open spec fn scan_args(buf: Seq<u8>, i: int, args: Seq<i32>, cur: Option<i32>) -> (int, Seq<
    i32,
>)
    decreases buf.len() - i, (if cur is Some { 1int } else { 0int }),
{
    if i < 0 || i > buf.len() {
        (i, args)
    } else if i == buf.len() {
        match cur {
            Option::Some(v) => (i, args.push(v)),
            Option::None => (i, args),
        }
    } else if cur is Some {
        let v = cur->0;
        if is_digit(buf[i]) {
            scan_args(buf, i + 1, args, Option::Some(sat_digit(v, buf[i])))
        } else if args.len() + 1 < ESC_ARG_SIZ {
            scan_args(buf, i, args.push(v), Option::None)
        } else {
            (i, args.push(v))
        }
    } else {
        if args.len() >= ESC_ARG_SIZ {
            (i, args)
        } else if is_digit(buf[i]) {
            scan_args(buf, i + 1, args, Option::Some(sat_digit(0, buf[i])))
        } else if buf[i] == 0x3b {
            if args.len() == 0 || (i > 0 && buf[i - 1] == 0x3b) {
                scan_args(buf, i + 1, args.push(0), Option::None)
            } else {
                scan_args(buf, i + 1, args, Option::None)
            }
        } else {
            (i, args)
        }
    }
}

/// The CSI accumulators after parsing the raw byte buffer: a leading `?`
/// sets the private-mode flag, the argument scan starts after it, and the
/// two bytes at the stop position are captured as the final/mode bytes
/// (each left unchanged where the buffer ends first).
pub open spec fn parsed(c: CsiView) -> CsiView {
    let has_priv = c.buf.len() > 0 && c.buf[0] == 0x3f;
    let start: int = if has_priv {
        1
    } else {
        0
    };
    let r = scan_args(c.buf, start, Seq::empty(), Option::None);
    CsiView {
        buf: c.buf,
        priv_mode: c.priv_mode || has_priv,
        args: r.1,
        mode0: if r.0 < c.buf.len() {
            c.buf[r.0]
        } else {
            c.mode0
        },
        mode1: if r.0 + 1 < c.buf.len() {
            c.buf[r.0 + 1]
        } else {
            c.mode1
        },
    }
}

/// The argument at `idx`: `default` where the argument was never supplied
/// or was supplied as 0 ("absent" and "explicit zero" are deliberately
/// conflated, matching terminal convention).
pub open spec fn arg_v(c: CsiView, idx: int, default: i32) -> i32 {
    if 0 <= idx < c.args.len() && c.args[idx] != 0 {
        c.args[idx]
    } else {
        default
    }
}

impl Default for CsiEscape {
    /// Fresh CSI accumulators.
    fn default() -> (c: CsiEscape)
        ensures
            c@ == empty_csi(),
            csi_wf(c@),
    {
        let c = CsiEscape { buf: Vec::new(), priv_mode: false, args: Vec::new(), mode: (0, 0) };
        proof {
            assert(c@.buf =~= empty_csi().buf);
            assert(c@.args =~= empty_csi().args);
        }
        c
    }
}

impl CsiEscape {
    /// Clear all accumulators for a new sequence.
    pub fn reset(&mut self)
        ensures
            final(self)@ == empty_csi(),
            csi_wf(final(self)@),
    {
        self.buf.clear();
        self.priv_mode = false;
        self.args.clear();
        self.mode = (0, 0);
        proof {
            assert(self@.buf =~= empty_csi().buf);
            assert(self@.args =~= empty_csi().args);
        }
    }

    /// Parse the accumulated raw bytes into the private-mode flag, the
    /// argument list, and the final/mode capture.
    pub fn parse(&mut self)
        ensures
            final(self)@ == parsed(old(self)@),
            final(self)@.buf == old(self)@.buf,
            final(self)@.args.len() <= ESC_ARG_SIZ,
            forall|k: int|
                0 <= k < final(self)@.args.len() ==> final(self)@.args[k] >= 0,
    {
        let ghost orig = self@;
        let n = self.buf.len();
        let mut i: usize = 0;
        if n > 0 && self.buf[0] == 0x3f {
            self.priv_mode = true;
            i = 1;
        }
        let ghost start = i as int;
        let mut args: Vec<i32> = Vec::new();
        proof {
            assert(args@ =~= Seq::<i32>::empty());
        }
        let mut stopped = false;
        while !stopped && i < n && args.len() < ESC_ARG_SIZ
            invariant
                self.buf == old(self).buf,
                self.mode == old(self).mode,
                n == self.buf@.len(),
                n <= usize::MAX,
                i <= n,
                args@.len() <= ESC_ARG_SIZ,
                forall|k: int| 0 <= k < args@.len() ==> args@[k] >= 0,
                scan_args(self.buf@, start, Seq::empty(), Option::None) == scan_args(
                    self.buf@,
                    i as int,
                    args@,
                    Option::None,
                ),
                stopped ==> i < n && !is_digit(self.buf@[i as int]) && self.buf@[i as int] != 0x3b,
            decreases 2 * (n - i) + (if stopped { 0int } else { 1int }),
        {
            let b = self.buf[i];
            if b >= 0x30 && b <= 0x39 {
                let mut val: i32 = (b - 0x30) as i32;
                i = i + 1;
                let ghost i_run = i as int;
                while i < n && self.buf[i] >= 0x30 && self.buf[i] <= 0x39
                    invariant
                        self.buf == old(self).buf,
                        n == self.buf@.len(),
                        i_run <= i as int,
                        i <= n,
                        val >= 0,
                        args@.len() < ESC_ARG_SIZ,
                        forall|k: int| 0 <= k < args@.len() ==> args@[k] >= 0,
                        scan_args(self.buf@, start, Seq::empty(), Option::None) == scan_args(
                            self.buf@,
                            i as int,
                            args@,
                            Option::Some(val),
                        ),
                    decreases n - i,
                {
                    let d = (self.buf[i] - 0x30) as i32;
                    let w = val as i64 * 10 + d as i64;
                    val = if w > i32::MAX as i64 {
                        i32::MAX
                    } else {
                        w as i32
                    };
                    i = i + 1;
                }
                args.push(val);
            } else if b == 0x3b {
                if args.len() == 0 || (i > 0 && self.buf[i - 1] == 0x3b) {
                    args.push(0);
                }
                i = i + 1;
            } else {
                stopped = true;
            }
        }
        proof {
            assert(scan_args(self.buf@, i as int, args@, Option::None) == (i as int, args@));
        }
        if i < n {
            let m0 = self.buf[i];
            self.mode.0 = m0;
            if i + 1 < n {
                let m1 = self.buf[i + 1];
                self.mode.1 = m1;
            }
        }
        self.args = args;
    }

    /// The argument at `idx`, with `default` standing in for an absent or
    /// zero argument.
    #[inline]
    pub fn arg(&self, idx: usize, default: i32) -> (r: i32)
        ensures
            r == arg_v(self@, idx as int, default),
    {
        if idx < self.args.len() && self.args[idx] != 0 {
            self.args[idx]
        } else {
            default
        }
    }
}


/// The cursor state after the decoder's backspace: left one column, or the
/// end of the previous row when it sits in column 0 of a row below the
/// first; at the origin nothing happens. The rows the cursor leaves and
/// enters are dirty. No cell is erased.
pub open spec fn cursor_back(t: TermView) -> TermView {
    if t.cur_x > 0 {
        TermView { cur_x: t.cur_x - 1, dirty: t.dirty.update(t.cur_y, true), ..t }
    } else if t.cur_y > 0 {
        TermView {
            cur_x: t.cols - 1,
            cur_y: t.cur_y - 1,
            dirty: t.dirty.update(t.cur_y, true).update(t.cur_y - 1, true),
            ..t
        }
    } else {
        t
    }
}

/// The cursor state after a horizontal tab: the next multiple-of-8 column,
/// clamped to the last column; the cursor's row is dirty.
pub open spec fn tabbed(t: TermView) -> TermView {
    TermView {
        cur_x: imin(t.cur_x - t.cur_x % 8 + 8, t.cols - 1),
        dirty: t.dirty.update(t.cur_y, true),
        ..t
    }
}

/// The cursor state after a carriage return: column 0; the cursor's row is
/// dirty.
pub open spec fn carriage_returned(t: TermView) -> TermView {
    TermView { cur_x: 0, dirty: t.dirty.update(t.cur_y, true), ..t }
}

/// The state after a reverse index: the cursor moves up one row and its new
/// row is dirty, or the grid scrolls down if the cursor is on the first
/// row.
pub open spec fn reverse_indexed(t: TermView) -> TermView {
    if t.cur_y == 0 {
        scrolled_down(t)
    } else {
        TermView { cur_y: t.cur_y - 1, dirty: t.dirty.update(t.cur_y - 1, true), ..t }
    }
}

/// The state after scrolling up `n` times.
pub open spec fn scrolled_up_n(t: TermView, n: int) -> TermView
    decreases n,
{
    if n <= 0 {
        t
    } else {
        scrolled_up(scrolled_up_n(t, n - 1))
    }
}

/// The state after scrolling down `n` times.
pub open spec fn scrolled_down_n(t: TermView, n: int) -> TermView
    decreases n,
{
    if n <= 0 {
        t
    } else {
        scrolled_down(scrolled_down_n(t, n - 1))
    }
}

/// The state after a set-mode or reset-mode sequence: only WRAP (mode 7)
/// and ALTSCREEN (mode 1049) are recognized; any other mode number is a
/// no-op. ALTSCREEN is tracked as a bit only; no second buffer is swapped
/// in.
pub open spec fn mode_set(t: TermView, a: i32, on: bool) -> TermView {
    if a == 7 {
        TermView {
            mode: if on {
                t.mode | MODE_WRAP
            } else {
                t.mode & !MODE_WRAP
            },
            ..t
        }
    } else if a == 1049 {
        TermView {
            mode: if on {
                t.mode | MODE_ALTSCREEN
            } else {
                t.mode & !MODE_ALTSCREEN
            },
            ..t
        }
    } else {
        t
    }
}

/// A count argument turned into a 0-based index: one less than the
/// argument, and 0 for arguments below 1.
pub open spec fn less_one(a: i32) -> int {
    if a >= 1 {
        a - 1
    } else {
        0
    }
}

/// A color channel mapped to its 0-5 cube level: `round(channel * 5 / 255)`.
pub open spec fn rgb_level(c: int) -> int {
    (c * 5 + 127) / 255
}

/// An R,G,B triple (each channel clamped to 0-255) quantized to a 256-color
/// index: equal channels map onto the 24-step grayscale ramp (black below
/// 8, white above 248, else `232 + (v-8)/10`, capped at the last index);
/// unequal channels map onto the 6x6x6 color cube at
/// `16 + 36*r + 6*g + b` by level.
pub open spec fn rgb_to_index(r: i32, g: i32, b: i32) -> u8 {
    let rc = iclamp(r as int, 0, 255);
    let gc = iclamp(g as int, 0, 255);
    let bc = iclamp(b as int, 0, 255);
    if rc == gc && gc == bc {
        if rc < 8 {
            16u8
        } else if rc > 248 {
            231u8
        } else {
            imin(232 + (rc - 8) / 10, 255) as u8
        }
    } else {
        (16 + 36 * rgb_level(rc) + 6 * rgb_level(gc) + rgb_level(bc)) as u8
    }
}

/// The pending attribute state after applying the SGR arguments from
/// position `i` on, left to right: 0 resets everything; 1-9 set BOLD,
/// FAINT, ITALIC, UNDERLINE, BLINK (5 or 6), REVERSE, INVISIBLE and STRUCK;
/// 22-29 clear them again (22 clears the BOLD/FAINT pair); 30-37, 39 and
/// 90-97 select the foreground; 40-47, 49 and 100-107 the background; 38
/// and 48 select an extended color (`5;index` or `2;r;g;b`, arguments
/// consumed even when out of range, a truncated tail consuming the rest);
/// anything else is a no-op.
pub open spec fn sgr_fold(g: Glyph, args: Seq<i32>, i: int) -> Glyph
    decreases args.len() - i,
{
    if i < 0 || i >= args.len() {
        g
    } else {
        let a = args[i];
        if a == 0 {
            sgr_fold(default_glyph(), args, i + 1)
        } else if a == 1 {
            sgr_fold(Glyph { attrs: g.attrs | ATTR_BOLD, ..g }, args, i + 1)
        } else if a == 2 {
            sgr_fold(Glyph { attrs: g.attrs | ATTR_FAINT, ..g }, args, i + 1)
        } else if a == 3 {
            sgr_fold(Glyph { attrs: g.attrs | ATTR_ITALIC, ..g }, args, i + 1)
        } else if a == 4 {
            sgr_fold(Glyph { attrs: g.attrs | ATTR_UNDERLINE, ..g }, args, i + 1)
        } else if a == 5 || a == 6 {
            sgr_fold(Glyph { attrs: g.attrs | ATTR_BLINK, ..g }, args, i + 1)
        } else if a == 7 {
            sgr_fold(Glyph { attrs: g.attrs | ATTR_REVERSE, ..g }, args, i + 1)
        } else if a == 8 {
            sgr_fold(Glyph { attrs: g.attrs | ATTR_INVISIBLE, ..g }, args, i + 1)
        } else if a == 9 {
            sgr_fold(Glyph { attrs: g.attrs | ATTR_STRUCK, ..g }, args, i + 1)
        } else if a == 22 {
            sgr_fold(Glyph { attrs: g.attrs & !(ATTR_BOLD | ATTR_FAINT), ..g }, args, i + 1)
        } else if a == 23 {
            sgr_fold(Glyph { attrs: g.attrs & !ATTR_ITALIC, ..g }, args, i + 1)
        } else if a == 24 {
            sgr_fold(Glyph { attrs: g.attrs & !ATTR_UNDERLINE, ..g }, args, i + 1)
        } else if a == 25 {
            sgr_fold(Glyph { attrs: g.attrs & !ATTR_BLINK, ..g }, args, i + 1)
        } else if a == 27 {
            sgr_fold(Glyph { attrs: g.attrs & !ATTR_REVERSE, ..g }, args, i + 1)
        } else if a == 28 {
            sgr_fold(Glyph { attrs: g.attrs & !ATTR_INVISIBLE, ..g }, args, i + 1)
        } else if a == 29 {
            sgr_fold(Glyph { attrs: g.attrs & !ATTR_STRUCK, ..g }, args, i + 1)
        } else if 30 <= a && a <= 37 {
            sgr_fold(Glyph { fg: (a - 30) as u8, ..g }, args, i + 1)
        } else if a == 38 {
            if i + 1 >= args.len() {
                g
            } else if args[i + 1] == 5 {
                if i + 2 < args.len() {
                    let v = args[i + 2];
                    let g2 = if 0 <= v && v <= 255 {
                        Glyph { fg: v as u8, ..g }
                    } else {
                        g
                    };
                    sgr_fold(g2, args, i + 3)
                } else {
                    g
                }
            } else if args[i + 1] == 2 {
                if i + 4 < args.len() {
                    sgr_fold(
                        Glyph { fg: rgb_to_index(args[i + 2], args[i + 3], args[i + 4]), ..g },
                        args,
                        i + 5,
                    )
                } else {
                    g
                }
            } else {
                sgr_fold(g, args, i + 2)
            }
        } else if a == 39 {
            sgr_fold(Glyph { fg: 7, ..g }, args, i + 1)
        } else if 40 <= a && a <= 47 {
            sgr_fold(Glyph { bg: (a - 40) as u8, ..g }, args, i + 1)
        } else if a == 48 {
            if i + 1 >= args.len() {
                g
            } else if args[i + 1] == 5 {
                if i + 2 < args.len() {
                    let v = args[i + 2];
                    let g2 = if 0 <= v && v <= 255 {
                        Glyph { bg: v as u8, ..g }
                    } else {
                        g
                    };
                    sgr_fold(g2, args, i + 3)
                } else {
                    g
                }
            } else if args[i + 1] == 2 {
                if i + 4 < args.len() {
                    sgr_fold(
                        Glyph { bg: rgb_to_index(args[i + 2], args[i + 3], args[i + 4]), ..g },
                        args,
                        i + 5,
                    )
                } else {
                    g
                }
            } else {
                sgr_fold(g, args, i + 2)
            }
        } else if a == 49 {
            sgr_fold(Glyph { bg: 0, ..g }, args, i + 1)
        } else if 90 <= a && a <= 97 {
            sgr_fold(Glyph { fg: (a - 90 + 8) as u8, ..g }, args, i + 1)
        } else if 100 <= a && a <= 107 {
            sgr_fold(Glyph { bg: (a - 100 + 8) as u8, ..g }, args, i + 1)
        } else {
            sgr_fold(g, args, i + 1)
        }
    }
}

/// The state after an SGR sequence: the pending attribute state folds over
/// the arguments, and the cursor's row is marked dirty.
pub open spec fn sgr_applied(t: TermView, args: Seq<i32>) -> TermView {
    TermView { attr: sgr_fold(t.attr, args, 0), dirty: t.dirty.update(t.cur_y, true), ..t }
}

/// The effect of a complete CSI sequence on the terminal, by its final byte
/// `f` and the parsed accumulators `c`: the dispatch table of the decoder.
/// Index and count arguments are clamped against the grid inside the
/// operations; recognized-but-unimplemented finals (DSR, DECSTBM, SCOSC,
/// SCORC) and unknown finals leave the terminal unchanged.
pub open spec fn dispatched(t: TermView, c: CsiView, f: u8) -> TermView {
    let n = arg_v(c, 0, 1);
    if f == 0x40 {
        // '@' ICH
        inserted_blank(t, n as int)
    } else if f == 0x41 {
        // 'A' CUU
        moved_by(t, 0, -(n as int))
    } else if f == 0x42 || f == 0x65 {
        // 'B'/'e' CUD
        moved_by(t, 0, n as int)
    } else if f == 0x43 || f == 0x61 {
        // 'C'/'a' CUF
        moved_by(t, n as int, 0)
    } else if f == 0x44 {
        // 'D' CUB
        moved_by(t, -(n as int), 0)
    } else if f == 0x45 {
        // 'E' CNL
        moved_by(TermView { cur_x: 0, ..t }, 0, n as int)
    } else if f == 0x46 {
        // 'F' CPL
        moved_by(TermView { cur_x: 0, ..t }, 0, -(n as int))
    } else if f == 0x47 || f == 0x60 {
        // 'G'/'`' CHA
        moved_to(t, less_one(arg_v(c, 0, 1)), t.cur_y)
    } else if f == 0x48 || f == 0x66 {
        // 'H'/'f' CUP
        moved_to(t, less_one(arg_v(c, 1, 1)), less_one(arg_v(c, 0, 1)))
    } else if f == 0x4a {
        // 'J' ED
        let a = arg_v(c, 0, 0);
        if a == 0 {
            cleared(t, t.cur_x, t.cur_y, t.cols - 1, t.rows - 1)
        } else if a == 1 {
            cleared(t, 0, 0, t.cur_x, t.cur_y)
        } else if a == 2 || a == 3 {
            cleared(t, 0, 0, t.cols - 1, t.rows - 1)
        } else {
            t
        }
    } else if f == 0x4b {
        // 'K' EL
        let a = arg_v(c, 0, 0);
        if a == 0 {
            cleared(t, t.cur_x, t.cur_y, t.cols - 1, t.cur_y)
        } else if a == 1 {
            cleared(t, 0, t.cur_y, t.cur_x, t.cur_y)
        } else if a == 2 {
            cleared(t, 0, t.cur_y, t.cols - 1, t.cur_y)
        } else {
            t
        }
    } else if f == 0x4c {
        // 'L' IL
        inserted_lines(t, n as int)
    } else if f == 0x4d {
        // 'M' DL
        deleted_lines(t, n as int)
    } else if f == 0x50 {
        // 'P' DCH
        deleted_chars(t, n as int)
    } else if f == 0x53 {
        // 'S' SU
        scrolled_up_n(t, n as int)
    } else if f == 0x54 {
        // 'T' SD
        scrolled_down_n(t, n as int)
    } else if f == 0x58 {
        // 'X' ECH
        cleared(t, t.cur_x, t.cur_y, imin(t.cur_x + n - 1, t.cols - 1), t.cur_y)
    } else if f == 0x64 {
        // 'd' VPA
        moved_to(t, t.cur_x, less_one(arg_v(c, 0, 1)))
    } else if f == 0x68 {
        // 'h' SM
        mode_set(t, arg_v(c, 0, 0), true)
    } else if f == 0x6c {
        // 'l' RM
        mode_set(t, arg_v(c, 0, 0), false)
    } else if f == 0x6d {
        // 'm' SGR
        sgr_applied(t, c.args)
    } else {
        t
    }
}

/// The mathematical state of the decoder: its grammar position and the
/// contents of its accumulators.
pub ghost struct ParserView {
    pub state: ParserState,
    pub csi: CsiView,
    pub osc: Seq<u8>,
}

/// Internal consistency of the decoder: bounded accumulators.
pub open spec fn parser_wf(p: ParserView) -> bool {
    &&& csi_wf(p.csi)
    &&& p.osc.len() <= STR_BUF_SIZ
}

/// A freshly constructed decoder: at ground with empty accumulators.
pub open spec fn fresh_parser() -> ParserView {
    ParserView { state: ParserState::Ground, csi: empty_csi(), osc: Seq::empty() }
}

/// A byte appended to the CSI raw buffer, dropped once the buffer is full.
pub open spec fn csi_push(c: CsiView, b: u8) -> CsiView {
    if c.buf.len() < ESC_BUF_SIZ {
        CsiView { buf: c.buf.push(b), ..c }
    } else {
        c
    }
}

/// A byte appended to the OSC buffer, dropped once the buffer is full.
pub open spec fn osc_push(s: Seq<u8>, b: u8) -> Seq<u8> {
    if s.len() < STR_BUF_SIZ {
        s.push(b)
    } else {
        s
    }
}

/// Whether `b` continues a CSI parameter string: a digit, `;`, `?` or `:`.
pub open spec fn is_csi_param_byte(b: u8) -> bool {
    is_digit(b) || b == 0x3b || b == 0x3f || b == 0x3a
}

/// Whether `b` ends a CSI sequence: a final byte in `0x40..=0x7E`.
pub open spec fn is_csi_final(b: u8) -> bool {
    0x40 <= b && b <= 0x7e
}

/// One byte consumed at ground: control codes move the cursor or scroll,
/// ESC and the 8-bit C1 introducers enter their sequence states, printable
/// ASCII is written at the cursor, and everything else (including
/// multi-byte UTF-8 lead and continuation bytes) is ignored.
pub open spec fn ground_step(p: ParserView, t: TermView, c: u8) -> (ParserView, TermView) {
    if c == 0x08 {
        (p, cursor_back(t))
    } else if c == 0x09 {
        (p, tabbed(t))
    } else if c == 0x0a || c == 0x0b || c == 0x0c {
        (p, line_fed(t))
    } else if c == 0x0d {
        (p, carriage_returned(t))
    } else if c == 0x1b {
        (ParserView { state: ParserState::Escape, ..p }, t)
    } else if 0x20 <= c && c <= 0x7e {
        (p, put_char_v(t, c as char))
    } else if c == 0x84 {
        (p, line_fed(t))
    } else if c == 0x85 {
        (p, newlined(t))
    } else if c == 0x8d {
        (p, reverse_indexed(t))
    } else if c == 0x90 {
        (ParserView { state: ParserState::DcsEntry, ..p }, t)
    } else if c == 0x9b {
        (ParserView { state: ParserState::CsiEntry, csi: empty_csi(), ..p }, t)
    } else if c == 0x9d {
        (ParserView { state: ParserState::OscString, osc: Seq::empty(), ..p }, t)
    } else {
        (p, t)
    }
}

/// One byte consumed after ESC: `[` and `]` enter the CSI and OSC states,
/// charset designators enter the intermediate state, and the one-byte
/// escapes act directly (index, next line, reverse index, full reset);
/// tab-set and cursor save/restore are recognized but left unimplemented.
/// Everything else returns to ground.
pub open spec fn escape_step(p: ParserView, t: TermView, c: u8) -> (ParserView, TermView) {
    if c == 0x5b {
        // '['
        (ParserView { state: ParserState::CsiEntry, csi: empty_csi(), ..p }, t)
    } else if c == 0x5d {
        // ']'
        (ParserView { state: ParserState::OscString, osc: Seq::empty(), ..p }, t)
    } else if c == 0x28 || c == 0x29 || c == 0x2a || c == 0x2b {
        // '(' ')' '*' '+'
        (ParserView { state: ParserState::EscapeIntermediate, ..p }, t)
    } else if c == 0x44 {
        // 'D' IND
        (ParserView { state: ParserState::Ground, ..p }, line_fed(t))
    } else if c == 0x45 {
        // 'E' NEL
        (ParserView { state: ParserState::Ground, ..p }, newlined(t))
    } else if c == 0x4d {
        // 'M' RI
        (ParserView { state: ParserState::Ground, ..p }, reverse_indexed(t))
    } else if c == 0x63 {
        // 'c' RIS
        (ParserView { state: ParserState::Ground, ..p }, fresh_view(t.cols, t.rows))
    } else {
        // 'H' (tab set), '7'/'8' (cursor save/restore), '\' (ST), unknown
        (ParserView { state: ParserState::Ground, ..p }, t)
    }
}

/// One byte consumed in CSI entry: parameter bytes accumulate (moving to
/// the parameter state), a final byte completes, parses and dispatches the
/// sequence, and anything else aborts to ground.
pub open spec fn csi_entry_step(p: ParserView, t: TermView, c: u8) -> (ParserView, TermView) {
    if is_csi_param_byte(c) {
        (ParserView { state: ParserState::CsiParam, csi: csi_push(p.csi, c), ..p }, t)
    } else if is_csi_final(c) {
        let c2 = parsed(csi_push(p.csi, c));
        (ParserView { state: ParserState::Ground, csi: c2, ..p }, dispatched(t, c2, c))
    } else {
        (ParserView { state: ParserState::Ground, ..p }, t)
    }
}

/// One byte consumed in CSI parameters: like CSI entry, staying in the
/// parameter state on parameter bytes.
pub open spec fn csi_param_step(p: ParserView, t: TermView, c: u8) -> (ParserView, TermView) {
    if is_csi_param_byte(c) {
        (ParserView { state: ParserState::CsiParam, csi: csi_push(p.csi, c), ..p }, t)
    } else if is_csi_final(c) {
        let c2 = parsed(csi_push(p.csi, c));
        (ParserView { state: ParserState::Ground, csi: c2, ..p }, dispatched(t, c2, c))
    } else {
        (ParserView { state: ParserState::Ground, ..p }, t)
    }
}

/// One byte consumed in an OSC string: BEL or the 8-bit ST terminate it
/// (the payload is discarded), ESC hands over to the escape state (for
/// `ESC \`), and anything else is buffered.
pub open spec fn osc_step(p: ParserView, t: TermView, c: u8) -> (ParserView, TermView) {
    if c == 0x07 || c == 0x9c {
        (ParserView { state: ParserState::Ground, ..p }, t)
    } else if c == 0x1b {
        (ParserView { state: ParserState::Escape, ..p }, t)
    } else {
        (ParserView { osc: osc_push(p.osc, c), ..p }, t)
    }
}

/// One byte consumed in an intermediate placeholder state — after a charset
/// designator, or in the CSI intermediate/ignore positions: the byte is
/// discarded with no effect on the terminal and the decoder returns to
/// ground.
pub open spec fn intermediate_step(p: ParserView, t: TermView, c: u8) -> (ParserView, TermView) {
    (ParserView { state: ParserState::Ground, ..p }, t)
}

/// One byte consumed inside a DCS or SOS/PM/APC string: the payload is
/// recognized only far enough to find its terminator and is otherwise
/// discarded. The 8-bit ST terminates the string, ESC hands over to the
/// escape state (for the two-byte `ESC \`), and every payload byte is
/// dropped.
pub open spec fn string_skip_step(p: ParserView, t: TermView, c: u8) -> (ParserView, TermView) {
    if c == 0x9c {
        (ParserView { state: ParserState::Ground, ..p }, t)
    } else if c == 0x1b {
        (ParserView { state: ParserState::Escape, ..p }, t)
    } else {
        (p, t)
    }
}

/// One byte consumed by the decoder, by its grammar position.
pub open spec fn step(p: ParserView, t: TermView, c: u8) -> (ParserView, TermView) {
    match p.state {
        ParserState::Ground => ground_step(p, t, c),
        ParserState::Escape => escape_step(p, t, c),
        ParserState::EscapeIntermediate => intermediate_step(p, t, c),
        ParserState::CsiEntry => csi_entry_step(p, t, c),
        ParserState::CsiParam => csi_param_step(p, t, c),
        ParserState::CsiIntermediate => intermediate_step(p, t, c),
        ParserState::CsiIgnore => intermediate_step(p, t, c),
        ParserState::OscString => osc_step(p, t, c),
        ParserState::DcsEntry => string_skip_step(p, t, c),
        ParserState::DcsPassthrough => string_skip_step(p, t, c),
        ParserState::SosPmApcString => string_skip_step(p, t, c),
    }
}

/// A whole byte sequence consumed by the decoder, front to back.
pub open spec fn steps(p: ParserView, t: TermView, s: Seq<u8>) -> (ParserView, TermView)
    decreases s.len(),
{
    if s.len() == 0 {
        (p, t)
    } else {
        let r = step(p, t, s[0]);
        steps(r.0, r.1, s.skip(1))
    }
}


/// An R,G,B triple quantized to a 256-color index, as [`rgb_to_index`]
/// states.
fn rgb_index(r: i32, g: i32, b: i32) -> (x: u8)
    ensures
        x == rgb_to_index(r, g, b),
{
    let rc: u32 = if r < 0 {
        0
    } else if r > 255 {
        255
    } else {
        r as u32
    };
    let gc: u32 = if g < 0 {
        0
    } else if g > 255 {
        255
    } else {
        g as u32
    };
    let bc: u32 = if b < 0 {
        0
    } else if b > 255 {
        255
    } else {
        b as u32
    };
    if rc == gc && gc == bc {
        if rc < 8 {
            16
        } else if rc > 248 {
            231
        } else {
            let v = 232 + (rc - 8) / 10;
            if v < 255 {
                v as u8
            } else {
                255
            }
        }
    } else {
        let lr = (rc * 5 + 127) / 255;
        let lg = (gc * 5 + 127) / 255;
        let lb = (bc * 5 + 127) / 255;
        (16 + 36 * lr + 6 * lg + lb) as u8
    }
}

/// The decoder. It owns no grid, only its own grammar position and
/// accumulators; a [`Term`] is handed to each processing call.
pub struct Parser {
    state: ParserState,
    csi: CsiEscape,
    osc_buf: Vec<u8>,
}

impl View for Parser {
    type V = ParserView;

    closed spec fn view(&self) -> ParserView {
        ParserView { state: self.state, csi: self.csi@, osc: self.osc_buf@ }
    }
}

impl Default for Parser {
    /// A fresh decoder at ground.
    fn default() -> (p: Parser)
        ensures
            p@ == fresh_parser(),
            parser_wf(p@),
    {
        Parser::new()
    }
}

impl Parser {
    /// A fresh decoder at ground with empty accumulators.
    pub fn new() -> (p: Parser)
        ensures
            p@ == fresh_parser(),
            parser_wf(p@),
    {
        let p = Parser {
            state: ParserState::Ground,
            csi: CsiEscape::default(),
            osc_buf: Vec::new(),
        };
        proof {
            assert(p@.osc =~= fresh_parser().osc);
        }
        p
    }

    /// One byte consumed at ground.
    fn ground(&mut self, term: &mut Term, c: u8)
        requires
            old(term)@.wf(),
            parser_wf(old(self)@),
        ensures
            final(self)@ == ground_step(old(self)@, old(term)@, c).0,
            final(term)@ == ground_step(old(self)@, old(term)@, c).1,
            final(term)@.wf(),
            parser_wf(final(self)@),
    {
        if c == 0x08 {
            // BS: left one column, or the end of the previous row.
            if term.cursor.x > 0 {
                term.cursor.x = term.cursor.x - 1;
                term.dirty.set(term.cursor.y, true);
            } else if term.cursor.y > 0 {
                let oy = term.cursor.y;
                term.cursor.y = oy - 1;
                term.cursor.x = term.cols - 1;
                term.dirty.set(oy, true);
                term.dirty.set(oy - 1, true);
            }
        } else if c == 0x09 {
            // HT: the next multiple-of-8 column, clamped to the last.
            let x = term.cursor.x;
            let rem = x % 8;
            let step_w = 8 - rem;
            let nx = if step_w < term.cols - 1 - x {
                x + step_w
            } else {
                term.cols - 1
            };
            term.cursor.x = nx;
            term.dirty.set(term.cursor.y, true);
        } else if c == 0x0a || c == 0x0b || c == 0x0c {
            // LF, VT, FF
            term.line_feed();
        } else if c == 0x0d {
            // CR
            term.cursor.x = 0;
            term.dirty.set(term.cursor.y, true);
        } else if c == 0x1b {
            // ESC
            self.state = ParserState::Escape;
        } else if 0x20 <= c && c <= 0x7e {
            // printable ASCII
            term.put_char(c as char);
        } else if c == 0x84 {
            // 8-bit IND
            term.line_feed();
        } else if c == 0x85 {
            // 8-bit NEL
            term.newline();
        } else if c == 0x8d {
            // 8-bit RI
            if term.cursor.y == 0 {
                term.scroll_down();
            } else {
                term.cursor.y = term.cursor.y - 1;
                term.dirty.set(term.cursor.y, true);
            }
        } else if c == 0x90 {
            // 8-bit DCS
            self.state = ParserState::DcsEntry;
        } else if c == 0x9b {
            // 8-bit CSI
            self.csi.reset();
            self.state = ParserState::CsiEntry;
        } else if c == 0x9d {
            // 8-bit OSC
            self.osc_buf.clear();
            self.state = ParserState::OscString;
            proof {
                assert(self@.osc =~= Seq::<u8>::empty());
            }
        }
        // NUL, BEL, DEL, 8-bit HTS/ST, UTF-8 lead and continuation bytes,
        // and the remaining control bytes are ignored.
    }

    /// One byte consumed after ESC.
    fn escape(&mut self, term: &mut Term, c: u8)
        requires
            old(term)@.wf(),
            parser_wf(old(self)@),
        ensures
            final(self)@ == escape_step(old(self)@, old(term)@, c).0,
            final(term)@ == escape_step(old(self)@, old(term)@, c).1,
            final(term)@.wf(),
            parser_wf(final(self)@),
    {
        if c == 0x5b {
            // '[' CSI
            self.csi.reset();
            self.state = ParserState::CsiEntry;
        } else if c == 0x5d {
            // ']' OSC
            self.osc_buf.clear();
            self.state = ParserState::OscString;
            proof {
                assert(self@.osc =~= Seq::<u8>::empty());
            }
        } else if c == 0x28 || c == 0x29 || c == 0x2a || c == 0x2b {
            // charset designation: recognized, not applied
            self.state = ParserState::EscapeIntermediate;
        } else if c == 0x44 {
            // 'D' IND
            term.line_feed();
            self.state = ParserState::Ground;
        } else if c == 0x45 {
            // 'E' NEL
            term.newline();
            self.state = ParserState::Ground;
        } else if c == 0x4d {
            // 'M' RI
            if term.cursor.y == 0 {
                term.scroll_down();
            } else {
                term.cursor.y = term.cursor.y - 1;
                term.dirty.set(term.cursor.y, true);
            }
            self.state = ParserState::Ground;
        } else if c == 0x63 {
            // 'c' RIS
            term.reset();
            self.state = ParserState::Ground;
        } else {
            // 'H' (tab set) and '7'/'8' (cursor save/restore) are
            // recognized placeholders; '\' is ST; anything else aborts.
            self.state = ParserState::Ground;
        }
    }

    /// One byte consumed in CSI entry.
    fn csi_entry(&mut self, term: &mut Term, c: u8)
        requires
            old(term)@.wf(),
            parser_wf(old(self)@),
        ensures
            final(self)@ == csi_entry_step(old(self)@, old(term)@, c).0,
            final(term)@ == csi_entry_step(old(self)@, old(term)@, c).1,
            final(term)@.wf(),
            parser_wf(final(self)@),
    {
        if (c >= 0x30 && c <= 0x39) || c == 0x3b || c == 0x3f || c == 0x3a {
            if self.csi.buf.len() < ESC_BUF_SIZ {
                self.csi.buf.push(c);
            }
            self.state = ParserState::CsiParam;
        } else if c >= 0x40 && c <= 0x7e {
            if self.csi.buf.len() < ESC_BUF_SIZ {
                self.csi.buf.push(c);
            }
            self.csi.parse();
            self.csi_dispatch(term, c);
            self.state = ParserState::Ground;
        } else {
            self.state = ParserState::Ground;
        }
    }

    /// One byte consumed in CSI parameters.
    fn csi_param(&mut self, term: &mut Term, c: u8)
        requires
            old(term)@.wf(),
            parser_wf(old(self)@),
        ensures
            final(self)@ == csi_param_step(old(self)@, old(term)@, c).0,
            final(term)@ == csi_param_step(old(self)@, old(term)@, c).1,
            final(term)@.wf(),
            parser_wf(final(self)@),
    {
        if (c >= 0x30 && c <= 0x39) || c == 0x3b || c == 0x3f || c == 0x3a {
            if self.csi.buf.len() < ESC_BUF_SIZ {
                self.csi.buf.push(c);
            }
            self.state = ParserState::CsiParam;
        } else if c >= 0x40 && c <= 0x7e {
            if self.csi.buf.len() < ESC_BUF_SIZ {
                self.csi.buf.push(c);
            }
            self.csi.parse();
            self.csi_dispatch(term, c);
            self.state = ParserState::Ground;
        } else {
            self.state = ParserState::Ground;
        }
    }

    /// One byte consumed in an OSC string. The payload is recognized only
    /// far enough to find its terminator and is otherwise discarded.
    #[allow(unused_variables)]
    fn osc_string(&mut self, term: &mut Term, c: u8)
        requires
            old(term)@.wf(),
            parser_wf(old(self)@),
        ensures
            final(self)@ == osc_step(old(self)@, old(term)@, c).0,
            final(term)@ == osc_step(old(self)@, old(term)@, c).1,
            final(term)@.wf(),
            parser_wf(final(self)@),
    {
        if c == 0x07 || c == 0x9c {
            // BEL or 8-bit ST terminates
            self.state = ParserState::Ground;
        } else if c == 0x1b {
            // ESC may begin the two-byte ST
            self.state = ParserState::Escape;
        } else {
            if self.osc_buf.len() < STR_BUF_SIZ {
                self.osc_buf.push(c);
            }
        }
    }

    /// One byte consumed in an intermediate placeholder state: discarded
    /// with no effect, back to ground.
    #[allow(unused_variables)]
    fn intermediate(&mut self, term: &mut Term, c: u8)
        requires
            old(term)@.wf(),
            parser_wf(old(self)@),
        ensures
            final(self)@ == intermediate_step(old(self)@, old(term)@, c).0,
            final(term)@ == intermediate_step(old(self)@, old(term)@, c).1,
            final(term)@.wf(),
            parser_wf(final(self)@),
    {
        self.state = ParserState::Ground;
    }

    /// One byte consumed inside a DCS or SOS/PM/APC string: skipped until
    /// the string terminator, the payload discarded.
    #[allow(unused_variables)]
    fn string_skip(&mut self, term: &mut Term, c: u8)
        requires
            old(term)@.wf(),
            parser_wf(old(self)@),
        ensures
            final(self)@ == string_skip_step(old(self)@, old(term)@, c).0,
            final(term)@ == string_skip_step(old(self)@, old(term)@, c).1,
            final(term)@.wf(),
            parser_wf(final(self)@),
    {
        if c == 0x9c {
            // 8-bit ST terminates
            self.state = ParserState::Ground;
        } else if c == 0x1b {
            // ESC may begin the two-byte ST
            self.state = ParserState::Escape;
        }
        // Payload bytes are dropped.
    }

    /// Apply a complete, parsed CSI sequence to the terminal by its final
    /// byte.
    fn csi_dispatch(&self, term: &mut Term, c: u8)
        requires
            old(term)@.wf(),
            csi_wf(self@.csi),
        ensures
            final(term)@ == dispatched(old(term)@, self@.csi, c),
            final(term)@.wf(),
    {
        let n = self.csi.arg(0, 1);
        if c == 0x40 {
            // '@' ICH
            term.insert_blank(n as usize);
        } else if c == 0x41 {
            // 'A' CUU
            term.move_by(0, -n);
        } else if c == 0x42 || c == 0x65 {
            // 'B'/'e' CUD
            term.move_by(0, n);
        } else if c == 0x43 || c == 0x61 {
            // 'C'/'a' CUF
            term.move_by(n, 0);
        } else if c == 0x44 {
            // 'D' CUB
            term.move_by(-n, 0);
        } else if c == 0x45 {
            // 'E' CNL
            term.cursor.x = 0;
            term.move_by(0, n);
        } else if c == 0x46 {
            // 'F' CPL
            term.cursor.x = 0;
            term.move_by(0, -n);
        } else if c == 0x47 || c == 0x60 {
            // 'G'/'`' CHA
            let x = self.csi.arg(0, 1);
            let xi: usize = if x >= 1 {
                (x - 1) as usize
            } else {
                0
            };
            let cy = term.cursor.y;
            term.move_to(xi, cy);
        } else if c == 0x48 || c == 0x66 {
            // 'H'/'f' CUP
            let y = self.csi.arg(0, 1);
            let x = self.csi.arg(1, 1);
            let xi: usize = if x >= 1 {
                (x - 1) as usize
            } else {
                0
            };
            let yi: usize = if y >= 1 {
                (y - 1) as usize
            } else {
                0
            };
            term.move_to(xi, yi);
        } else if c == 0x4a {
            // 'J' ED
            let a = self.csi.arg(0, 0);
            if a == 0 {
                let cx = term.cursor.x;
                let cy = term.cursor.y;
                let w = term.cols - 1;
                let h = term.rows - 1;
                term.clear_region(cx, cy, w, h);
            } else if a == 1 {
                let cx = term.cursor.x;
                let cy = term.cursor.y;
                term.clear_region(0, 0, cx, cy);
            } else if a == 2 || a == 3 {
                let w = term.cols - 1;
                let h = term.rows - 1;
                term.clear_region(0, 0, w, h);
            }
        } else if c == 0x4b {
            // 'K' EL
            let a = self.csi.arg(0, 0);
            let cx = term.cursor.x;
            let cy = term.cursor.y;
            let w = term.cols - 1;
            if a == 0 {
                term.clear_region(cx, cy, w, cy);
            } else if a == 1 {
                term.clear_region(0, cy, cx, cy);
            } else if a == 2 {
                term.clear_region(0, cy, w, cy);
            }
        } else if c == 0x4c {
            // 'L' IL
            term.insert_lines(n as usize);
        } else if c == 0x4d {
            // 'M' DL
            term.delete_lines(n as usize);
        } else if c == 0x50 {
            // 'P' DCH
            term.delete_chars(n as usize);
        } else if c == 0x53 {
            // 'S' SU
            let mut k: i32 = 0;
            while k < n
                invariant
                    0 <= k,
                    k <= n || n < 0,
                    term@ == scrolled_up_n(old(term)@, k as int),
                    term@.wf(),
                decreases n - k,
            {
                term.scroll_up();
                k = k + 1;
            }
        } else if c == 0x54 {
            // 'T' SD
            let mut k: i32 = 0;
            while k < n
                invariant
                    0 <= k,
                    k <= n || n < 0,
                    term@ == scrolled_down_n(old(term)@, k as int),
                    term@.wf(),
                decreases n - k,
            {
                term.scroll_down();
                k = k + 1;
            }
        } else if c == 0x58 {
            // 'X' ECH
            let nu = (n as usize) - 1;
            let cx = term.cursor.x;
            let cy = term.cursor.y;
            let ex = if nu < term.cols - 1 - cx {
                cx + nu
            } else {
                term.cols - 1
            };
            term.clear_region(cx, cy, ex, cy);
        } else if c == 0x64 {
            // 'd' VPA
            let y = self.csi.arg(0, 1);
            let yi: usize = if y >= 1 {
                (y - 1) as usize
            } else {
                0
            };
            let cx = term.cursor.x;
            term.move_to(cx, yi);
        } else if c == 0x68 {
            // 'h' SM
            let a = self.csi.arg(0, 0);
            if a == 7 {
                term.mode = term.mode | MODE_WRAP;
            } else if a == 1049 {
                term.mode = term.mode | MODE_ALTSCREEN;
            }
        } else if c == 0x6c {
            // 'l' RM
            let a = self.csi.arg(0, 0);
            if a == 7 {
                term.mode = term.mode & !MODE_WRAP;
            } else if a == 1049 {
                term.mode = term.mode & !MODE_ALTSCREEN;
            }
        } else if c == 0x6d {
            // 'm' SGR
            self.set_attr(term);
        }
        // 'n' (DSR), 'r' (DECSTBM), 's'/'u' (SCOSC/SCORC) are recognized
        // but unimplemented; unknown finals are ignored.
    }

    /// Apply an SGR sequence: fold the parsed arguments into the cursor's
    /// pending attribute state.
    fn set_attr(&self, term: &mut Term)
        requires
            old(term)@.wf(),
            csi_wf(self@.csi),
        ensures
            final(term)@ == sgr_applied(old(term)@, self@.csi.args),
            final(term)@.wf(),
    {
        let mut g = term.cursor.attr;
        let len = self.csi.args.len();
        let mut i: usize = 0;
        while i < len
            invariant
                len == self.csi.args@.len(),
                len <= ESC_ARG_SIZ,
                i <= len,
                sgr_fold(old(term)@.attr, self.csi.args@, 0) == sgr_fold(
                    g,
                    self.csi.args@,
                    i as int,
                ),
            decreases len - i,
        {
            let a = self.csi.args[i];
            if a == 0 {
                g = Glyph::default();
                i = i + 1;
            } else if a == 1 {
                g.attrs = g.attrs | ATTR_BOLD;
                i = i + 1;
            } else if a == 2 {
                g.attrs = g.attrs | ATTR_FAINT;
                i = i + 1;
            } else if a == 3 {
                g.attrs = g.attrs | ATTR_ITALIC;
                i = i + 1;
            } else if a == 4 {
                g.attrs = g.attrs | ATTR_UNDERLINE;
                i = i + 1;
            } else if a == 5 || a == 6 {
                g.attrs = g.attrs | ATTR_BLINK;
                i = i + 1;
            } else if a == 7 {
                g.attrs = g.attrs | ATTR_REVERSE;
                i = i + 1;
            } else if a == 8 {
                g.attrs = g.attrs | ATTR_INVISIBLE;
                i = i + 1;
            } else if a == 9 {
                g.attrs = g.attrs | ATTR_STRUCK;
                i = i + 1;
            } else if a == 22 {
                g.attrs = g.attrs & !(ATTR_BOLD | ATTR_FAINT);
                i = i + 1;
            } else if a == 23 {
                g.attrs = g.attrs & !ATTR_ITALIC;
                i = i + 1;
            } else if a == 24 {
                g.attrs = g.attrs & !ATTR_UNDERLINE;
                i = i + 1;
            } else if a == 25 {
                g.attrs = g.attrs & !ATTR_BLINK;
                i = i + 1;
            } else if a == 27 {
                g.attrs = g.attrs & !ATTR_REVERSE;
                i = i + 1;
            } else if a == 28 {
                g.attrs = g.attrs & !ATTR_INVISIBLE;
                i = i + 1;
            } else if a == 29 {
                g.attrs = g.attrs & !ATTR_STRUCK;
                i = i + 1;
            } else if a >= 30 && a <= 37 {
                g.fg = (a - 30) as u8;
                i = i + 1;
            } else if a == 38 || a == 48 {
                if i + 1 >= len {
                    i = len;
                } else {
                    let sel = self.csi.args[i + 1];
                    if sel == 5 {
                        if i + 2 < len {
                            let v = self.csi.args[i + 2];
                            if v >= 0 && v <= 255 {
                                if a == 38 {
                                    g.fg = v as u8;
                                } else {
                                    g.bg = v as u8;
                                }
                            }
                            i = i + 3;
                        } else {
                            i = len;
                        }
                    } else if sel == 2 {
                        if i + 4 < len {
                            let vr = self.csi.args[i + 2];
                            let vg = self.csi.args[i + 3];
                            let vb = self.csi.args[i + 4];
                            let idx = rgb_index(vr, vg, vb);
                            if a == 38 {
                                g.fg = idx;
                            } else {
                                g.bg = idx;
                            }
                            i = i + 5;
                        } else {
                            i = len;
                        }
                    } else {
                        i = i + 2;
                    }
                }
            } else if a == 39 {
                g.fg = 7;
                i = i + 1;
            } else if a >= 40 && a <= 47 {
                g.bg = (a - 40) as u8;
                i = i + 1;
            } else if a == 49 {
                g.bg = 0;
                i = i + 1;
            } else if a >= 90 && a <= 97 {
                g.fg = (a - 90 + 8) as u8;
                i = i + 1;
            } else if a >= 100 && a <= 107 {
                g.bg = (a - 100 + 8) as u8;
                i = i + 1;
            } else {
                i = i + 1;
            }
        }
        term.cursor.attr = g;
        term.dirty.set(term.cursor.y, true);
    }

    /// Consume one input byte, mutating the terminal and the decoder's own
    /// parse state. Never fails; unrecognized input is discarded and the
    /// state machine returns to ground.
    pub fn process(&mut self, term: &mut Term, c: u8)
        requires
            old(term)@.wf(),
            parser_wf(old(self)@),
        ensures
            final(self)@ == step(old(self)@, old(term)@, c).0,
            final(term)@ == step(old(self)@, old(term)@, c).1,
            final(term)@.wf(),
            parser_wf(final(self)@),
    {
        match self.state {
            ParserState::Ground => self.ground(term, c),
            ParserState::Escape => self.escape(term, c),
            ParserState::EscapeIntermediate => self.intermediate(term, c),
            ParserState::CsiEntry => self.csi_entry(term, c),
            ParserState::CsiParam => self.csi_param(term, c),
            ParserState::CsiIntermediate => self.intermediate(term, c),
            ParserState::CsiIgnore => self.intermediate(term, c),
            ParserState::OscString => self.osc_string(term, c),
            ParserState::DcsEntry => self.string_skip(term, c),
            ParserState::DcsPassthrough => self.string_skip(term, c),
            ParserState::SosPmApcString => self.string_skip(term, c),
        }
    }

    /// Consume a whole byte chunk, byte by byte in the order received.
    pub fn process_bytes(&mut self, term: &mut Term, bytes: &[u8])
        requires
            old(term)@.wf(),
            parser_wf(old(self)@),
        ensures
            final(self)@ == steps(old(self)@, old(term)@, bytes@).0,
            final(term)@ == steps(old(self)@, old(term)@, bytes@).1,
            final(term)@.wf(),
            parser_wf(final(self)@),
    {
        let n = bytes.len();
        let mut i: usize = 0;
        proof {
            assert(bytes@.skip(0) =~= bytes@);
        }
        while i < n
            invariant
                n == bytes@.len(),
                i <= n,
                term@.wf(),
                parser_wf(self@),
                steps(old(self)@, old(term)@, bytes@) == steps(
                    self@,
                    term@,
                    bytes@.skip(i as int),
                ),
            decreases n - i,
        {
            let ghost p0 = self@;
            let ghost t0 = term@;
            let ghost rest = bytes@.skip(i as int);
            let b = bytes[i];
            proof {
                assert(rest[0] == bytes@[i as int]);
            }
            self.process(term, b);
            proof {
                assert(rest.skip(1) =~= bytes@.skip(i as int + 1));
                assert(steps(p0, t0, rest) == steps(self@, term@, rest.skip(1)));
            }
            i = i + 1;
        }
        proof {
            assert(bytes@.skip(n as int) =~= Seq::<u8>::empty());
        }
    }
}

} // verus!
