//! End-to-end tests of the byte decoder driving a terminal.

use term_engine::Parser;
use term_engine::Term;
use term_engine::glyph::ATTR_BOLD;
use term_engine::glyph::ATTR_REVERSE;
use term_engine::term::MODE_ALTSCREEN;
use term_engine::term::MODE_UTF8;
use term_engine::term::MODE_WRAP;

fn feed(p: &mut Parser, t: &mut Term, bytes: &[u8]) {
    for &b in bytes {
        p.process(t, b);
    }
}

fn ch(t: &Term, x: usize, y: usize) -> char {
    t.get(x, y).char()
}

#[test]
fn batch_and_incremental_agree() {
    let stream: &[u8] = b"hello\x1b[2;3Hworld\x1b[31;1mX\r\n\x1b[K\x1b[2Jab\x1b[5;10Hzz\x1b[99q!";
    let mut p1 = Parser::new();
    let mut t1 = Term::new(20, 6);
    for &b in stream {
        p1.process(&mut t1, b);
    }

    let mut p2 = Parser::new();
    let mut t2 = Term::new(20, 6);
    p2.process_bytes(&mut t2, stream);

    assert_eq!(t1.grid, t2.grid);
    assert_eq!(t1.dirty, t2.dirty);
    assert_eq!(t1.cursor.x, t2.cursor.x);
    assert_eq!(t1.cursor.y, t2.cursor.y);
    assert_eq!(t1.cursor.attr, t2.cursor.attr);
    assert_eq!(t1.mode, t2.mode);
}

#[test]
fn split_mid_sequence_agrees() {
    // The split lands in the middle of a CSI sequence.
    let stream: &[u8] = b"abc\x1b[2;3Hdef";
    let (head, tail) = stream.split_at(5);

    let mut p1 = Parser::new();
    let mut t1 = Term::new(10, 4);
    p1.process_bytes(&mut t1, stream);

    let mut p2 = Parser::new();
    let mut t2 = Term::new(10, 4);
    p2.process_bytes(&mut t2, head);
    p2.process_bytes(&mut t2, tail);

    assert_eq!(t1.grid, t2.grid);
    assert_eq!(t1.cursor.x, t2.cursor.x);
    assert_eq!(t1.cursor.y, t2.cursor.y);
}

#[test]
fn cursor_position_clamps_to_grid() {
    let mut p = Parser::new();
    let mut t = Term::new(80, 24);
    feed(&mut p, &mut t, b"\x1b[25;81H");
    assert_eq!(t.cursor.x, 79);
    assert_eq!(t.cursor.y, 23);
}

#[test]
fn sgr_reset_then_print_writes_default_attrs() {
    let mut p = Parser::new();
    let mut t = Term::new(80, 24);
    // Leave the defaults first, so the reset has something to undo.
    feed(&mut p, &mut t, b"\x1b[1;31;44m");
    feed(&mut p, &mut t, b"\x1b[5;7H");
    let (cx, cy) = (t.cursor.x, t.cursor.y);
    feed(&mut p, &mut t, b"\x1b[0mA");
    let g = *t.get(cx, cy);
    assert_eq!(g.char(), 'A');
    assert_eq!(g.fg, 7);
    assert_eq!(g.bg, 0);
    assert_eq!(g.attrs, 0);
}

#[test]
fn eighty_one_chars_on_last_row_scroll_once() {
    let mut p = Parser::new();
    let mut t = Term::new(80, 24);
    feed(&mut p, &mut t, b"TOP");
    feed(&mut p, &mut t, b"\x1b[24;1H");
    for _ in 0..81 {
        p.process(&mut t, b'x');
    }
    // Row 0's original content is lost: "TOP" is gone.
    assert_eq!(ch(&t, 0, 0), ' ');
    assert_eq!(ch(&t, 1, 0), ' ');
    assert_eq!(ch(&t, 2, 0), ' ');
    // The row of eighty x's has shifted up by the single scroll.
    for x in 0..80 {
        assert_eq!(ch(&t, x, 22), 'x');
    }
    // The new bottom row came in blank; only the 81st character sits on it.
    assert_eq!(ch(&t, 0, 23), 'x');
    for x in 1..80 {
        assert_eq!(ch(&t, x, 23), ' ');
    }
    assert_eq!(t.cursor.x, 1);
    assert_eq!(t.cursor.y, 23);
}

#[test]
fn erase_display_clears_everything_marks_dirty() {
    let mut p = Parser::new();
    let mut t = Term::new(10, 5);
    feed(&mut p, &mut t, b"some text\x1b[3;4H");
    for d in t.dirty.iter_mut() {
        *d = false;
    }
    let (cx, cy) = (t.cursor.x, t.cursor.y);
    feed(&mut p, &mut t, b"\x1b[2J");
    let blank = term_engine::Glyph::new(' ', 7, 0);
    for y in 0..5 {
        assert!(t.dirty[y]);
        for x in 0..10 {
            assert_eq!(*t.get(x, y), blank);
        }
    }
    assert_eq!(t.cursor.x, cx);
    assert_eq!(t.cursor.y, cy);
}

#[test]
fn full_reset_matches_fresh_terminal() {
    let mut p = Parser::new();
    let mut t = Term::new(40, 12);
    feed(&mut p, &mut t, b"\x1b[1;35mhello\x1b[6;6Hworld\x1b[?7l");
    feed(&mut p, &mut t, b"\x1bc");
    let fresh = Term::new(40, 12);
    assert_eq!(t.grid, fresh.grid);
    assert_eq!(t.dirty, fresh.dirty);
    assert_eq!(t.cursor.x, fresh.cursor.x);
    assert_eq!(t.cursor.y, fresh.cursor.y);
    assert_eq!(t.cursor.attr, fresh.cursor.attr);
    assert_eq!(t.mode, fresh.mode);
    assert_eq!(t.lastc, fresh.lastc);
}

#[test]
fn unknown_csi_changes_nothing_and_recovers() {
    let mut p = Parser::new();
    let mut t = Term::new(20, 6);
    feed(&mut p, &mut t, b"abc\x1b[3;3H");
    let grid_before = t.grid.clone();
    let dirty_before = t.dirty.clone();
    let (cx, cy) = (t.cursor.x, t.cursor.y);
    feed(&mut p, &mut t, b"\x1b[99z");
    assert_eq!(t.grid, grid_before);
    assert_eq!(t.dirty, dirty_before);
    assert_eq!(t.cursor.x, cx);
    assert_eq!(t.cursor.y, cy);
    // A subsequent valid sequence is processed normally.
    feed(&mut p, &mut t, b"\x1b[H");
    assert_eq!(t.cursor.x, 0);
    assert_eq!(t.cursor.y, 0);
}

#[test]
fn backspace_moves_and_wraps() {
    let mut p = Parser::new();
    let mut t = Term::new(10, 4);
    feed(&mut p, &mut t, b"ab");
    p.process(&mut t, 0x08);
    assert_eq!(t.cursor.x, 1);
    assert_eq!(t.cursor.y, 0);
    // At column 0 of a later row it wraps to the end of the previous row.
    feed(&mut p, &mut t, b"\x1b[2;1H");
    p.process(&mut t, 0x08);
    assert_eq!(t.cursor.x, 9);
    assert_eq!(t.cursor.y, 0);
    // At the origin nothing moves.
    feed(&mut p, &mut t, b"\x1b[1;1H");
    p.process(&mut t, 0x08);
    assert_eq!(t.cursor.x, 0);
    assert_eq!(t.cursor.y, 0);
}

#[test]
fn tab_advances_to_multiple_of_eight() {
    let mut p = Parser::new();
    let mut t = Term::new(80, 24);
    feed(&mut p, &mut t, b"abc");
    p.process(&mut t, 0x09);
    assert_eq!(t.cursor.x, 8);
    p.process(&mut t, 0x09);
    assert_eq!(t.cursor.x, 16);
    // Clamped to the last column near the right edge.
    feed(&mut p, &mut t, b"\x1b[1;79H");
    p.process(&mut t, 0x09);
    assert_eq!(t.cursor.x, 79);
}

#[test]
fn carriage_return_and_line_feed() {
    let mut p = Parser::new();
    let mut t = Term::new(10, 3);
    feed(&mut p, &mut t, b"hi");
    p.process(&mut t, 0x0d);
    assert_eq!(t.cursor.x, 0);
    assert_eq!(t.cursor.y, 0);
    p.process(&mut t, 0x0a);
    assert_eq!(t.cursor.x, 0);
    assert_eq!(t.cursor.y, 1);
    // A line feed on the last row scrolls instead of moving.
    feed(&mut p, &mut t, b"\x1b[3;4H");
    p.process(&mut t, 0x0a);
    assert_eq!(t.cursor.y, 2);
    // The scroll discarded row 0 and brought in a blank bottom row.
    assert_eq!(ch(&t, 0, 2), ' ');
    assert_eq!(ch(&t, 0, 0), ' ');
}

#[test]
fn reverse_index_scrolls_down_at_top() {
    let mut p = Parser::new();
    let mut t = Term::new(10, 3);
    feed(&mut p, &mut t, b"top");
    feed(&mut p, &mut t, b"\x1bM");
    // The row of "top" moved down by one; the top row is blank.
    assert_eq!(ch(&t, 0, 1), 't');
    assert_eq!(ch(&t, 0, 0), ' ');
    assert_eq!(t.cursor.y, 0);
    // Below the top row it only moves the cursor.
    feed(&mut p, &mut t, b"\x1b[3;1H\x1bM");
    assert_eq!(t.cursor.y, 1);
    assert_eq!(ch(&t, 0, 1), 't');
}

#[test]
fn next_line_returns_to_column_zero() {
    let mut p = Parser::new();
    let mut t = Term::new(10, 4);
    feed(&mut p, &mut t, b"abcd\x1bE");
    assert_eq!(t.cursor.x, 0);
    assert_eq!(t.cursor.y, 1);
}

#[test]
fn insert_and_delete_chars_shift_row() {
    let mut p = Parser::new();
    let mut t = Term::new(8, 2);
    feed(&mut p, &mut t, b"abcdef\x1b[1;2H");
    feed(&mut p, &mut t, b"\x1b[2@");
    assert_eq!(ch(&t, 0, 0), 'a');
    assert_eq!(ch(&t, 1, 0), ' ');
    assert_eq!(ch(&t, 2, 0), ' ');
    assert_eq!(ch(&t, 3, 0), 'b');
    assert_eq!(ch(&t, 4, 0), 'c');
    feed(&mut p, &mut t, b"\x1b[2P");
    assert_eq!(ch(&t, 0, 0), 'a');
    assert_eq!(ch(&t, 1, 0), 'b');
    assert_eq!(ch(&t, 2, 0), 'c');
    assert_eq!(ch(&t, 6, 0), ' ');
    assert_eq!(ch(&t, 7, 0), ' ');
}

#[test]
fn insert_and_delete_lines_shift_rows() {
    let mut p = Parser::new();
    let mut t = Term::new(4, 4);
    feed(&mut p, &mut t, b"aa\x1b[2;1Hbb\x1b[3;1Hcc\x1b[4;1Hdd");
    feed(&mut p, &mut t, b"\x1b[2;1H\x1b[1L");
    assert_eq!(ch(&t, 0, 0), 'a');
    assert_eq!(ch(&t, 0, 1), ' ');
    assert_eq!(ch(&t, 0, 2), 'b');
    assert_eq!(ch(&t, 0, 3), 'c');
    feed(&mut p, &mut t, b"\x1b[1M");
    assert_eq!(ch(&t, 0, 1), 'b');
    assert_eq!(ch(&t, 0, 2), 'c');
    assert_eq!(ch(&t, 0, 3), ' ');
}

#[test]
fn erase_line_variants() {
    let mut p = Parser::new();
    let mut t = Term::new(6, 2);
    feed(&mut p, &mut t, b"abcdef\x1b[1;3H\x1b[K");
    assert_eq!(ch(&t, 0, 0), 'a');
    assert_eq!(ch(&t, 1, 0), 'b');
    for x in 2..6 {
        assert_eq!(ch(&t, x, 0), ' ');
    }
    let mut p2 = Parser::new();
    let mut t2 = Term::new(6, 2);
    feed(&mut p2, &mut t2, b"abcdef\x1b[1;3H\x1b[1K");
    for x in 0..3 {
        assert_eq!(ch(&t2, x, 0), ' ');
    }
    assert_eq!(ch(&t2, 3, 0), 'd');
    let mut p3 = Parser::new();
    let mut t3 = Term::new(6, 2);
    feed(&mut p3, &mut t3, b"abcdef\x1b[1;3H\x1b[2K");
    for x in 0..6 {
        assert_eq!(ch(&t3, x, 0), ' ');
    }
}

#[test]
fn erase_chars_rightward() {
    let mut p = Parser::new();
    let mut t = Term::new(7, 1);
    feed(&mut p, &mut t, b"abcdef\x1b[1;2H\x1b[3X");
    assert_eq!(ch(&t, 0, 0), 'a');
    for x in 1..4 {
        assert_eq!(ch(&t, x, 0), ' ');
    }
    assert_eq!(ch(&t, 4, 0), 'e');
    assert_eq!(ch(&t, 5, 0), 'f');
}

#[test]
fn scroll_up_and_down_sequences() {
    let mut p = Parser::new();
    let mut t = Term::new(4, 3);
    feed(&mut p, &mut t, b"aa\x1b[2;1Hbb\x1b[3;1Hcc");
    feed(&mut p, &mut t, b"\x1b[S");
    assert_eq!(ch(&t, 0, 0), 'b');
    assert_eq!(ch(&t, 0, 1), 'c');
    assert_eq!(ch(&t, 0, 2), ' ');
    feed(&mut p, &mut t, b"\x1b[T");
    assert_eq!(ch(&t, 0, 0), ' ');
    assert_eq!(ch(&t, 0, 1), 'b');
    assert_eq!(ch(&t, 0, 2), 'c');
}

#[test]
fn cursor_relative_moves_clamp() {
    let mut p = Parser::new();
    let mut t = Term::new(10, 5);
    feed(&mut p, &mut t, b"\x1b[3;5H");
    feed(&mut p, &mut t, b"\x1b[2A");
    assert_eq!((t.cursor.x, t.cursor.y), (4, 0));
    feed(&mut p, &mut t, b"\x1b[99B");
    assert_eq!((t.cursor.x, t.cursor.y), (4, 4));
    feed(&mut p, &mut t, b"\x1b[99C");
    assert_eq!((t.cursor.x, t.cursor.y), (9, 4));
    feed(&mut p, &mut t, b"\x1b[3D");
    assert_eq!((t.cursor.x, t.cursor.y), (6, 4));
    feed(&mut p, &mut t, b"\x1b[2E");
    assert_eq!((t.cursor.x, t.cursor.y), (0, 4));
    feed(&mut p, &mut t, b"\x1b[3F");
    assert_eq!((t.cursor.x, t.cursor.y), (0, 1));
    feed(&mut p, &mut t, b"\x1b[7G");
    assert_eq!((t.cursor.x, t.cursor.y), (6, 1));
    feed(&mut p, &mut t, b"\x1b[4d");
    assert_eq!((t.cursor.x, t.cursor.y), (6, 3));
}

#[test]
fn sgr_sets_colors_and_attrs() {
    let mut p = Parser::new();
    let mut t = Term::new(20, 2);
    feed(&mut p, &mut t, b"\x1b[1;31mA");
    let g = *t.get(0, 0);
    assert_eq!(g.fg, 1);
    assert_eq!(g.attrs, ATTR_BOLD);
    feed(&mut p, &mut t, b"\x1b[22;44mB");
    let g = *t.get(1, 0);
    assert_eq!(g.attrs, 0);
    assert_eq!(g.bg, 4);
    feed(&mut p, &mut t, b"\x1b[7;39;49mC");
    let g = *t.get(2, 0);
    assert_eq!(g.attrs, ATTR_REVERSE);
    assert_eq!(g.fg, 7);
    assert_eq!(g.bg, 0);
    feed(&mut p, &mut t, b"\x1b[0;91;104mD");
    let g = *t.get(3, 0);
    assert_eq!(g.fg, 9);
    assert_eq!(g.bg, 12);
}

#[test]
fn sgr_extended_colors() {
    let mut p = Parser::new();
    let mut t = Term::new(20, 2);
    feed(&mut p, &mut t, b"\x1b[38;5;196mA");
    assert_eq!(t.get(0, 0).fg, 196);
    feed(&mut p, &mut t, b"\x1b[48;5;21mB");
    assert_eq!(t.get(1, 0).bg, 21);
    // Truecolor is down-sampled: pure red hits the color cube at 196.
    feed(&mut p, &mut t, b"\x1b[0m\x1b[38;2;255;0;0mC");
    assert_eq!(t.get(2, 0).fg, 196);
    // An equal-channel triple lands on the grayscale ramp.
    feed(&mut p, &mut t, b"\x1b[38;2;128;128;128mD");
    assert_eq!(t.get(3, 0).fg, 244);
    feed(&mut p, &mut t, b"\x1b[38;2;4;4;4mE");
    assert_eq!(t.get(4, 0).fg, 16);
    feed(&mut p, &mut t, b"\x1b[38;2;250;250;250mF");
    assert_eq!(t.get(5, 0).fg, 231);
    feed(&mut p, &mut t, b"\x1b[38;2;248;248;248mG");
    assert_eq!(t.get(6, 0).fg, 255);
}

#[test]
fn sgr_without_arguments_changes_nothing() {
    let mut p = Parser::new();
    let mut t = Term::new(10, 2);
    feed(&mut p, &mut t, b"\x1b[1;35m");
    let attr = t.cursor.attr;
    feed(&mut p, &mut t, b"\x1b[m");
    assert_eq!(t.cursor.attr, attr);
}

#[test]
fn set_and_reset_mode_bits() {
    let mut p = Parser::new();
    let mut t = Term::new(10, 2);
    assert_eq!(t.mode, MODE_WRAP | MODE_UTF8);
    feed(&mut p, &mut t, b"\x1b[?7l");
    assert_eq!(t.mode, MODE_UTF8);
    feed(&mut p, &mut t, b"\x1b[?7h");
    assert_eq!(t.mode, MODE_WRAP | MODE_UTF8);
    feed(&mut p, &mut t, b"\x1b[?1049h");
    assert_eq!(t.mode, MODE_WRAP | MODE_UTF8 | MODE_ALTSCREEN);
    feed(&mut p, &mut t, b"\x1b[?1049l");
    assert_eq!(t.mode, MODE_WRAP | MODE_UTF8);
    // Other mode numbers are no-ops.
    feed(&mut p, &mut t, b"\x1b[?25l");
    assert_eq!(t.mode, MODE_WRAP | MODE_UTF8);
}

#[test]
fn osc_payload_is_discarded() {
    let mut p = Parser::new();
    let mut t = Term::new(10, 2);
    feed(&mut p, &mut t, b"\x1b]0;window title\x07after");
    assert_eq!(ch(&t, 0, 0), 'a');
    assert_eq!(ch(&t, 4, 0), 'r');
    // The two-byte string terminator works as well.
    let mut p2 = Parser::new();
    let mut t2 = Term::new(10, 2);
    feed(&mut p2, &mut t2, b"\x1b]2;t\x1b\\ok");
    assert_eq!(ch(&t2, 0, 0), 'o');
    assert_eq!(ch(&t2, 1, 0), 'k');
}

#[test]
fn overlong_csi_degrades_without_crash() {
    let mut p = Parser::new();
    let mut t = Term::new(80, 24);
    let mut seq = vec![0x1b, b'['];
    for _ in 0..600 {
        seq.push(b'1');
    }
    seq.push(b'H');
    feed(&mut p, &mut t, &seq);
    // The saturated argument is clamped against the grid: the row argument
    // pins the cursor to the last row, the absent column argument to 0.
    assert_eq!(t.cursor.x, 0);
    assert_eq!(t.cursor.y, 23);
    // Parsing continues normally afterward.
    feed(&mut p, &mut t, b"\x1b[2;2H");
    assert_eq!((t.cursor.x, t.cursor.y), (1, 1));
}

#[test]
fn ignored_bytes_change_nothing() {
    let mut p = Parser::new();
    let mut t = Term::new(10, 3);
    feed(&mut p, &mut t, b"ab");
    let grid = t.grid.clone();
    let (cx, cy) = (t.cursor.x, t.cursor.y);
    for b in [0x00u8, 0x07, 0x7f, 0x80, 0xbf, 0xc0, 0xff, 0x88, 0x9c] {
        p.process(&mut t, b);
    }
    assert_eq!(t.grid, grid);
    assert_eq!((t.cursor.x, t.cursor.y), (cx, cy));
}

#[test]
fn charset_designation_is_a_no_op() {
    let mut p = Parser::new();
    let mut t = Term::new(10, 2);
    feed(&mut p, &mut t, b"\x1b(B");
    // The designation byte is consumed with no effect: nothing printed,
    // cursor unmoved.
    assert_eq!(ch(&t, 0, 0), ' ');
    assert_eq!((t.cursor.x, t.cursor.y), (0, 0));
    // The decoder is back at ground: the next bytes print normally.
    feed(&mut p, &mut t, b"ok");
    assert_eq!(ch(&t, 0, 0), 'o');
    assert_eq!(ch(&t, 1, 0), 'k');
}

#[test]
fn dcs_payload_is_discarded() {
    let mut p = Parser::new();
    let mut t = Term::new(10, 2);
    // 8-bit DCS introducer, a payload, the 8-bit string terminator.
    feed(&mut p, &mut t, b"\x90q1;2data\x9cab");
    assert_eq!(ch(&t, 0, 0), 'a');
    assert_eq!(ch(&t, 1, 0), 'b');
    assert_eq!((t.cursor.x, t.cursor.y), (2, 0));
    // The two-byte terminator works as well.
    let mut p2 = Parser::new();
    let mut t2 = Term::new(10, 2);
    feed(&mut p2, &mut t2, b"\x90stuff\x1b\\ok");
    assert_eq!(ch(&t2, 0, 0), 'o');
    assert_eq!(ch(&t2, 1, 0), 'k');
}
