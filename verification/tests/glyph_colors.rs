//! Tests of the glyph model, the color resolution, and the CSI argument
//! parser taken on its own.

use term_engine::Glyph;
use term_engine::glyph::ATTR_BOLD;
use term_engine::glyph::ATTR_INVISIBLE;
use term_engine::glyph::ATTR_REVERSE;
use term_engine::glyph::color_from_index;
use term_engine::glyph::default_palette;
use term_engine::glyph::resolve_colors;
use term_engine::parser::CsiEscape;

#[test]
fn glyph_new_and_char_round_trip() {
    let g = Glyph::new('A', 7, 0);
    assert_eq!(g.rune, 65);
    assert_eq!(g.char(), 'A');
    assert_eq!(g.attrs, 0);
}

#[test]
fn glyph_char_falls_back_on_invalid_codepoint() {
    // A surrogate codepoint is not a valid character.
    let g = Glyph { rune: 0xD800, fg: 7, bg: 0, attrs: 0 };
    assert_eq!(g.char(), ' ');
    let g2 = Glyph { rune: 0x110000, fg: 7, bg: 0, attrs: 0 };
    assert_eq!(g2.char(), ' ');
}

#[test]
fn glyph_default_is_blank_white_on_black() {
    let g = Glyph::default();
    assert_eq!(g.char(), ' ');
    assert_eq!(g.fg, 7);
    assert_eq!(g.bg, 0);
    assert_eq!(g.attrs, 0);
}

#[test]
fn default_palette_values() {
    let p = default_palette();
    assert_eq!(p.len(), 16);
    assert_eq!(p[0], 0x1e1e1e);
    assert_eq!(p[1], 0xf44747);
    assert_eq!(p[7], 0xd4d4d4);
    assert_eq!(p[15], 0xffffff);
}

#[test]
fn color_from_index_wraps_modulo_sixteen() {
    assert_eq!(color_from_index(9), 0xf44747);
    assert_eq!(color_from_index(7), 0xd4d4d4);
    assert_eq!(color_from_index(16), 0x1e1e1e);
    assert_eq!(color_from_index(17), 0xf44747);
}

#[test]
fn resolve_colors_plain() {
    let p = default_palette();
    let g = Glyph::new('x', 1, 2);
    let (fg, bg) = resolve_colors(&g, &p);
    assert_eq!(fg, p[1]);
    assert_eq!(bg, p[2]);
}

#[test]
fn resolve_colors_reverse_swaps() {
    let p = default_palette();
    let g = Glyph { rune: 'x' as u32, fg: 1, bg: 2, attrs: ATTR_REVERSE };
    let (fg, bg) = resolve_colors(&g, &p);
    assert_eq!(fg, p[2]);
    assert_eq!(bg, p[1]);
}

#[test]
fn resolve_colors_bold_brightens_low_fg() {
    let p = default_palette();
    let g = Glyph { rune: 'x' as u32, fg: 1, bg: 0, attrs: ATTR_BOLD };
    let (fg, _) = resolve_colors(&g, &p);
    assert_eq!(fg, p[9]);
    // A foreground at or above 8 is not promoted further.
    let h = Glyph { rune: 'x' as u32, fg: 12, bg: 0, attrs: ATTR_BOLD };
    let (fgh, _) = resolve_colors(&h, &p);
    assert_eq!(fgh, p[12]);
}

#[test]
fn resolve_colors_invisible_hides_fg() {
    let p = default_palette();
    let g = Glyph { rune: 'x' as u32, fg: 1, bg: 2, attrs: ATTR_INVISIBLE };
    let (fg, bg) = resolve_colors(&g, &p);
    assert_eq!(fg, bg);
    assert_eq!(bg, p[2]);
}

#[test]
fn resolve_colors_large_index_wraps_on_small_table() {
    let p = default_palette();
    let g = Glyph { rune: 'x' as u32, fg: 196, bg: 0, attrs: 0 };
    let (fg, _) = resolve_colors(&g, &p);
    assert_eq!(fg, p[196 % 16]);
}

#[test]
fn csi_parse_splits_arguments() {
    let mut e = CsiEscape::default();
    e.buf = b"3;14H".to_vec();
    e.parse();
    assert_eq!(e.args, vec![3, 14]);
    assert_eq!(e.mode.0, b'H');
}

#[test]
fn csi_parse_records_explicit_zeros() {
    let mut e = CsiEscape::default();
    e.buf = b"1;;2m".to_vec();
    e.parse();
    assert_eq!(e.args, vec![1, 0, 2]);
    // A leading separator records a zero as well.
    let mut e2 = CsiEscape::default();
    e2.buf = b";5m".to_vec();
    e2.parse();
    assert_eq!(e2.args, vec![0, 5]);
}

#[test]
fn csi_parse_private_mode_flag() {
    let mut e = CsiEscape::default();
    e.buf = b"?1049h".to_vec();
    e.parse();
    assert!(e.priv_mode);
    assert_eq!(e.args, vec![1049]);
    assert_eq!(e.mode.0, b'h');
}

#[test]
fn csi_parse_caps_at_sixteen_arguments() {
    let mut e = CsiEscape::default();
    e.buf = b"1;2;3;4;5;6;7;8;9;10;11;12;13;14;15;16;17;18m".to_vec();
    e.parse();
    assert_eq!(e.args.len(), 16);
    assert_eq!(e.args[15], 16);
}

#[test]
fn csi_parse_saturates_long_digit_runs() {
    let mut e = CsiEscape::default();
    e.buf = b"99999999999999999999d".to_vec();
    e.parse();
    assert_eq!(e.args, vec![i32::MAX]);
}

#[test]
fn csi_arg_defaults_absent_and_zero() {
    let mut e = CsiEscape::default();
    e.buf = b"0;3z".to_vec();
    e.parse();
    assert_eq!(e.arg(0, 9), 9);
    assert_eq!(e.arg(1, 9), 3);
    assert_eq!(e.arg(5, 4), 4);
}

#[test]
fn csi_reset_clears_accumulators() {
    let mut e = CsiEscape::default();
    e.buf = b"?1;2x".to_vec();
    e.parse();
    e.reset();
    assert_eq!(e.buf.len(), 0);
    assert_eq!(e.args.len(), 0);
    assert!(!e.priv_mode);
    assert_eq!(e.mode, (0, 0));
}
