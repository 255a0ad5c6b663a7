//! The per-cell unit of the grid: a codepoint, a foreground and a background
//! color index, and an 8-bit attribute flag set.

use vstd::prelude::*;

verus! {

/// Attribute bits of a glyph. The flag set is 8 bits wide; external
/// consumers may rely on that width and on these positions.
pub const ATTR_BOLD: u8 = 0x01;
pub const ATTR_FAINT: u8 = 0x02;
pub const ATTR_ITALIC: u8 = 0x04;
pub const ATTR_UNDERLINE: u8 = 0x08;
pub const ATTR_BLINK: u8 = 0x10;
pub const ATTR_REVERSE: u8 = 0x20;
pub const ATTR_INVISIBLE: u8 = 0x40;
pub const ATTR_STRUCK: u8 = 0x80;

/// One cell of the grid: a Unicode codepoint, 8-bit foreground and
/// background color indices, and an attribute flag set.
#[derive(Clone, Copy, PartialEq, Eq, Structural, Debug)]
pub struct Glyph {
    pub rune: u32,
    pub fg: u8,
    pub bg: u8,
    pub attrs: u8,
}

/// The default cell: a space, white on black, no attributes.
pub open spec fn default_glyph() -> Glyph {
    Glyph { rune: 32, fg: 7, bg: 0, attrs: 0 }
}

/// Whether `v` is a Unicode scalar value, i.e. a valid `char`.
pub open spec fn is_scalar_value(v: u32) -> bool {
    v < 0xD800 || (0xE000 <= v && v <= 0x10FFFF)
}

/// The character a glyph displays: its codepoint if that is a Unicode
/// scalar value, and a space otherwise.
pub open spec fn glyph_char(g: Glyph) -> char {
    if is_scalar_value(g.rune) {
        g.rune as char
    } else {
        ' '
    }
}

/// Relies on char::from_u32: returns `Some` exactly when the argument is a
/// Unicode scalar value (not a surrogate and at most 0x10FFFF), and the
/// resulting character has that codepoint.
#[verifier::external_body]
fn char_of_u32(v: u32) -> (r: Option<char>)
    ensures
        r is Some <==> is_scalar_value(v),
        r is Some ==> r->0 == v as char,
{
    char::from_u32(v)
}

impl Glyph {
    /// A glyph showing `c` in the given colors, with no attributes.
    pub fn new(c: char, fg: u8, bg: u8) -> (g: Glyph)
        ensures
            g == (Glyph { rune: c as u32, fg, bg, attrs: 0 }),
    {
        Glyph { rune: c as u32, fg, bg, attrs: 0 }
    }

    /// The character this glyph displays.
    pub fn char(&self) -> (c: char)
        ensures
            c == glyph_char(*self),
    {
        match char_of_u32(self.rune) {
            Some(c) => c,
            None => ' ',
        }
    }
}

impl Default for Glyph {
    /// The default cell: a space, white (index 7) on black (index 0).
    fn default() -> (g: Glyph)
        ensures
            g == default_glyph(),
    {
        Glyph { rune: 32, fg: 7, bg: 0, attrs: 0 }
    }
}

/// The built-in base16 palette, as packed `0xRRGGBB` values.
pub open spec fn default_colors() -> Seq<u32> {
    seq![
        0x1e1e1eu32,  // 0: black (background)
        0xf44747u32,  // 1: red
        0x608b4eu32,  // 2: green
        0xdcdcaau32,  // 3: yellow
        0x569cd6u32,  // 4: blue
        0xc586c0u32,  // 5: magenta
        0x4ec9b0u32,  // 6: cyan
        0xd4d4d4u32,  // 7: white (foreground)
        0x808080u32,  // 8: bright black
        0xf44747u32,  // 9: bright red
        0x608b4eu32,  // 10: bright green
        0xdcdcaau32,  // 11: bright yellow
        0x569cd6u32,  // 12: bright blue
        0xc586c0u32,  // 13: bright magenta
        0x4ec9b0u32,  // 14: bright cyan
        0xffffffu32,  // 15: bright white
    ]
}

/// The built-in base16 palette as a vector, usable as the color table of
/// [`resolve_colors`].
pub fn default_palette() -> (v: Vec<u32>)
    ensures
        v@ == default_colors(),
{
    let mut v: Vec<u32> = Vec::new();
    v.push(0x1e1e1e);
    v.push(0xf44747);
    v.push(0x608b4e);
    v.push(0xdcdcaa);
    v.push(0x569cd6);
    v.push(0xc586c0);
    v.push(0x4ec9b0);
    v.push(0xd4d4d4);
    v.push(0x808080);
    v.push(0xf44747);
    v.push(0x608b4e);
    v.push(0xdcdcaa);
    v.push(0x569cd6);
    v.push(0xc586c0);
    v.push(0x4ec9b0);
    v.push(0xffffff);
    proof {
        assert(v@ =~= default_colors());
    }
    v
}

/// The packed `0xRRGGBB` value of the built-in palette entry `idx`, taken
/// modulo the palette size of 16.
pub fn color_from_index(idx: u8) -> (c: u32)
    ensures
        c == default_colors()[(idx % 16) as int],
{
    let palette = default_palette();
    palette[(idx % 16) as usize]
}

/// The foreground color index a glyph is displayed with: background and
/// foreground swap under REVERSE, BOLD promotes a base color (index below 8)
/// to its bright variant, and INVISIBLE forces the foreground onto the
/// background.
pub open spec fn display_fg(g: Glyph) -> u8 {
    let f0 = if g.attrs & ATTR_REVERSE != 0 {
        g.bg
    } else {
        g.fg
    };
    let f1 = if g.attrs & ATTR_BOLD != 0 && f0 < 8 {
        (f0 + 8) as u8
    } else {
        f0
    };
    if g.attrs & ATTR_INVISIBLE != 0 {
        display_bg(g)
    } else {
        f1
    }
}

/// The background color index a glyph is displayed with: the foreground
/// index under REVERSE, and the background index otherwise.
pub open spec fn display_bg(g: Glyph) -> u8 {
    if g.attrs & ATTR_REVERSE != 0 {
        g.fg
    } else {
        g.bg
    }
}

/// The display colors of a glyph, resolved against a 16- or 256-entry color
/// table of packed `0xRRGGBB` values: the foreground first, the background
/// second. Color indices beyond the table wrap around modulo its size.
pub fn resolve_colors(g: &Glyph, palette: &[u32]) -> (r: (u32, u32))
    requires
        palette@.len() == 16 || palette@.len() == 256,
    ensures
        r.0 == palette@[display_fg(*g) as int % palette@.len() as int],
        r.1 == palette@[display_bg(*g) as int % palette@.len() as int],
{
    let bg_idx = if g.attrs & ATTR_REVERSE != 0 {
        g.fg
    } else {
        g.bg
    };
    let f0 = if g.attrs & ATTR_REVERSE != 0 {
        g.bg
    } else {
        g.fg
    };
    let f1 = if g.attrs & ATTR_BOLD != 0 && f0 < 8 {
        f0 + 8
    } else {
        f0
    };
    let fg_idx = if g.attrs & ATTR_INVISIBLE != 0 {
        bg_idx
    } else {
        f1
    };
    let n = palette.len();
    (palette[fg_idx as usize % n], palette[bg_idx as usize % n])
}

} // verus!
