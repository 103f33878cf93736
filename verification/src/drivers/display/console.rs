//! Text console over the framebuffer: a grid of character cells with a cursor,
//! drawn with a built-in 8x16 font.
use vstd::prelude::*;
use crate::drivers::virtio::framebuffer::{FramebufferInfo, set_pixel_spec, fill_rect_spec};
use crate::text::chars_of;

verus! {

/// Font width in pixels
pub const FONT_WIDTH: u32 = 8;
/// Font height in pixels
pub const FONT_HEIGHT: u32 = 16;

/// Console colors (VGA-compatible palette)
#[derive(Debug, Clone, Copy, PartialEq, Eq, Structural)]
pub enum Color {
    Black,
    Blue,
    Green,
    Cyan,
    Red,
    Magenta,
    Brown,
    LightGray,
    DarkGray,
    LightBlue,
    LightGreen,
    LightCyan,
    LightRed,
    LightMagenta,
    Yellow,
    White,
}

/// The RGB value of a palette color.
pub open spec fn rgb_of(c: Color) -> (u8, u8, u8) {
    match c {
        Color::Black => (0, 0, 0),
        Color::Blue => (0, 0, 170),
        Color::Green => (0, 170, 0),
        Color::Cyan => (0, 170, 170),
        Color::Red => (170, 0, 0),
        Color::Magenta => (170, 0, 170),
        Color::Brown => (170, 85, 0),
        Color::LightGray => (170, 170, 170),
        Color::DarkGray => (85, 85, 85),
        Color::LightBlue => (85, 85, 255),
        Color::LightGreen => (85, 255, 85),
        Color::LightCyan => (85, 255, 255),
        Color::LightRed => (255, 85, 85),
        Color::LightMagenta => (255, 85, 255),
        Color::Yellow => (255, 255, 85),
        Color::White => (255, 255, 255),
    }
}

impl Color {
    /// Convert to RGB values
    pub fn to_rgb(self) -> (rgb: (u8, u8, u8))
        ensures
            rgb == rgb_of(self),
    {
        match self {
            Color::Black => (0, 0, 0),
            Color::Blue => (0, 0, 170),
            Color::Green => (0, 170, 0),
            Color::Cyan => (0, 170, 170),
            Color::Red => (170, 0, 0),
            Color::Magenta => (170, 0, 170),
            Color::Brown => (170, 85, 0),
            Color::LightGray => (170, 170, 170),
            Color::DarkGray => (85, 85, 85),
            Color::LightBlue => (85, 85, 255),
            Color::LightGreen => (85, 255, 85),
            Color::LightCyan => (85, 255, 255),
            Color::LightRed => (255, 85, 85),
            Color::LightMagenta => (255, 85, 255),
            Color::Yellow => (255, 255, 85),
            Color::White => (255, 255, 255),
        }
    }
}

/// Character cell
#[derive(Debug, Clone, Copy, PartialEq, Eq, Structural)]
pub struct Cell {
    pub character: char,
    pub foreground: Color,
    pub background: Color,
}

/// A blank cell in the default colors.
pub open spec fn default_cell() -> Cell {
    Cell { character: ' ', foreground: Color::LightGray, background: Color::Black }
}

impl Default for Cell {
    fn default() -> (c: Cell)
        ensures
            c == default_cell(),
    {
        Cell { character: ' ', foreground: Color::LightGray, background: Color::Black }
    }
}

/// The glyph of the `idx`-th capital letter: A to F have their own, the rest an O.
pub open spec fn uppercase_glyph(idx: u8) -> Seq<u8> {
    if idx == 0 {
        seq![0x00u8, 0x00, 0x10, 0x38, 0x6C, 0xC6, 0xC6, 0xFE, 0xC6, 0xC6, 0xC6, 0xC6, 0x00, 0x00, 0x00, 0x00]
    } else if idx == 1 {
        seq![0x00u8, 0x00, 0xFC, 0x66, 0x66, 0x66, 0x7C, 0x66, 0x66, 0x66, 0x66, 0xFC, 0x00, 0x00, 0x00, 0x00]
    } else if idx == 2 {
        seq![0x00u8, 0x00, 0x3C, 0x66, 0xC2, 0xC0, 0xC0, 0xC0, 0xC0, 0xC2, 0x66, 0x3C, 0x00, 0x00, 0x00, 0x00]
    } else if idx == 3 {
        seq![0x00u8, 0x00, 0xF8, 0x6C, 0x66, 0x66, 0x66, 0x66, 0x66, 0x66, 0x6C, 0xF8, 0x00, 0x00, 0x00, 0x00]
    } else if idx == 4 {
        seq![0x00u8, 0x00, 0xFE, 0x66, 0x62, 0x68, 0x78, 0x68, 0x60, 0x62, 0x66, 0xFE, 0x00, 0x00, 0x00, 0x00]
    } else if idx == 5 {
        seq![0x00u8, 0x00, 0xFE, 0x66, 0x62, 0x68, 0x78, 0x68, 0x60, 0x60, 0x60, 0xF0, 0x00, 0x00, 0x00, 0x00]
    } else {
        seq![0x00u8, 0x00, 0x7C, 0xC6, 0xC6, 0xC6, 0xC6, 0xC6, 0xC6, 0xC6, 0xC6, 0x7C, 0x00, 0x00, 0x00, 0x00]
    }
}

/// The glyph of the `idx`-th small letter: a to e have their own, the rest an o.
pub open spec fn lowercase_glyph(idx: u8) -> Seq<u8> {
    if idx == 0 {
        seq![0x00u8, 0x00, 0x00, 0x00, 0x00, 0x78, 0x0C, 0x7C, 0xCC, 0xCC, 0xCC, 0x76, 0x00, 0x00, 0x00, 0x00]
    } else if idx == 1 {
        seq![0x00u8, 0x00, 0xE0, 0x60, 0x60, 0x78, 0x6C, 0x66, 0x66, 0x66, 0x66, 0x7C, 0x00, 0x00, 0x00, 0x00]
    } else if idx == 2 {
        seq![0x00u8, 0x00, 0x00, 0x00, 0x00, 0x7C, 0xC6, 0xC0, 0xC0, 0xC0, 0xC6, 0x7C, 0x00, 0x00, 0x00, 0x00]
    } else if idx == 3 {
        seq![0x00u8, 0x00, 0x1C, 0x0C, 0x0C, 0x3C, 0x6C, 0xCC, 0xCC, 0xCC, 0xCC, 0x76, 0x00, 0x00, 0x00, 0x00]
    } else if idx == 4 {
        seq![0x00u8, 0x00, 0x00, 0x00, 0x00, 0x7C, 0xC6, 0xFE, 0xC0, 0xC0, 0xC6, 0x7C, 0x00, 0x00, 0x00, 0x00]
    } else {
        seq![0x00u8, 0x00, 0x00, 0x00, 0x00, 0x7C, 0xC6, 0xC6, 0xC6, 0xC6, 0xC6, 0x7C, 0x00, 0x00, 0x00, 0x00]
    }
}

/// The glyph for a character code (the low byte of the character): digits, space,
/// `!` and letters have their own; anything else is a box.
pub open spec fn glyph_of(code: u8) -> Seq<u8> {
    if code == 0x20 {
        seq![0x00u8, 0x00, 0x00, 0x00, 0x00, 0x00, 0x00, 0x00, 0x00, 0x00, 0x00, 0x00, 0x00, 0x00, 0x00, 0x00]
    } else if code == 0x21 {
        seq![0x00u8, 0x00, 0x18, 0x18, 0x18, 0x18, 0x18, 0x18, 0x18, 0x00, 0x18, 0x18, 0x00, 0x00, 0x00, 0x00]
    } else if code == 0x30 {
        seq![0x00u8, 0x00, 0x7C, 0xC6, 0xC6, 0xCE, 0xDE, 0xF6, 0xE6, 0xC6, 0xC6, 0x7C, 0x00, 0x00, 0x00, 0x00]
    } else if code == 0x31 {
        seq![0x00u8, 0x00, 0x18, 0x38, 0x78, 0x18, 0x18, 0x18, 0x18, 0x18, 0x18, 0x7E, 0x00, 0x00, 0x00, 0x00]
    } else if code == 0x32 {
        seq![0x00u8, 0x00, 0x7C, 0xC6, 0x06, 0x0C, 0x18, 0x30, 0x60, 0xC0, 0xC6, 0xFE, 0x00, 0x00, 0x00, 0x00]
    } else if code == 0x33 {
        seq![0x00u8, 0x00, 0x7C, 0xC6, 0x06, 0x06, 0x3C, 0x06, 0x06, 0x06, 0xC6, 0x7C, 0x00, 0x00, 0x00, 0x00]
    } else if code == 0x34 {
        seq![0x00u8, 0x00, 0x0C, 0x1C, 0x3C, 0x6C, 0xCC, 0xFE, 0x0C, 0x0C, 0x0C, 0x1E, 0x00, 0x00, 0x00, 0x00]
    } else if code == 0x35 {
        seq![0x00u8, 0x00, 0xFE, 0xC0, 0xC0, 0xC0, 0xFC, 0x06, 0x06, 0x06, 0xC6, 0x7C, 0x00, 0x00, 0x00, 0x00]
    } else if code == 0x36 {
        seq![0x00u8, 0x00, 0x38, 0x60, 0xC0, 0xC0, 0xFC, 0xC6, 0xC6, 0xC6, 0xC6, 0x7C, 0x00, 0x00, 0x00, 0x00]
    } else if code == 0x37 {
        seq![0x00u8, 0x00, 0xFE, 0xC6, 0x06, 0x06, 0x0C, 0x18, 0x30, 0x30, 0x30, 0x30, 0x00, 0x00, 0x00, 0x00]
    } else if code == 0x38 {
        seq![0x00u8, 0x00, 0x7C, 0xC6, 0xC6, 0xC6, 0x7C, 0xC6, 0xC6, 0xC6, 0xC6, 0x7C, 0x00, 0x00, 0x00, 0x00]
    } else if code == 0x39 {
        seq![0x00u8, 0x00, 0x7C, 0xC6, 0xC6, 0xC6, 0x7E, 0x06, 0x06, 0x06, 0x0C, 0x78, 0x00, 0x00, 0x00, 0x00]
    } else if 0x41 <= code <= 0x5A {
        uppercase_glyph((code - 0x41) as u8)
    } else if 0x61 <= code <= 0x7A {
        lowercase_glyph((code - 0x61) as u8)
    } else {
        seq![0xFFu8, 0x81, 0x81, 0x81, 0x81, 0x81, 0x81, 0x81, 0x81, 0x81, 0x81, 0x81, 0x81, 0x81, 0x81, 0xFF]
    }
}

fn get_uppercase_glyph(idx: u8) -> (g: [u8; 16])
    ensures
        g@ == uppercase_glyph(idx),
{
    let g: [u8; 16] = match idx {
        0 => [0x00u8, 0x00, 0x10, 0x38, 0x6C, 0xC6, 0xC6, 0xFE, 0xC6, 0xC6, 0xC6, 0xC6, 0x00, 0x00, 0x00, 0x00],
        1 => [0x00u8, 0x00, 0xFC, 0x66, 0x66, 0x66, 0x7C, 0x66, 0x66, 0x66, 0x66, 0xFC, 0x00, 0x00, 0x00, 0x00],
        2 => [0x00u8, 0x00, 0x3C, 0x66, 0xC2, 0xC0, 0xC0, 0xC0, 0xC0, 0xC2, 0x66, 0x3C, 0x00, 0x00, 0x00, 0x00],
        3 => [0x00u8, 0x00, 0xF8, 0x6C, 0x66, 0x66, 0x66, 0x66, 0x66, 0x66, 0x6C, 0xF8, 0x00, 0x00, 0x00, 0x00],
        4 => [0x00u8, 0x00, 0xFE, 0x66, 0x62, 0x68, 0x78, 0x68, 0x60, 0x62, 0x66, 0xFE, 0x00, 0x00, 0x00, 0x00],
        5 => [0x00u8, 0x00, 0xFE, 0x66, 0x62, 0x68, 0x78, 0x68, 0x60, 0x60, 0x60, 0xF0, 0x00, 0x00, 0x00, 0x00],
        _ => [0x00u8, 0x00, 0x7C, 0xC6, 0xC6, 0xC6, 0xC6, 0xC6, 0xC6, 0xC6, 0xC6, 0x7C, 0x00, 0x00, 0x00, 0x00],
    };
    if idx == 0 { assert(g@ =~= seq![0x00u8, 0x00, 0x10, 0x38, 0x6C, 0xC6, 0xC6, 0xFE, 0xC6, 0xC6, 0xC6, 0xC6, 0x00, 0x00, 0x00, 0x00]); }
    if idx == 1 { assert(g@ =~= seq![0x00u8, 0x00, 0xFC, 0x66, 0x66, 0x66, 0x7C, 0x66, 0x66, 0x66, 0x66, 0xFC, 0x00, 0x00, 0x00, 0x00]); }
    if idx == 2 { assert(g@ =~= seq![0x00u8, 0x00, 0x3C, 0x66, 0xC2, 0xC0, 0xC0, 0xC0, 0xC0, 0xC2, 0x66, 0x3C, 0x00, 0x00, 0x00, 0x00]); }
    if idx == 3 { assert(g@ =~= seq![0x00u8, 0x00, 0xF8, 0x6C, 0x66, 0x66, 0x66, 0x66, 0x66, 0x66, 0x6C, 0xF8, 0x00, 0x00, 0x00, 0x00]); }
    if idx == 4 { assert(g@ =~= seq![0x00u8, 0x00, 0xFE, 0x66, 0x62, 0x68, 0x78, 0x68, 0x60, 0x62, 0x66, 0xFE, 0x00, 0x00, 0x00, 0x00]); }
    if idx == 5 { assert(g@ =~= seq![0x00u8, 0x00, 0xFE, 0x66, 0x62, 0x68, 0x78, 0x68, 0x60, 0x60, 0x60, 0xF0, 0x00, 0x00, 0x00, 0x00]); }
    assert(g@ =~= uppercase_glyph(idx));
    g
}

fn get_lowercase_glyph(idx: u8) -> (g: [u8; 16])
    ensures
        g@ == lowercase_glyph(idx),
{
    let g: [u8; 16] = match idx {
        0 => [0x00u8, 0x00, 0x00, 0x00, 0x00, 0x78, 0x0C, 0x7C, 0xCC, 0xCC, 0xCC, 0x76, 0x00, 0x00, 0x00, 0x00],
        1 => [0x00u8, 0x00, 0xE0, 0x60, 0x60, 0x78, 0x6C, 0x66, 0x66, 0x66, 0x66, 0x7C, 0x00, 0x00, 0x00, 0x00],
        2 => [0x00u8, 0x00, 0x00, 0x00, 0x00, 0x7C, 0xC6, 0xC0, 0xC0, 0xC0, 0xC6, 0x7C, 0x00, 0x00, 0x00, 0x00],
        3 => [0x00u8, 0x00, 0x1C, 0x0C, 0x0C, 0x3C, 0x6C, 0xCC, 0xCC, 0xCC, 0xCC, 0x76, 0x00, 0x00, 0x00, 0x00],
        4 => [0x00u8, 0x00, 0x00, 0x00, 0x00, 0x7C, 0xC6, 0xFE, 0xC0, 0xC0, 0xC6, 0x7C, 0x00, 0x00, 0x00, 0x00],
        _ => [0x00u8, 0x00, 0x00, 0x00, 0x00, 0x7C, 0xC6, 0xC6, 0xC6, 0xC6, 0xC6, 0x7C, 0x00, 0x00, 0x00, 0x00],
    };
    if idx == 0 { assert(g@ =~= seq![0x00u8, 0x00, 0x00, 0x00, 0x00, 0x78, 0x0C, 0x7C, 0xCC, 0xCC, 0xCC, 0x76, 0x00, 0x00, 0x00, 0x00]); }
    if idx == 1 { assert(g@ =~= seq![0x00u8, 0x00, 0xE0, 0x60, 0x60, 0x78, 0x6C, 0x66, 0x66, 0x66, 0x66, 0x7C, 0x00, 0x00, 0x00, 0x00]); }
    if idx == 2 { assert(g@ =~= seq![0x00u8, 0x00, 0x00, 0x00, 0x00, 0x7C, 0xC6, 0xC0, 0xC0, 0xC0, 0xC6, 0x7C, 0x00, 0x00, 0x00, 0x00]); }
    if idx == 3 { assert(g@ =~= seq![0x00u8, 0x00, 0x1C, 0x0C, 0x0C, 0x3C, 0x6C, 0xCC, 0xCC, 0xCC, 0xCC, 0x76, 0x00, 0x00, 0x00, 0x00]); }
    if idx == 4 { assert(g@ =~= seq![0x00u8, 0x00, 0x00, 0x00, 0x00, 0x7C, 0xC6, 0xFE, 0xC0, 0xC0, 0xC6, 0x7C, 0x00, 0x00, 0x00, 0x00]); }
    assert(g@ =~= lowercase_glyph(idx));
    g
}

/// Get the 8x16 bitmap of a character, one byte per row (bit 7 leftmost)
pub fn get_glyph(c: char) -> (g: [u8; 16])
    ensures
        g@ == glyph_of(((c as u32) % 256) as u8),
{
    let code = ((c as u32) % 256) as u8;
    if 0x41 <= code && code <= 0x5A {
        return get_uppercase_glyph(code - 0x41);
    }
    if 0x61 <= code && code <= 0x7A {
        return get_lowercase_glyph(code - 0x61);
    }
    let g: [u8; 16] = match code {
        0x20 => [0x00u8, 0x00, 0x00, 0x00, 0x00, 0x00, 0x00, 0x00, 0x00, 0x00, 0x00, 0x00, 0x00, 0x00, 0x00, 0x00],
        0x21 => [0x00u8, 0x00, 0x18, 0x18, 0x18, 0x18, 0x18, 0x18, 0x18, 0x00, 0x18, 0x18, 0x00, 0x00, 0x00, 0x00],
        0x30 => [0x00u8, 0x00, 0x7C, 0xC6, 0xC6, 0xCE, 0xDE, 0xF6, 0xE6, 0xC6, 0xC6, 0x7C, 0x00, 0x00, 0x00, 0x00],
        0x31 => [0x00u8, 0x00, 0x18, 0x38, 0x78, 0x18, 0x18, 0x18, 0x18, 0x18, 0x18, 0x7E, 0x00, 0x00, 0x00, 0x00],
        0x32 => [0x00u8, 0x00, 0x7C, 0xC6, 0x06, 0x0C, 0x18, 0x30, 0x60, 0xC0, 0xC6, 0xFE, 0x00, 0x00, 0x00, 0x00],
        0x33 => [0x00u8, 0x00, 0x7C, 0xC6, 0x06, 0x06, 0x3C, 0x06, 0x06, 0x06, 0xC6, 0x7C, 0x00, 0x00, 0x00, 0x00],
        0x34 => [0x00u8, 0x00, 0x0C, 0x1C, 0x3C, 0x6C, 0xCC, 0xFE, 0x0C, 0x0C, 0x0C, 0x1E, 0x00, 0x00, 0x00, 0x00],
        0x35 => [0x00u8, 0x00, 0xFE, 0xC0, 0xC0, 0xC0, 0xFC, 0x06, 0x06, 0x06, 0xC6, 0x7C, 0x00, 0x00, 0x00, 0x00],
        0x36 => [0x00u8, 0x00, 0x38, 0x60, 0xC0, 0xC0, 0xFC, 0xC6, 0xC6, 0xC6, 0xC6, 0x7C, 0x00, 0x00, 0x00, 0x00],
        0x37 => [0x00u8, 0x00, 0xFE, 0xC6, 0x06, 0x06, 0x0C, 0x18, 0x30, 0x30, 0x30, 0x30, 0x00, 0x00, 0x00, 0x00],
        0x38 => [0x00u8, 0x00, 0x7C, 0xC6, 0xC6, 0xC6, 0x7C, 0xC6, 0xC6, 0xC6, 0xC6, 0x7C, 0x00, 0x00, 0x00, 0x00],
        0x39 => [0x00u8, 0x00, 0x7C, 0xC6, 0xC6, 0xC6, 0x7E, 0x06, 0x06, 0x06, 0x0C, 0x78, 0x00, 0x00, 0x00, 0x00],
        _ => [0xFFu8, 0x81, 0x81, 0x81, 0x81, 0x81, 0x81, 0x81, 0x81, 0x81, 0x81, 0x81, 0x81, 0x81, 0x81, 0xFF],
    };
    if code == 0x20 { assert(g@ =~= seq![0x00u8, 0x00, 0x00, 0x00, 0x00, 0x00, 0x00, 0x00, 0x00, 0x00, 0x00, 0x00, 0x00, 0x00, 0x00, 0x00]); }
    if code == 0x21 { assert(g@ =~= seq![0x00u8, 0x00, 0x18, 0x18, 0x18, 0x18, 0x18, 0x18, 0x18, 0x00, 0x18, 0x18, 0x00, 0x00, 0x00, 0x00]); }
    if code == 0x30 { assert(g@ =~= seq![0x00u8, 0x00, 0x7C, 0xC6, 0xC6, 0xCE, 0xDE, 0xF6, 0xE6, 0xC6, 0xC6, 0x7C, 0x00, 0x00, 0x00, 0x00]); }
    if code == 0x31 { assert(g@ =~= seq![0x00u8, 0x00, 0x18, 0x38, 0x78, 0x18, 0x18, 0x18, 0x18, 0x18, 0x18, 0x7E, 0x00, 0x00, 0x00, 0x00]); }
    if code == 0x32 { assert(g@ =~= seq![0x00u8, 0x00, 0x7C, 0xC6, 0x06, 0x0C, 0x18, 0x30, 0x60, 0xC0, 0xC6, 0xFE, 0x00, 0x00, 0x00, 0x00]); }
    if code == 0x33 { assert(g@ =~= seq![0x00u8, 0x00, 0x7C, 0xC6, 0x06, 0x06, 0x3C, 0x06, 0x06, 0x06, 0xC6, 0x7C, 0x00, 0x00, 0x00, 0x00]); }
    if code == 0x34 { assert(g@ =~= seq![0x00u8, 0x00, 0x0C, 0x1C, 0x3C, 0x6C, 0xCC, 0xFE, 0x0C, 0x0C, 0x0C, 0x1E, 0x00, 0x00, 0x00, 0x00]); }
    if code == 0x35 { assert(g@ =~= seq![0x00u8, 0x00, 0xFE, 0xC0, 0xC0, 0xC0, 0xFC, 0x06, 0x06, 0x06, 0xC6, 0x7C, 0x00, 0x00, 0x00, 0x00]); }
    if code == 0x36 { assert(g@ =~= seq![0x00u8, 0x00, 0x38, 0x60, 0xC0, 0xC0, 0xFC, 0xC6, 0xC6, 0xC6, 0xC6, 0x7C, 0x00, 0x00, 0x00, 0x00]); }
    if code == 0x37 { assert(g@ =~= seq![0x00u8, 0x00, 0xFE, 0xC6, 0x06, 0x06, 0x0C, 0x18, 0x30, 0x30, 0x30, 0x30, 0x00, 0x00, 0x00, 0x00]); }
    if code == 0x38 { assert(g@ =~= seq![0x00u8, 0x00, 0x7C, 0xC6, 0xC6, 0xC6, 0x7C, 0xC6, 0xC6, 0xC6, 0xC6, 0x7C, 0x00, 0x00, 0x00, 0x00]); }
    if code == 0x39 { assert(g@ =~= seq![0x00u8, 0x00, 0x7C, 0xC6, 0xC6, 0xC6, 0x7E, 0x06, 0x06, 0x06, 0x0C, 0x78, 0x00, 0x00, 0x00, 0x00]); }
    assert(g@ =~= glyph_of(code));
    g
}
/// The 1 bits of a glyph row are foreground, the 0 bits background, bit 7 leftmost.
pub open spec fn glyph_bit(bits: u8, x: u32) -> bool {
    (bits >> ((7 - x) as u32)) & 1 != 0
}

/// The buffer after the first `n` pixels of one glyph row are drawn at (`px`, `py`).
pub open spec fn render_row_spec(buf: Seq<u8>, width: u32, height: u32, pitch: u32, px: u32, py: u32, bits: u8, n: nat,
    fg: (u8, u8, u8), bg: (u8, u8, u8)) -> Seq<u8>
    decreases n,
{
    if n == 0 {
        buf
    } else {
        let x = (n - 1) as u32;
        let c = if glyph_bit(bits, x) { fg } else { bg };
        set_pixel_spec(render_row_spec(buf, width, height, pitch, px, py, bits, (n - 1) as nat, fg, bg),
            width, height, pitch, (px + x) as u32, py, c.0, c.1, c.2)
    }
}

/// The buffer after the first `rows` rows of `glyph` are drawn at (`px`, `py`).
pub open spec fn render_glyph_spec(buf: Seq<u8>, width: u32, height: u32, pitch: u32, px: u32, py: u32, glyph: Seq<u8>,
    rows: nat, fg: (u8, u8, u8), bg: (u8, u8, u8)) -> Seq<u8>
    decreases rows,
{
    if rows == 0 {
        buf
    } else {
        render_row_spec(render_glyph_spec(buf, width, height, pitch, px, py, glyph, (rows - 1) as nat, fg, bg),
            width, height, pitch, px, (py + rows - 1) as u32, glyph[rows - 1], 8, fg, bg)
    }
}

/// Framebuffer console state
pub struct Console {
    /// Screen width in characters
    pub cols: u32,
    /// Screen height in characters
    pub rows: u32,
    /// Current cursor column
    pub cursor_col: u32,
    /// Current cursor row
    pub cursor_row: u32,
    /// Current foreground color
    pub foreground: Color,
    /// Current background color
    pub background: Color,
    /// Screen buffer (character cells), row after row
    pub buffer: Vec<Cell>,
    /// Pixel width
    pub pixel_width: u32,
    /// Pixel height
    pub pixel_height: u32,
}

/// The text on screen and the cursor position.
pub struct TextState {
    pub cells: Seq<Cell>,
    pub col: int,
    pub row: int,
}

/// The cells after `c` is written at (`col`, `row`) in colors `fg` on `bg` (nothing off screen).
pub open spec fn put_cell(cells: Seq<Cell>, cols: int, rows: int, col: int, row: int, c: char, fg: Color, bg: Color) -> Seq<Cell> {
    if 0 <= col < cols && 0 <= row < rows {
        cells.update(row * cols + col, Cell { character: c, foreground: fg, background: bg })
    } else {
        cells
    }
}

/// The cells moved up one row, the last row blank in the default colors.
pub open spec fn scroll_cells(cells: Seq<Cell>, cols: int, rows: int) -> Seq<Cell> {
    Seq::new(cells.len(), |i: int| if i < (rows - 1) * cols { cells[i + cols] } else { default_cell() })
}

/// After a move: past the last column wraps to the next line, past the last line scrolls.
pub open spec fn settle(cells: Seq<Cell>, col: int, row: int, cols: int, rows: int) -> TextState {
    let (c1, r1) = if col >= cols { (0int, row + 1) } else { (col, row) };
    if r1 >= rows {
        TextState { cells: scroll_cells(cells, cols, rows), col: c1, row: rows - 1 }
    } else {
        TextState { cells, col: c1, row: r1 }
    }
}

/// A visible character written at the cursor, which then advances.
pub open spec fn put_visible(st: TextState, cols: int, rows: int, fg: Color, bg: Color, c: char) -> TextState {
    settle(put_cell(st.cells, cols, rows, st.col, st.row, c, fg, bg), st.col + 1, st.row, cols, rows)
}

/// `n` spaces written at the cursor.
pub open spec fn spaces(st: TextState, cols: int, rows: int, fg: Color, bg: Color, n: nat) -> TextState
    decreases n,
{
    if n == 0 {
        st
    } else {
        put_visible(spaces(st, cols, rows, fg, bg, (n - 1) as nat), cols, rows, fg, bg, ' ')
    }
}

/// The text state after one character: newline, carriage return, tab to the next
/// multiple of 8, backspace (erasing, not past the line start), a visible character,
/// or any other control character (ignored).
pub open spec fn put_char_text(st: TextState, cols: int, rows: int, fg: Color, bg: Color, c: char) -> TextState {
    if c == '\n' {
        settle(st.cells, 0, st.row + 1, cols, rows)
    } else if c == '\r' {
        settle(st.cells, 0, st.row, cols, rows)
    } else if c == '\t' {
        spaces(st, cols, rows, fg, bg, (8 - st.col % 8) as nat)
    } else if c == '\x08' {
        if st.col > 0 {
            TextState { cells: put_cell(st.cells, cols, rows, st.col - 1, st.row, ' ', fg, bg), col: st.col - 1, row: st.row }
        } else {
            st
        }
    } else if c >= ' ' {
        put_visible(st, cols, rows, fg, bg, c)
    } else {
        settle(st.cells, st.col, st.row, cols, rows)
    }
}

/// The text state after the characters `s`, in order.
pub open spec fn write_text(st: TextState, cols: int, rows: int, fg: Color, bg: Color, s: Seq<char>) -> TextState
    decreases s.len(),
{
    if s.len() == 0 {
        st
    } else {
        put_char_text(write_text(st, cols, rows, fg, bg, s.drop_last()), cols, rows, fg, bg, s.last())
    }
}

/// The framebuffer, if any, keeps its geometry and size.
pub open spec fn fb_kept(before: Option<FramebufferInfo>, after: Option<FramebufferInfo>) -> bool {
    match before {
        Some(f) => after is Some && f.same_shape(after.unwrap()) && after.unwrap().geometry_ok(),
        None => after is None,
    }
}

/// A framebuffer to draw into, if there is one, is well formed.
pub open spec fn fb_ok(fb: Option<FramebufferInfo>) -> bool {
    match fb {
        Some(f) => f.geometry_ok(),
        None => true,
    }
}

/// A framebuffer's width, height and pitch.
pub open spec fn geom(f: FramebufferInfo) -> (u32, u32, u32) {
    (f.width, f.height, f.pitch)
}

/// The bytes `buf` with `cell` drawn at character position (`col`, `row`) of a
/// framebuffer of geometry `g`.
pub open spec fn draw_cell_at(buf: Seq<u8>, g: (u32, u32, u32), col: int, row: int, cell: Cell) -> Seq<u8> {
    render_glyph_spec(buf, g.0, g.1, g.2, (col * FONT_WIDTH) as u32, (row * FONT_HEIGHT) as u32,
        glyph_of(((cell.character as u32) % 256) as u8), 16, rgb_of(cell.foreground), rgb_of(cell.background))
}

/// The bytes `buf` once the first `n` of `cells`, `cols` to a row, are drawn.
pub open spec fn rendered_seq(cells: Seq<Cell>, cols: u32, g: (u32, u32, u32), buf: Seq<u8>, n: nat) -> Seq<u8>
    decreases n,
{
    if n == 0 || cols == 0 {
        buf
    } else {
        let i = n - 1;
        draw_cell_at(rendered_seq(cells, cols, g, buf, (n - 1) as nat), g, i % (cols as int), i / (cols as int), cells[i])
    }
}

/// The framebuffer bytes `buf` once the first `n` cells of the console, in
/// row-major order, are drawn into it.
pub open spec fn rendered_cells(c: Console, f: FramebufferInfo, buf: Seq<u8>, n: nat) -> Seq<u8> {
    rendered_seq(c.buffer@, c.cols, geom(f), buf, n)
}

/// What `settle` draws: the whole screen again when it scrolls, else nothing.
pub open spec fn settle_fb(cells: Seq<Cell>, col: int, row: int, cols: int, rows: int, g: (u32, u32, u32), buf: Seq<u8>) -> Seq<u8> {
    let r1 = if col >= cols { row + 1 } else { row };
    if r1 >= rows {
        rendered_seq(scroll_cells(cells, cols, rows), cols as u32, g, buf, (rows * cols) as nat)
    } else {
        buf
    }
}

/// What `put_cell` draws: the new cell, when it is on screen.
pub open spec fn put_cell_fb(cols: int, rows: int, col: int, row: int, c: char, fg: Color, bg: Color, g: (u32, u32, u32),
    buf: Seq<u8>) -> Seq<u8> {
    if 0 <= col < cols && 0 <= row < rows {
        draw_cell_at(buf, g, col, row, Cell { character: c, foreground: fg, background: bg })
    } else {
        buf
    }
}

/// What `put_visible` draws.
pub open spec fn put_visible_fb(st: TextState, cols: int, rows: int, fg: Color, bg: Color, c: char, g: (u32, u32, u32),
    buf: Seq<u8>) -> Seq<u8> {
    settle_fb(put_cell(st.cells, cols, rows, st.col, st.row, c, fg, bg), st.col + 1, st.row, cols, rows, g,
        put_cell_fb(cols, rows, st.col, st.row, c, fg, bg, g, buf))
}

/// What `spaces` draws.
pub open spec fn spaces_fb(st: TextState, cols: int, rows: int, fg: Color, bg: Color, n: nat, g: (u32, u32, u32),
    buf: Seq<u8>) -> Seq<u8>
    decreases n,
{
    if n == 0 {
        buf
    } else {
        put_visible_fb(spaces(st, cols, rows, fg, bg, (n - 1) as nat), cols, rows, fg, bg, ' ', g,
            spaces_fb(st, cols, rows, fg, bg, (n - 1) as nat, g, buf))
    }
}

/// What `put_char_text` draws into framebuffer bytes `buf` of geometry `g`.
pub open spec fn put_char_fb(st: TextState, cols: int, rows: int, fg: Color, bg: Color, c: char, g: (u32, u32, u32),
    buf: Seq<u8>) -> Seq<u8> {
    if c == '\n' {
        settle_fb(st.cells, 0, st.row + 1, cols, rows, g, buf)
    } else if c == '\r' {
        settle_fb(st.cells, 0, st.row, cols, rows, g, buf)
    } else if c == '\t' {
        spaces_fb(st, cols, rows, fg, bg, (8 - st.col % 8) as nat, g, buf)
    } else if c == '\x08' {
        if st.col > 0 {
            put_cell_fb(cols, rows, st.col - 1, st.row, ' ', fg, bg, g, buf)
        } else {
            buf
        }
    } else if c >= ' ' {
        put_visible_fb(st, cols, rows, fg, bg, c, g, buf)
    } else {
        settle_fb(st.cells, st.col, st.row, cols, rows, g, buf)
    }
}

/// What `write_text` draws.
pub open spec fn write_fb(st: TextState, cols: int, rows: int, fg: Color, bg: Color, s: Seq<char>, g: (u32, u32, u32),
    buf: Seq<u8>) -> Seq<u8>
    decreases s.len(),
{
    if s.len() == 0 {
        buf
    } else {
        put_char_fb(write_text(st, cols, rows, fg, bg, s.drop_last()), cols, rows, fg, bg, s.last(), g,
            write_fb(st, cols, rows, fg, bg, s.drop_last(), g, buf))
    }
}

impl Console {
    /// The grid matches the pixel size in font cells, is at least one cell, and holds
    /// the cursor.
    pub open spec fn wf(&self) -> bool {
        &&& self.cols == self.pixel_width / FONT_WIDTH
        &&& self.rows == self.pixel_height / FONT_HEIGHT
        &&& self.cols >= 1
        &&& self.rows >= 1
        &&& self.cols * self.rows <= u32::MAX
        &&& self.buffer@.len() == self.cols * self.rows
        &&& self.cursor_col < self.cols
        &&& self.cursor_row < self.rows
    }

    /// The text on screen and the cursor.
    pub open spec fn text(&self) -> TextState {
        TextState { cells: self.buffer@, col: self.cursor_col as int, row: self.cursor_row as int }
    }

    /// A console of as many 8x16 cells as fit, all blank, cursor at the top left,
    /// light gray on black
    pub fn new(pixel_width: u32, pixel_height: u32) -> (c: Console)
        requires
            (pixel_width / FONT_WIDTH) * (pixel_height / FONT_HEIGHT) <= u32::MAX,
        ensures
            c.cols == pixel_width / FONT_WIDTH,
            c.rows == pixel_height / FONT_HEIGHT,
            c.cursor_col == 0,
            c.cursor_row == 0,
            c.foreground == Color::LightGray,
            c.background == Color::Black,
            c.buffer@.len() == c.cols * c.rows,
            forall|i: int| 0 <= i < c.buffer@.len() ==> #[trigger] c.buffer@[i] == default_cell(),
            c.pixel_width == pixel_width,
            c.pixel_height == pixel_height,
            pixel_width >= FONT_WIDTH && pixel_height >= FONT_HEIGHT ==> c.wf(),
    {
        let cols = pixel_width / FONT_WIDTH;
        let rows = pixel_height / FONT_HEIGHT;
        let buffer_size = (cols * rows) as usize;
        let mut buffer: Vec<Cell> = Vec::new();
        let mut i: usize = 0;
        while i < buffer_size
            invariant
                i <= buffer_size,
                buffer@.len() == i,
                forall|k: int| 0 <= k < i ==> #[trigger] buffer@[k] == default_cell(),
            decreases buffer_size - i,
        {
            buffer.push(Cell::default());
            i = i + 1;
        }
        Console {
            cols,
            rows,
            cursor_col: 0,
            cursor_row: 0,
            foreground: Color::LightGray,
            background: Color::Black,
            buffer,
            pixel_width,
            pixel_height,
        }
    }

    /// Clear the screen: every cell blank in the current colors, the cursor home, the
    /// framebuffer filled with the background color
    pub fn clear(&mut self, fb: &mut Option<FramebufferInfo>)
        requires
            old(self).wf(),
            fb_ok(*old(fb)),
        ensures
            final(self).wf(),
            final(self).cols == old(self).cols && final(self).rows == old(self).rows,
            final(self).pixel_width == old(self).pixel_width && final(self).pixel_height == old(self).pixel_height,
            final(self).foreground == old(self).foreground && final(self).background == old(self).background,
            final(self).cursor_col == 0 && final(self).cursor_row == 0,
            final(self).buffer@.len() == old(self).buffer@.len(),
            forall|i: int| 0 <= i < final(self).buffer@.len() ==> #[trigger] final(self).buffer@[i]
                == (Cell { character: ' ', foreground: old(self).foreground, background: old(self).background }),
            fb_kept(*old(fb), *final(fb)),
            match *old(fb) {
                Some(f) => final(fb).unwrap().buffer@ == fill_rect_spec(f.buffer@, f.width, f.height, f.pitch, 0, 0, f.width,
                    f.height as nat, rgb_of(old(self).background).0, rgb_of(old(self).background).1, rgb_of(old(self).background).2),
                None => true,
            },
    {
        let cell = Cell { character: ' ', foreground: self.foreground, background: self.background };
        let n = self.buffer.len();
        let mut i: usize = 0;
        while i < n
            invariant
                i <= n,
                n == self.buffer@.len(),
                self.wf(),
                self.cols == old(self).cols && self.rows == old(self).rows,
                self.pixel_width == old(self).pixel_width && self.pixel_height == old(self).pixel_height,
                self.cursor_col == old(self).cursor_col && self.cursor_row == old(self).cursor_row,
                self.foreground == old(self).foreground && self.background == old(self).background,
                cell == (Cell { character: ' ', foreground: old(self).foreground, background: old(self).background }),
                forall|k: int| 0 <= k < i ==> #[trigger] self.buffer@[k] == cell,
            decreases n - i,
        {
            self.buffer.set(i, cell);
            i = i + 1;
        }
        self.cursor_col = 0;
        self.cursor_row = 0;
        let (r, g, b) = self.background.to_rgb();
        match fb {
            Some(f) => f.clear(r, g, b),
            None => {},
        }
    }

    /// Set cursor position (ignored off screen)
    pub fn set_cursor(&mut self, col: u32, row: u32)
        requires
            old(self).wf(),
        ensures
            final(self).wf(),
            (col < old(self).cols && row < old(self).rows) ==> final(self).cursor_col == col && final(self).cursor_row == row,
            !(col < old(self).cols && row < old(self).rows) ==> final(self).cursor_col == old(self).cursor_col
                && final(self).cursor_row == old(self).cursor_row,
            final(self).buffer@ == old(self).buffer@,
            final(self).cols == old(self).cols && final(self).rows == old(self).rows,
            final(self).pixel_width == old(self).pixel_width && final(self).pixel_height == old(self).pixel_height,
            final(self).foreground == old(self).foreground && final(self).background == old(self).background,
    {
        if col < self.cols && row < self.rows {
            self.cursor_col = col;
            self.cursor_row = row;
        }
    }

    /// Get cursor position
    pub fn cursor(&self) -> (p: (u32, u32))
        ensures
            p == (self.cursor_col, self.cursor_row),
    {
        (self.cursor_col, self.cursor_row)
    }

    /// Set colors
    pub fn set_colors(&mut self, fg: Color, bg: Color)
        requires
            old(self).wf(),
        ensures
            final(self).wf(),
            final(self).foreground == fg && final(self).background == bg,
            final(self).buffer@ == old(self).buffer@,
            final(self).cursor_col == old(self).cursor_col && final(self).cursor_row == old(self).cursor_row,
            final(self).cols == old(self).cols && final(self).rows == old(self).rows,
            final(self).pixel_width == old(self).pixel_width && final(self).pixel_height == old(self).pixel_height,
    {
        self.foreground = fg;
        self.background = bg;
    }

    /// Draw the cell at (`col`, `row`) into the framebuffer
    fn render_cell(&self, fb: &mut Option<FramebufferInfo>, col: u32, row: u32)
        requires
            self.wf(),
            col < self.cols,
            row < self.rows,
            fb_ok(*old(fb)),
        ensures
            fb_kept(*old(fb), *final(fb)),
            match *old(fb) {
                Some(f) => {
                    let cell = self.buffer@[row * self.cols + col];
                    final(fb).unwrap().buffer@ == render_glyph_spec(f.buffer@, f.width, f.height, f.pitch,
                        (col * FONT_WIDTH) as u32, (row * FONT_HEIGHT) as u32,
                        glyph_of(((cell.character as u32) % 256) as u8), 16, rgb_of(cell.foreground), rgb_of(cell.background))
                },
                None => true,
            },
    {
        proof {
            assert(row * self.cols + col < self.cols * self.rows) by (nonlinear_arith)
                requires row < self.rows, col < self.cols;
            assert(col * 8 + 8 <= self.pixel_width && row * 16 + 16 <= self.pixel_height) by (nonlinear_arith)
                requires col < self.cols, row < self.rows, self.cols == self.pixel_width / 8, self.rows == self.pixel_height / 16;
        }
        let idx = (row * self.cols + col) as usize;
        let cell = self.buffer[idx];
        let glyph = get_glyph(cell.character);
        let fg = cell.foreground.to_rgb();
        let bg = cell.background.to_rgb();
        let px = col * FONT_WIDTH;
        let py = row * FONT_HEIGHT;
        match fb {
            None => {},
            Some(f) => {
                let ghost fw = f.width;
                let ghost fh = f.height;
                let ghost fp = f.pitch;
                let ghost start = f.buffer@;
                let ghost f0 = *f;
                let mut y: u32 = 0;
                while y < 16
                    invariant
                        y <= 16,
                        glyph@.len() == 16,
                        f.geometry_ok(),
                        f0.same_shape(*f),
                        f.width == fw && f.height == fh && f.pitch == fp,
                        py + 16 <= u32::MAX,
                        px + 8 <= u32::MAX,
                        f.buffer@ == render_glyph_spec(start, fw, fh, fp, px, py, glyph@, y as nat, fg, bg),
                    decreases 16 - y,
                {
                    let bits = glyph[y as usize];
                    let ghost row_start = f.buffer@;
                    let mut x: u32 = 0;
                    while x < 8
                        invariant
                            x <= 8,
                            y < 16,
                            f.geometry_ok(),
                            f0.same_shape(*f),
                            f.width == fw && f.height == fh && f.pitch == fp,
                            py + 16 <= u32::MAX,
                            px + 8 <= u32::MAX,
                            f.buffer@ == render_row_spec(row_start, fw, fh, fp, px, (py + y) as u32, bits, x as nat, fg, bg),
                        decreases 8 - x,
                    {
                        let bit = (bits >> (7 - x)) & 1;
                        if bit != 0 {
                            f.set_pixel(px + x, py + y, fg.0, fg.1, fg.2);
                        } else {
                            f.set_pixel(px + x, py + y, bg.0, bg.1, bg.2);
                        }
                        x = x + 1;
                    }
                    y = y + 1;
                }
            },
        }
    }

    /// Draw every cell, row by row
    fn render_all(&self, fb: &mut Option<FramebufferInfo>)
        requires
            self.wf(),
            fb_ok(*old(fb)),
        ensures
            fb_kept(*old(fb), *final(fb)),
            match *old(fb) {
                Some(f) => final(fb).unwrap().buffer@ == rendered_cells(*self, f, f.buffer@, (self.rows * self.cols) as nat),
                None => true,
            },
    {
        let mut row: u32 = 0;
        while row < self.rows
            invariant
                self.wf(),
                row <= self.rows,
                fb_kept(*old(fb), *fb),
                fb_ok(*fb),
                match *old(fb) {
                    Some(f) => fb.unwrap().buffer@ == rendered_cells(*self, f, f.buffer@, (row * self.cols) as nat),
                    None => true,
                },
            decreases self.rows - row,
        {
            let mut col: u32 = 0;
            while col < self.cols
                invariant
                    self.wf(),
                    row < self.rows,
                    col <= self.cols,
                    fb_kept(*old(fb), *fb),
                    fb_ok(*fb),
                    match *old(fb) {
                        Some(f) => fb.unwrap().buffer@ == rendered_cells(*self, f, f.buffer@, (row * self.cols + col) as nat),
                        None => true,
                    },
                decreases self.cols - col,
            {
                proof {
                    let cols = self.cols as int;
                    let i = row * cols + col;
                    assert(i % cols == col as int && i / cols == row as int) by (nonlinear_arith)
                        requires
                            0 <= col < cols,
                            row >= 0,
                            i == row * cols + col,
                    ;
                    assert(i + 1 <= self.rows * cols) by (nonlinear_arith)
                        requires
                            row < self.rows,
                            col < cols,
                            i == row * cols + col,
                    ;
                }
                self.render_cell(fb, col, row);
                col = col + 1;
            }
            proof {
                assert(row * self.cols + self.cols == (row + 1) * self.cols) by (nonlinear_arith);
            }
            row = row + 1;
        }
    }

    /// Write `c` at (`col`, `row`) in the current colors and draw it (nothing off screen)
    fn put_char_at(&mut self, fb: &mut Option<FramebufferInfo>, c: char, col: u32, row: u32)
        requires
            old(self).wf(),
            fb_ok(*old(fb)),
        ensures
            final(self).wf(),
            final(self).buffer@ == put_cell(old(self).buffer@, old(self).cols as int, old(self).rows as int, col as int, row as int,
                c, old(self).foreground, old(self).background),
            final(self).cols == old(self).cols && final(self).rows == old(self).rows,
            final(self).pixel_width == old(self).pixel_width && final(self).pixel_height == old(self).pixel_height,
            final(self).cursor_col == old(self).cursor_col && final(self).cursor_row == old(self).cursor_row,
            final(self).foreground == old(self).foreground && final(self).background == old(self).background,
            fb_kept(*old(fb), *final(fb)),
            match *old(fb) {
                Some(f) => final(fb).unwrap().buffer@ == put_cell_fb(old(self).cols as int, old(self).rows as int, col as int, row as int, c,
                    old(self).foreground, old(self).background, geom(f), f.buffer@),
                None => true,
            },
    {
        if col >= self.cols || row >= self.rows {
            return;
        }
        proof {
            assert(row * self.cols + col < self.cols * self.rows) by (nonlinear_arith)
                requires row < self.rows, col < self.cols;
        }
        let idx = (row * self.cols + col) as usize;
        self.buffer.set(idx, Cell { character: c, foreground: self.foreground, background: self.background });
        self.render_cell(fb, col, row);
    }

    /// Move every row up one, blank the last (default colors), and redraw everything
    fn scroll_up(&mut self, fb: &mut Option<FramebufferInfo>)
        requires
            old(self).wf(),
            fb_ok(*old(fb)),
        ensures
            final(self).wf(),
            final(self).buffer@ == scroll_cells(old(self).buffer@, old(self).cols as int, old(self).rows as int),
            final(self).cols == old(self).cols && final(self).rows == old(self).rows,
            final(self).pixel_width == old(self).pixel_width && final(self).pixel_height == old(self).pixel_height,
            final(self).cursor_col == old(self).cursor_col && final(self).cursor_row == old(self).cursor_row,
            final(self).foreground == old(self).foreground && final(self).background == old(self).background,
            fb_kept(*old(fb), *final(fb)),
            match *old(fb) {
                Some(f) => final(fb).unwrap().buffer@ == rendered_cells(*final(self), f, f.buffer@, (old(self).rows * old(self).cols) as nat),
                None => true,
            },
    {
        let cols = self.cols;
        let rows = self.rows;
        let ghost old_cells = self.buffer@;
        let ghost target = scroll_cells(old_cells, cols as int, rows as int);
        let mut row: u32 = 1;
        while row < rows
            invariant
                1 <= row <= rows,
                self.wf(),
                cols == self.cols && rows == self.rows,
                self.cols == old(self).cols && self.rows == old(self).rows,
                self.pixel_width == old(self).pixel_width && self.pixel_height == old(self).pixel_height,
                self.cursor_col == old(self).cursor_col && self.cursor_row == old(self).cursor_row,
                self.foreground == old(self).foreground && self.background == old(self).background,
                old_cells == old(self).buffer@,
                forall|i: int| 0 <= i < (row - 1) * cols ==> #[trigger] self.buffer@[i] == old_cells[i + cols],
                forall|i: int| (row - 1) * cols <= i < self.buffer@.len() ==> #[trigger] self.buffer@[i] == old_cells[i],
            decreases rows - row,
        {
            let mut col: u32 = 0;
            while col < cols
                invariant
                    1 <= row < rows,
                    col <= cols,
                    self.wf(),
                    cols == self.cols && rows == self.rows,
                    self.cols == old(self).cols && self.rows == old(self).rows,
                    self.pixel_width == old(self).pixel_width && self.pixel_height == old(self).pixel_height,
                    self.cursor_col == old(self).cursor_col && self.cursor_row == old(self).cursor_row,
                    self.foreground == old(self).foreground && self.background == old(self).background,
                    forall|i: int| 0 <= i < (row - 1) * cols + col ==> #[trigger] self.buffer@[i] == old_cells[i + cols],
                    forall|i: int| (row - 1) * cols + col <= i < self.buffer@.len() ==> #[trigger] self.buffer@[i] == old_cells[i],
                decreases cols - col,
            {
                proof {
                    assert(row * cols + col < cols * rows) by (nonlinear_arith)
                        requires row < rows, col < cols;
                    assert((row - 1) * cols + col + cols == row * cols + col) by (nonlinear_arith);
                }
                let src = (row * cols + col) as usize;
                let dst = ((row - 1) * cols + col) as usize;
                let cell = self.buffer[src];
                self.buffer.set(dst, cell);
                col = col + 1;
            }
            proof {
                assert((row - 1) * cols + cols == row * cols) by (nonlinear_arith);
            }
            row = row + 1;
        }
        let last_row = rows - 1;
        let mut col: u32 = 0;
        while col < cols
            invariant
                col <= cols,
                self.wf(),
                cols == self.cols && rows == self.rows,
                last_row == rows - 1,
                self.cols == old(self).cols && self.rows == old(self).rows,
                self.pixel_width == old(self).pixel_width && self.pixel_height == old(self).pixel_height,
                self.cursor_col == old(self).cursor_col && self.cursor_row == old(self).cursor_row,
                self.foreground == old(self).foreground && self.background == old(self).background,
                forall|i: int| 0 <= i < last_row * cols ==> #[trigger] self.buffer@[i] == old_cells[i + cols],
                forall|i: int| last_row * cols <= i < last_row * cols + col ==> #[trigger] self.buffer@[i] == default_cell(),
            decreases cols - col,
        {
            proof {
                assert(last_row * cols + col < cols * rows) by (nonlinear_arith)
                    requires last_row < rows, col < cols;
            }
            let idx = (last_row * cols + col) as usize;
            self.buffer.set(idx, Cell::default());
            col = col + 1;
        }
        proof {
            assert(last_row * cols + cols == cols * rows) by (nonlinear_arith)
                requires last_row == rows - 1;
            assert(self.buffer@ =~= target);
        }
        self.render_all(fb);
    }

    /// Wrap past the last column and scroll past the last row.
    fn settle_cursor(&mut self, fb: &mut Option<FramebufferInfo>)
        requires
            old(self).cols >= 1,
            old(self).rows >= 1,
            old(self).cursor_col <= old(self).cols,
            old(self).cursor_row <= old(self).rows,
            ({
                let c = Console { cursor_col: 0, cursor_row: 0, ..*old(self) };
                c.wf()
            }),
            fb_ok(*old(fb)),
        ensures
            final(self).wf(),
            final(self).text() == settle(old(self).buffer@, old(self).cursor_col as int, old(self).cursor_row as int,
                old(self).cols as int, old(self).rows as int),
            final(self).cols == old(self).cols && final(self).rows == old(self).rows,
            final(self).pixel_width == old(self).pixel_width && final(self).pixel_height == old(self).pixel_height,
            final(self).foreground == old(self).foreground && final(self).background == old(self).background,
            fb_kept(*old(fb), *final(fb)),
            match *old(fb) {
                Some(f) => final(fb).unwrap().buffer@ == settle_fb(old(self).buffer@, old(self).cursor_col as int, old(self).cursor_row as int,
                    old(self).cols as int, old(self).rows as int, geom(f), f.buffer@),
                None => true,
            },
    {
        if self.cursor_col >= self.cols {
            self.cursor_col = 0;
            self.cursor_row = self.cursor_row + 1;
        }
        if self.cursor_row >= self.rows {
            self.cursor_row = 0;
            self.scroll_up(fb);
            self.cursor_row = self.rows - 1;
        }
    }

    /// Write a printable character at the cursor and advance it
    fn put_visible_char(&mut self, fb: &mut Option<FramebufferInfo>, c: char)
        requires
            old(self).wf(),
            fb_ok(*old(fb)),
        ensures
            final(self).wf(),
            final(self).text() == put_visible(old(self).text(), old(self).cols as int, old(self).rows as int,
                old(self).foreground, old(self).background, c),
            final(self).cols == old(self).cols && final(self).rows == old(self).rows,
            final(self).pixel_width == old(self).pixel_width && final(self).pixel_height == old(self).pixel_height,
            final(self).foreground == old(self).foreground && final(self).background == old(self).background,
            fb_kept(*old(fb), *final(fb)),
            match *old(fb) {
                Some(f) => final(fb).unwrap().buffer@ == put_visible_fb(old(self).text(), old(self).cols as int, old(self).rows as int,
                    old(self).foreground, old(self).background, c, geom(f), f.buffer@),
                None => true,
            },
    {
        let col = self.cursor_col;
        let row = self.cursor_row;
        self.put_char_at(fb, c, col, row);
        self.cursor_col = self.cursor_col + 1;
        self.settle_cursor(fb);
    }

    /// Write a character at the cursor (see `put_char_text` for what each does), then
    /// draw what changed
    pub fn put_char(&mut self, fb: &mut Option<FramebufferInfo>, c: char)
        requires
            old(self).wf(),
            fb_ok(*old(fb)),
        ensures
            final(self).wf(),
            final(self).text() == put_char_text(old(self).text(), old(self).cols as int, old(self).rows as int,
                old(self).foreground, old(self).background, c),
            final(self).cols == old(self).cols && final(self).rows == old(self).rows,
            final(self).pixel_width == old(self).pixel_width && final(self).pixel_height == old(self).pixel_height,
            final(self).foreground == old(self).foreground && final(self).background == old(self).background,
            fb_kept(*old(fb), *final(fb)),
            match *old(fb) {
                Some(f) => final(fb).unwrap().buffer@ == put_char_fb(old(self).text(), old(self).cols as int, old(self).rows as int,
                    old(self).foreground, old(self).background, c, geom(f), f.buffer@),
                None => true,
            },
    {
        if c == '\n' {
            self.cursor_col = 0;
            self.cursor_row = self.cursor_row + 1;
            self.settle_cursor(fb);
        } else if c == '\r' {
            self.cursor_col = 0;
            self.settle_cursor(fb);
        } else if c == '\t' {
            let tab = 8 - (self.cursor_col % 8);
            let ghost st0 = self.text();
            let mut k: u32 = 0;
            while k < tab
                invariant
                    k <= tab,
                    self.wf(),
                    self.cols == old(self).cols && self.rows == old(self).rows,
                    self.pixel_width == old(self).pixel_width && self.pixel_height == old(self).pixel_height,
                    self.foreground == old(self).foreground && self.background == old(self).background,
                    self.text() == spaces(st0, old(self).cols as int, old(self).rows as int, old(self).foreground,
                        old(self).background, k as nat),
                    fb_kept(*old(fb), *fb),
                    fb_ok(*fb),
                    match *old(fb) {
                        Some(f) => fb.unwrap().buffer@ == spaces_fb(st0, old(self).cols as int, old(self).rows as int,
                            old(self).foreground, old(self).background, k as nat, geom(f), f.buffer@),
                        None => true,
                    },
                decreases tab - k,
            {
                self.put_visible_char(fb, ' ');
                k = k + 1;
            }
        } else if c == '\x08' {
            if self.cursor_col > 0 {
                self.cursor_col = self.cursor_col - 1;
                let col = self.cursor_col;
                let row = self.cursor_row;
                self.put_char_at(fb, ' ', col, row);
            }
        } else if c >= ' ' {
            self.put_visible_char(fb, c);
        } else {
            self.settle_cursor(fb);
        }
    }

    /// Write a string, character by character
    pub fn write_str(&mut self, fb: &mut Option<FramebufferInfo>, s: &str)
        requires
            old(self).wf(),
            fb_ok(*old(fb)),
        ensures
            final(self).wf(),
            final(self).text() == write_text(old(self).text(), old(self).cols as int, old(self).rows as int,
                old(self).foreground, old(self).background, s@),
            final(self).cols == old(self).cols && final(self).rows == old(self).rows,
            final(self).foreground == old(self).foreground && final(self).background == old(self).background,
            fb_kept(*old(fb), *final(fb)),
            match *old(fb) {
                Some(f) => final(fb).unwrap().buffer@ == write_fb(old(self).text(), old(self).cols as int, old(self).rows as int,
                    old(self).foreground, old(self).background, s@, geom(f), f.buffer@),
                None => true,
            },
    {
        let chars = chars_of(s);
        let mut i: usize = 0;
        while i < chars.len()
            invariant
                i <= chars@.len(),
                chars@ == s@,
                self.wf(),
                self.cols == old(self).cols && self.rows == old(self).rows,
                self.pixel_width == old(self).pixel_width && self.pixel_height == old(self).pixel_height,
                self.foreground == old(self).foreground && self.background == old(self).background,
                self.text() == write_text(old(self).text(), old(self).cols as int, old(self).rows as int,
                    old(self).foreground, old(self).background, s@.subrange(0, i as int)),
                fb_kept(*old(fb), *fb),
                fb_ok(*fb),
                match *old(fb) {
                    Some(f) => fb.unwrap().buffer@ == write_fb(old(self).text(), old(self).cols as int, old(self).rows as int,
                        old(self).foreground, old(self).background, s@.subrange(0, i as int), geom(f), f.buffer@),
                    None => true,
                },
            decreases chars@.len() - i,
        {
            proof {
                assert(s@.subrange(0, i as int + 1).drop_last() =~= s@.subrange(0, i as int));
            }
            self.put_char(fb, chars[i]);
            i = i + 1;
        }
        assert(s@.subrange(0, s@.len() as int) =~= s@);
    }

    /// Get dimensions in characters (columns, rows)
    pub fn dimensions(&self) -> (d: (u32, u32))
        ensures
            d == (self.cols, self.rows),
    {
        (self.cols, self.rows)
    }
}

/// The console, if one was set up, is well formed.
pub open spec fn console_ok(con: Option<Console>) -> bool {
    match con {
        Some(c) => c.wf(),
        None => true,
    }
}

/// Set up a console for a `width` by `height` screen and clear it
pub fn init(fb: &mut Option<FramebufferInfo>, width: u32, height: u32) -> (c: Console)
    requires
        width >= FONT_WIDTH,
        height >= FONT_HEIGHT,
        (width / FONT_WIDTH) * (height / FONT_HEIGHT) <= u32::MAX,
        fb_ok(*old(fb)),
    ensures
        c.wf(),
        c.cols == width / FONT_WIDTH,
        c.rows == height / FONT_HEIGHT,
        c.cursor_col == 0 && c.cursor_row == 0,
        forall|i: int| 0 <= i < c.buffer@.len() ==> #[trigger] c.buffer@[i] == default_cell(),
        fb_kept(*old(fb), *final(fb)),
{
    let mut console = Console::new(width, height);
    console.clear(fb);
    console
}

/// Clear the screen, if there is a console
pub fn clear(con: &mut Option<Console>, fb: &mut Option<FramebufferInfo>)
    requires
        console_ok(*old(con)),
        fb_ok(*old(fb)),
    ensures
        console_ok(*final(con)),
        old(con).is_some() == final(con).is_some(),
        fb_kept(*old(fb), *final(fb)),
        match (*old(con), *old(fb)) {
            (Some(c), Some(f)) => final(fb).unwrap().buffer@ == fill_rect_spec(f.buffer@, f.width, f.height, f.pitch, 0, 0,
                f.width, f.height as nat, rgb_of(c.background).0, rgb_of(c.background).1, rgb_of(c.background).2),
            (None, _) => *final(fb) == *old(fb),
            _ => true,
        },
{
    match con {
        Some(c) => c.clear(fb),
        None => {},
    }
}

/// Write a string to the console, if there is one
pub fn write_str(con: &mut Option<Console>, fb: &mut Option<FramebufferInfo>, s: &str)
    requires
        console_ok(*old(con)),
        fb_ok(*old(fb)),
    ensures
        console_ok(*final(con)),
        old(con).is_some() == final(con).is_some(),
        match *old(con) {
            Some(c) => final(con).unwrap().text() == write_text(c.text(), c.cols as int, c.rows as int, c.foreground, c.background, s@),
            None => true,
        },
        fb_kept(*old(fb), *final(fb)),
        match (*old(con), *old(fb)) {
            (Some(c), Some(f)) => final(fb).unwrap().buffer@ == write_fb(c.text(), c.cols as int, c.rows as int, c.foreground,
                c.background, s@, geom(f), f.buffer@),
            (None, _) => *final(fb) == *old(fb),
            _ => true,
        },
{
    match con {
        Some(c) => c.write_str(fb, s),
        None => {},
    }
}

/// Write a character to the console, if there is one
pub fn put_char(con: &mut Option<Console>, fb: &mut Option<FramebufferInfo>, ch: char)
    requires
        console_ok(*old(con)),
        fb_ok(*old(fb)),
    ensures
        console_ok(*final(con)),
        old(con).is_some() == final(con).is_some(),
        match *old(con) {
            Some(c) => final(con).unwrap().text() == put_char_text(c.text(), c.cols as int, c.rows as int, c.foreground, c.background, ch),
            None => true,
        },
        fb_kept(*old(fb), *final(fb)),
        match (*old(con), *old(fb)) {
            (Some(c), Some(f)) => final(fb).unwrap().buffer@ == put_char_fb(c.text(), c.cols as int, c.rows as int, c.foreground,
                c.background, ch, geom(f), f.buffer@),
            (None, _) => *final(fb) == *old(fb),
            _ => true,
        },
{
    match con {
        Some(c) => c.put_char(fb, ch),
        None => {},
    }
}

/// Set the cursor position, if there is a console
pub fn set_cursor(con: &mut Option<Console>, col: u32, row: u32)
    requires
        console_ok(*old(con)),
    ensures
        console_ok(*final(con)),
        old(con).is_some() == final(con).is_some(),
        match *old(con) {
            Some(c) => if col < c.cols && row < c.rows {
                final(con).unwrap().cursor_col == col && final(con).unwrap().cursor_row == row
            } else {
                final(con).unwrap().cursor_col == c.cursor_col && final(con).unwrap().cursor_row == c.cursor_row
            },
            None => true,
        },
{
    match con {
        Some(c) => c.set_cursor(col, row),
        None => {},
    }
}

/// Get the cursor position, if there is a console
pub fn cursor(con: &Option<Console>) -> (r: Option<(u32, u32)>)
    ensures
        r == match *con {
            Some(c) => Some((c.cursor_col, c.cursor_row)),
            None => None,
        },
{
    match con {
        Some(c) => Some(c.cursor()),
        None => None,
    }
}

/// Set colors, if there is a console
pub fn set_colors(con: &mut Option<Console>, fg: Color, bg: Color)
    requires
        console_ok(*old(con)),
    ensures
        console_ok(*final(con)),
        old(con).is_some() == final(con).is_some(),
        final(con).is_some() ==> final(con).unwrap().foreground == fg && final(con).unwrap().background == bg,
{
    match con {
        Some(c) => c.set_colors(fg, bg),
        None => {},
    }
}

/// Check if console is available
pub fn is_available(con: &Option<Console>) -> (b: bool)
    ensures
        b == con.is_some(),
{
    con.is_some()
}

/// Get console dimensions (cols, rows), if there is a console
pub fn dimensions(con: &Option<Console>) -> (r: Option<(u32, u32)>)
    ensures
        r == match *con {
            Some(c) => Some((c.cols, c.rows)),
            None => None,
        },
{
    match con {
        Some(c) => Some(c.dimensions()),
        None => None,
    }
}

/// Writes formatted text to the console
pub struct ConsoleWriter;

} // verus!
