use vstd::prelude::*;

verus! {

/// One glyph of the built-in hexadecimal font: five rows, one byte per row,
/// the high four bits of each byte being the visible pixels.
pub struct Font(pub [u8; 5]);

/// The five row bytes of glyph `g` (the hexadecimal digit `g`) of the
/// built-in font.
pub open spec fn font_rows(g: int) -> Seq<u8> {
    if g == 0x0 {
        seq![0xF0u8, 0x90, 0x90, 0x90, 0xF0]
    } else if g == 0x1 {
        seq![0x20u8, 0x60, 0x20, 0x20, 0x70]
    } else if g == 0x2 {
        seq![0xF0u8, 0x10, 0xF0, 0x80, 0xF0]
    } else if g == 0x3 {
        seq![0xF0u8, 0x10, 0xF0, 0x10, 0xF0]
    } else if g == 0x4 {
        seq![0x90u8, 0x90, 0xF0, 0x10, 0x10]
    } else if g == 0x5 {
        seq![0xF0u8, 0x80, 0xF0, 0x10, 0xF0]
    } else if g == 0x6 {
        seq![0xF0u8, 0x80, 0xF0, 0x90, 0xF0]
    } else if g == 0x7 {
        seq![0xF0u8, 0x10, 0x20, 0x40, 0x40]
    } else if g == 0x8 {
        seq![0xF0u8, 0x90, 0xF0, 0x90, 0xF0]
    } else if g == 0x9 {
        seq![0xF0u8, 0x90, 0xF0, 0x10, 0xF0]
    } else if g == 0xA {
        seq![0xF0u8, 0x90, 0xF0, 0x90, 0x90]
    } else if g == 0xB {
        seq![0xE0u8, 0x90, 0xE0, 0x90, 0xE0]
    } else if g == 0xC {
        seq![0xF0u8, 0x80, 0x80, 0x80, 0xF0]
    } else if g == 0xD {
        seq![0xE0u8, 0x90, 0x90, 0x90, 0xE0]
    } else if g == 0xE {
        seq![0xF0u8, 0x80, 0xF0, 0x80, 0xF0]
    } else {
        seq![0xF0u8, 0x80, 0xF0, 0x80, 0x80]
    }
}

/// Row byte `row` of glyph `g`.
pub open spec fn font_byte(g: int, row: int) -> u8 {
    font_rows(g)[row]
}

impl Font {
    /// The glyph for the hexadecimal digit `g`.
    pub fn glyph(g: u8) -> (f: Font)
        requires
            g < 16,
        ensures
            f.0@ == font_rows(g as int),
    {
        match g {
            0x0 => Font([0xF0, 0x90, 0x90, 0x90, 0xF0]),
            0x1 => Font([0x20, 0x60, 0x20, 0x20, 0x70]),
            0x2 => Font([0xF0, 0x10, 0xF0, 0x80, 0xF0]),
            0x3 => Font([0xF0, 0x10, 0xF0, 0x10, 0xF0]),
            0x4 => Font([0x90, 0x90, 0xF0, 0x10, 0x10]),
            0x5 => Font([0xF0, 0x80, 0xF0, 0x10, 0xF0]),
            0x6 => Font([0xF0, 0x80, 0xF0, 0x90, 0xF0]),
            0x7 => Font([0xF0, 0x10, 0x20, 0x40, 0x40]),
            0x8 => Font([0xF0, 0x90, 0xF0, 0x90, 0xF0]),
            0x9 => Font([0xF0, 0x90, 0xF0, 0x10, 0xF0]),
            0xA => Font([0xF0, 0x90, 0xF0, 0x90, 0x90]),
            0xB => Font([0xE0, 0x90, 0xE0, 0x90, 0xE0]),
            0xC => Font([0xF0, 0x80, 0x80, 0x80, 0xF0]),
            0xD => Font([0xE0, 0x90, 0x90, 0x90, 0xE0]),
            0xE => Font([0xF0, 0x80, 0xF0, 0x80, 0xF0]),
            _ => Font([0xF0, 0x80, 0xF0, 0x80, 0x80]),
        }
    }

    /// Row byte `row` of this glyph.
    pub fn row(&self, row: usize) -> (b: u8)
        requires
            row < 5,
        ensures
            b == self.0@[row as int],
    {
        self.0[row]
    }
}

} // verus!
