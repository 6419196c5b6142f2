use vstd::prelude::*;

verus! {

/// Number of LEDs in each vertical run of the strip (rows of the matrix).
pub const HEIGHT: usize = 8;

/// Number of vertical runs of the strip (columns of the matrix).
pub const WIDTH: usize = 32;

/// Number of pixels in a frame.
pub const NUM_PIXELS: usize = 256;

/// Number of digit cells shown left to right; each cell is four columns wide.
pub const NUM_DIGITS: usize = 8;

/// Width in columns of one digit cell.
pub const CELL_WIDTH: usize = 4;

/// An 8-bit-per-channel colour.
#[derive(Clone, Copy, Debug, PartialEq, Eq, Structural)]
pub struct Rgb {
    pub r: u8,
    pub g: u8,
    pub b: u8,
}

/// The unlit pixel.
pub open spec fn black() -> Rgb {
    Rgb { r: 0, g: 0, b: 0 }
}

/// Every channel divided by four (integer division): quarter brightness.
pub open spec fn quarter(c: Rgb) -> Rgb {
    Rgb { r: c.r / 4, g: c.g / 4, b: c.b / 4 }
}

impl Rgb {
    /// The unlit pixel.
    pub fn black() -> (r: Rgb)
        ensures
            r == black(),
    {
        Rgb { r: 0, g: 0, b: 0 }
    }

    /// This colour at quarter brightness.
    pub fn quarter(self) -> (r: Rgb)
        ensures
            r == quarter(self),
    {
        Rgb { r: self.r / 4, g: self.g / 4, b: self.b / 4 }
    }
}

/// Colour of each digit cell, leftmost (index 0) to rightmost (index 7):
/// a gradient from purple to red.
pub open spec fn palette(index: int) -> Rgb {
    if index == 0 {
        Rgb { r: 255, g: 223, b: 0 }
    } else if index == 1 {
        Rgb { r: 127, g: 0, b: 84 }
    } else if index == 2 {
        Rgb { r: 255, g: 10, b: 100 }
    } else if index == 3 {
        Rgb { r: 127, g: 32, b: 5 }
    } else if index == 4 {
        Rgb { r: 127, g: 64, b: 0 }
    } else if index == 5 {
        Rgb { r: 0, g: 0, b: 255 }
    } else if index == 6 {
        Rgb { r: 0, g: 127, b: 0 }
    } else {
        Rgb { r: 255, g: 0, b: 0 }
    }
}

/// The colour of digit cell `index`.
pub fn palette_color(index: usize) -> (r: Rgb)
    requires
        index < NUM_DIGITS,
    ensures
        r == palette(index as int),
{
    if index == 0 {
        Rgb { r: 255, g: 223, b: 0 }
    } else if index == 1 {
        Rgb { r: 127, g: 0, b: 84 }
    } else if index == 2 {
        Rgb { r: 255, g: 10, b: 100 }
    } else if index == 3 {
        Rgb { r: 127, g: 32, b: 5 }
    } else if index == 4 {
        Rgb { r: 127, g: 64, b: 0 }
    } else if index == 5 {
        Rgb { r: 0, g: 0, b: 255 }
    } else if index == 6 {
        Rgb { r: 0, g: 127, b: 0 }
    } else {
        Rgb { r: 255, g: 0, b: 0 }
    }
}

/// 4-bit-wide, 8-row bitmap font for the digits 0 to 9. Bit 3 of a row is
/// its leftmost column.
pub const GLYPHS: [[u8; 8]; 10] = [
    [0b0110, 0b1001, 0b1001, 0b1001, 0b1001, 0b1001, 0b1001, 0b0110],
    [0b0010, 0b1110, 0b0010, 0b0010, 0b0010, 0b0010, 0b0010, 0b1111],
    [0b0110, 0b1001, 0b0001, 0b0010, 0b0100, 0b1000, 0b1000, 0b1111],
    [0b0110, 0b1001, 0b0001, 0b0010, 0b0001, 0b0001, 0b1001, 0b0110],
    [0b1001, 0b1001, 0b1001, 0b1111, 0b0001, 0b0001, 0b0001, 0b0001],
    [0b1111, 0b1000, 0b1000, 0b1110, 0b0001, 0b0001, 0b1001, 0b0110],
    [0b0110, 0b1001, 0b1000, 0b1110, 0b1001, 0b1001, 0b1001, 0b0110],
    [0b1111, 0b0001, 0b0010, 0b0010, 0b0100, 0b0100, 0b0100, 0b0100],
    [0b0110, 0b1001, 0b1001, 0b0110, 0b1001, 0b1001, 0b1001, 0b0110],
    [0b0110, 0b1001, 0b1001, 0b0111, 0b0001, 0b0001, 0b1001, 0b0110],
];

/// Row `row` of the glyph of `digit`.
pub open spec fn glyph_row(digit: int, row: int) -> u8 {
    GLYPHS[digit][row]
}

/// Whether column `col` (0 = leftmost of four) is lit in a glyph row.
pub open spec fn row_bit(bits: u8, col: int) -> bool {
    (bits >> ((3 - col) as u8)) & 1u8 == 1u8
}

/// Whether the glyph of `digit` lights `(row, col)` of its cell.
pub open spec fn glyph_lit(digit: int, row: int, col: int) -> bool {
    row_bit(glyph_row(digit, row), col)
}

/// Whether the glyph of `digit` lights `(row, col)` of its cell.
pub fn glyph_pixel(digit: usize, row: usize, col: usize) -> (r: bool)
    requires
        digit < 10,
        row < HEIGHT,
        col < CELL_WIDTH,
    ensures
        r == glyph_lit(digit as int, row as int, col as int),
{
    let bits: u8 = GLYPHS[digit][row];
    (bits >> ((3 - col) as u8)) & 1u8 == 1u8
}

} // verus!
