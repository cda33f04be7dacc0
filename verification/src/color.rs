//! The sixteen-colour palette and the packed attribute byte of a cell.

use vstd::prelude::*;

verus! {

/// One of the sixteen colours of the text-mode palette.
#[derive(Clone, Copy, Debug, PartialEq, Eq, Structural)]
pub enum Color {
    Black,
    Blue,
    Green,
    Cyan,
    Red,
    Magenta,
    Brown,
    Gray,
    DarkGray,
    BrightBlue,
    BrightGreen,
    BrightCyan,
    BrightRed,
    BrightMagenta,
    Yellow,
    White,
}

impl Color {
    /// The four-bit hardware code of the colour.
    pub open spec fn spec_code(self) -> u8 {
        match self {
            Color::Black => 0x0,
            Color::Blue => 0x1,
            Color::Green => 0x2,
            Color::Cyan => 0x3,
            Color::Red => 0x4,
            Color::Magenta => 0x5,
            Color::Brown => 0x6,
            Color::Gray => 0x7,
            Color::DarkGray => 0x8,
            Color::BrightBlue => 0x9,
            Color::BrightGreen => 0xA,
            Color::BrightCyan => 0xB,
            Color::BrightRed => 0xC,
            Color::BrightMagenta => 0xD,
            Color::Yellow => 0xE,
            Color::White => 0xF,
        }
    }

    /// The four-bit hardware code of the colour.
    #[verifier::when_used_as_spec(spec_code)]
    pub fn code(self) -> (code: u8)
        ensures
            code == self.spec_code(),
            code < 16,
    {
        match self {
            Color::Black => 0x0,
            Color::Blue => 0x1,
            Color::Green => 0x2,
            Color::Cyan => 0x3,
            Color::Red => 0x4,
            Color::Magenta => 0x5,
            Color::Brown => 0x6,
            Color::Gray => 0x7,
            Color::DarkGray => 0x8,
            Color::BrightBlue => 0x9,
            Color::BrightGreen => 0xA,
            Color::BrightCyan => 0xB,
            Color::BrightRed => 0xC,
            Color::BrightMagenta => 0xD,
            Color::Yellow => 0xE,
            Color::White => 0xF,
        }
    }
}

/// The attribute byte of a foreground and background pair: the background
/// code in the high nibble, the foreground code in the low nibble.
pub open spec fn packed(foreground: Color, background: Color) -> u8 {
    (background.code() << 4) | foreground.code()
}

/// The attribute byte gives both colours back: the high nibble is the
/// background code and the low nibble the foreground code, so two different
/// pairs never share a byte.
pub proof fn law_packed_keeps_both_codes(foreground: Color, background: Color)
    ensures
        packed(foreground, background) == 16 * background.code() + foreground.code(),
        packed(foreground, background) >> 4 == background.code(),
        packed(foreground, background) & 0x0f == foreground.code(),
{
    let high: u8 = background.code();
    let low: u8 = foreground.code();
    assert(high < 16 && low < 16);
    assert((high << 4) | low == 16 * high + low && ((high << 4) | low) >> 4 == high && ((high << 4)
        | low) & 0x0f == low) by (bit_vector)
        requires
            high < 16,
            low < 16,
    ;
}

/// The attribute byte of a cell.
#[derive(Clone, Copy, Debug, PartialEq, Eq, Structural)]
pub struct ColorCode(u8);

impl View for ColorCode {
    type V = u8;

    closed spec fn view(&self) -> u8 {
        self.0
    }
}

impl ColorCode {
    /// Packs a foreground and a background colour into one attribute byte.
    pub fn new(foreground: Color, background: Color) -> (code: ColorCode)
        ensures
            code@ == packed(foreground, background),
            code@ == 16 * background.code() + foreground.code(),
    {
        let high: u8 = background.code();
        let low: u8 = foreground.code();
        assert((high << 4) | low == 16 * high + low) by (bit_vector)
            requires
                high < 16,
                low < 16,
        ;
        ColorCode((high << 4) | low)
    }

    /// The attribute byte itself.
    pub fn to_byte(self) -> (byte: u8)
        ensures
            byte == self@,
    {
        self.0
    }
}

impl Default for ColorCode {
    /// Green on black.
    fn default() -> (code: ColorCode)
        ensures
            code@ == packed(Color::Green, Color::Black),
            code@ == 0x02,
    {
        let code = ColorCode::new(Color::Green, Color::Black);
        code
    }
}

} // verus!
