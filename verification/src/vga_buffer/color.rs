//! Colors available for characters on the diagnostic character grid, and the
//! packed foreground/background attribute byte.

use vstd::prelude::*;

verus! {

/// The standard sixteen-color palette of the character grid.
#[allow(dead_code)]
#[derive(Debug, Clone, Copy, PartialEq, Eq)]
pub enum Color {
    Black,
    Blue,
    Green,
    Cyan,
    Red,
    Magenta,
    Brown,
    LightGray,
    DarkGray,
    LightBlue,
    LightGreen,
    LightCyan,
    LightRed,
    Pink,
    Yellow,
    White,
}

impl Color {
    /// The palette number of this color, in the range 0..=15.
    pub open spec fn spec_code(self) -> u8 {
        match self {
            Color::Black => 0,
            Color::Blue => 1,
            Color::Green => 2,
            Color::Cyan => 3,
            Color::Red => 4,
            Color::Magenta => 5,
            Color::Brown => 6,
            Color::LightGray => 7,
            Color::DarkGray => 8,
            Color::LightBlue => 9,
            Color::LightGreen => 10,
            Color::LightCyan => 11,
            Color::LightRed => 12,
            Color::Pink => 13,
            Color::Yellow => 14,
            Color::White => 15,
        }
    }

    /// Returns the palette number of this color.
    pub fn code(self) -> (c: u8)
        ensures
            c == self.spec_code(),
            c <= 15,
    {
        match self {
            Color::Black => 0,
            Color::Blue => 1,
            Color::Green => 2,
            Color::Cyan => 3,
            Color::Red => 4,
            Color::Magenta => 5,
            Color::Brown => 6,
            Color::LightGray => 7,
            Color::DarkGray => 8,
            Color::LightBlue => 9,
            Color::LightGreen => 10,
            Color::LightCyan => 11,
            Color::LightRed => 12,
            Color::Pink => 13,
            Color::Yellow => 14,
            Color::White => 15,
        }
    }
}

/// A combination of a foreground and a background color, packed into one
/// attribute byte: the background color in the upper four bits, the
/// foreground color in the lower four.
#[derive(Debug, Clone, Copy, PartialEq, Eq)]
pub struct ColorCode(u8);

impl ColorCode {
    /// The packed attribute byte.
    pub closed spec fn spec_value(self) -> u8 {
        self.0
    }

    /// Creates a new `ColorCode` with the given foreground and background
    /// colors.
    pub fn new(foreground: Color, background: Color) -> (r: ColorCode)
        ensures
            r.spec_value() == background.spec_code() * 16 + foreground.spec_code(),
    {
        ColorCode(background.code() * 16 + foreground.code())
    }

    /// Returns the packed attribute byte.
    pub fn value(self) -> (v: u8)
        ensures
            v == self.spec_value(),
    {
        self.0
    }
}

} // verus!
