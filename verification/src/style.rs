//! Colours and per-cell styling.
//!
//! A [`TerminalStyle`] is opaque data that the engine threads through cells;
//! converting it to a concrete colour model (ANSI 4/16/256-colour, 24-bit,
//! grayscale) is a backend concern.

use vstd::prelude::*;

verus! {

/// A 4-bit ANSI terminal colour.
///
/// Usually two of these pair up into a foreground and a background.
#[derive(Copy, Clone, Debug, Hash, Eq, PartialEq)]
pub enum Ansi4 {
    /// ANSI colour 0.
    Black,
    /// ANSI colour 1.
    Red,
    /// ANSI colour 2.
    Green,
    /// ANSI colour 3.
    Yellow,
    /// ANSI colour 4.
    Blue,
    /// ANSI colour 5.
    Magenta,
    /// ANSI colour 6.
    Cyan,
    /// ANSI colour 7.
    White,
    /// ANSI colour 8.
    BrightBlack,
    /// ANSI colour 9.
    BrightRed,
    /// ANSI colour 10.
    BrightGreen,
    /// ANSI colour 11.
    BrightYellow,
    /// ANSI colour 12.
    BrightBlue,
    /// ANSI colour 13.
    BrightMagenta,
    /// ANSI colour 14.
    BrightCyan,
    /// ANSI colour 15.
    BrightWhite,
}

impl Ansi4 {
    /// The colour's 4-bit code.
    pub open spec fn sp_code(&self) -> u8 {
        match self {
            Ansi4::Black => 0,
            Ansi4::Red => 1,
            Ansi4::Green => 2,
            Ansi4::Yellow => 3,
            Ansi4::Blue => 4,
            Ansi4::Magenta => 5,
            Ansi4::Cyan => 6,
            Ansi4::White => 7,
            Ansi4::BrightBlack => 8,
            Ansi4::BrightRed => 9,
            Ansi4::BrightGreen => 10,
            Ansi4::BrightYellow => 11,
            Ansi4::BrightBlue => 12,
            Ansi4::BrightMagenta => 13,
            Ansi4::BrightCyan => 14,
            Ansi4::BrightWhite => 15,
        }
    }

    /// The colour's 4-bit code, `0..=15`.
    pub fn code(&self) -> (r: u8)
        ensures
            r == self.sp_code(),
            r < 16,
    {
        match self {
            Ansi4::Black => 0,
            Ansi4::Red => 1,
            Ansi4::Green => 2,
            Ansi4::Yellow => 3,
            Ansi4::Blue => 4,
            Ansi4::Magenta => 5,
            Ansi4::Cyan => 6,
            Ansi4::White => 7,
            Ansi4::BrightBlack => 8,
            Ansi4::BrightRed => 9,
            Ansi4::BrightGreen => 10,
            Ansi4::BrightYellow => 11,
            Ansi4::BrightBlue => 12,
            Ansi4::BrightMagenta => 13,
            Ansi4::BrightCyan => 14,
            Ansi4::BrightWhite => 15,
        }
    }
}

impl Default for Ansi4 {
    /// Black, the conventional terminal default.
    fn default() -> (r: Self)
        ensures
            r == Ansi4::Black,
    {
        Ansi4::Black
    }
}

/// The colour formats a terminal cell may carry.
///
/// Some terminals cannot display every format; how an unsupported format is
/// shown is backend-specific, but a backend should never abort on one.
#[derive(Copy, Clone, Debug, Hash, Eq, PartialEq)]
#[non_exhaustive]
pub enum TerminalColour {
    /// 24-bit true colour.
    Rgb24(u8, u8, u8),
    /// 8-bit grayscale.
    Luma8(u8),
    /// 16-colour ANSI.
    Ansi16(Ansi4),
    /// 256-colour ANSI.
    Ansi256(u8),
    /// Fall back to the terminal's own default colour.
    TerminalDefault,
}

impl Default for TerminalColour {
    /// The terminal's own default colour.
    fn default() -> (r: Self)
        ensures
            r == TerminalColour::TerminalDefault,
    {
        TerminalColour::TerminalDefault
    }
}

/// A cell's styling data.
///
/// Every field is optional; an unset field falls back along the precedence
/// cell → terminal default → global default.
#[derive(Copy, Clone, Debug, Hash, Eq, PartialEq)]
pub struct TerminalStyle {
    /// The foreground colour, if set.
    pub fg_colour: Option<TerminalColour>,
    /// The background colour, if set.
    pub bg_colour: Option<TerminalColour>,
    /// The font weight, if set; 700 and above conventionally means bold.
    pub font_weight: Option<u16>,
    /// Whether the cell is underlined, if set.
    pub underline: Option<bool>,
    /// Whether foreground and background are switched, if set.
    pub invert: Option<bool>,
}

impl TerminalStyle {
    /// A style with every field unset.
    pub fn new() -> (r: Self)
        ensures
            r == TerminalStyle::sp_new(),
    {
        TerminalStyle {
            fg_colour: None,
            bg_colour: None,
            font_weight: None,
            underline: None,
            invert: None,
        }
    }

    /// The style with every field unset.
    pub open spec fn sp_new() -> Self {
        TerminalStyle {
            fg_colour: None,
            bg_colour: None,
            font_weight: None,
            underline: None,
            invert: None,
        }
    }

    /// Sets the foreground colour.
    pub fn fg(self, fg_colour: TerminalColour) -> (r: Self)
        ensures
            r == (TerminalStyle { fg_colour: Some(fg_colour), ..self }),
    {
        TerminalStyle { fg_colour: Some(fg_colour), ..self }
    }

    /// Sets the background colour.
    pub fn bg(self, bg_colour: TerminalColour) -> (r: Self)
        ensures
            r == (TerminalStyle { bg_colour: Some(bg_colour), ..self }),
    {
        TerminalStyle { bg_colour: Some(bg_colour), ..self }
    }

    /// Sets the background colour to a 4-bit ANSI colour.
    pub fn bg_ansi4(self, bg_colour: Ansi4) -> (r: Self)
        ensures
            r == (TerminalStyle {
                bg_colour: Some(TerminalColour::Ansi16(bg_colour)),
                ..self
            }),
    {
        self.bg(TerminalColour::Ansi16(bg_colour))
    }

    /// Sets the foreground colour to a 4-bit ANSI colour.
    pub fn fg_ansi4(self, fg_colour: Ansi4) -> (r: Self)
        ensures
            r == (TerminalStyle {
                fg_colour: Some(TerminalColour::Ansi16(fg_colour)),
                ..self
            }),
    {
        self.fg(TerminalColour::Ansi16(fg_colour))
    }

    /// Sets the underline flag.
    pub fn underlined(self, underline: bool) -> (r: Self)
        ensures
            r == (TerminalStyle { underline: Some(underline), ..self }),
    {
        TerminalStyle { underline: Some(underline), ..self }
    }

    /// Switches foreground and background.
    pub fn inverted(self) -> (r: Self)
        ensures
            r == (TerminalStyle { invert: Some(true), ..self }),
    {
        TerminalStyle { invert: Some(true), ..self }
    }

    /// Sets the font weight; 700 and above conventionally means bold.
    pub fn weighted(self, font_weight: u16) -> (r: Self)
        ensures
            r == (TerminalStyle { font_weight: Some(font_weight), ..self }),
    {
        TerminalStyle { font_weight: Some(font_weight), ..self }
    }
}

impl Default for TerminalStyle {
    /// A style with every field unset.
    fn default() -> (r: Self)
        ensures
            r == TerminalStyle::sp_new(),
    {
        TerminalStyle::new()
    }
}

} // verus!
