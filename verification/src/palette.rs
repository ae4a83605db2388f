//! The named 16-entry colour palette plus a transparent "clear" entry, and
//! the palette-index characters of the console's escape-sequence language.

use vstd::prelude::*;

verus! {

/// A named colour of the fixed console palette.
#[derive(Debug, Clone, Copy, PartialEq, Eq, Structural)]
pub enum Colour {
    Clear,
    Black,
    Blue,
    Green,
    Cyan,
    Red,
    Magenta,
    Brown,
    LightGray,
    DarkGray,
    LightBlue,
    LightGreen,
    LightCyan,
    LightRed,
    Pink,
    Yellow,
    White,
}

impl Colour {
    /// The packed 32-bit value (`0xRRGGBBAA`) of this named colour. Every
    /// entry but `Clear` is fully opaque.
    pub open spec fn spec_value(self) -> u32 {
        match self {
            Colour::Clear => 0x00_00_00_00,
            Colour::Black => 0x00_00_00_FF,
            Colour::Blue => 0x00_00_AA_FF,
            Colour::Green => 0x00_AA_00_FF,
            Colour::Cyan => 0x00_AA_AA_FF,
            Colour::Red => 0xAA_00_00_FF,
            Colour::Magenta => 0xAA_00_AA_FF,
            Colour::Brown => 0xAA_55_00_FF,
            Colour::LightGray => 0xAA_AA_AA_FF,
            Colour::DarkGray => 0x55_55_55_FF,
            Colour::LightBlue => 0x55_55_FF_FF,
            Colour::LightGreen => 0x55_FF_55_FF,
            Colour::LightCyan => 0x55_FF_FF_FF,
            Colour::LightRed => 0xFF_55_55_FF,
            Colour::Pink => 0xFF_55_FF_FF,
            Colour::Yellow => 0xFF_FF_55_FF,
            Colour::White => 0xFF_FF_FF_FF,
        }
    }

    /// Returns the packed 32-bit value of this named colour.
    #[verifier::when_used_as_spec(spec_value)]
    pub fn value(self) -> (r: u32)
        ensures
            r == self.spec_value(),
    {
        match self {
            Colour::Clear => 0x00_00_00_00,
            Colour::Black => 0x00_00_00_FF,
            Colour::Blue => 0x00_00_AA_FF,
            Colour::Green => 0x00_AA_00_FF,
            Colour::Cyan => 0x00_AA_AA_FF,
            Colour::Red => 0xAA_00_00_FF,
            Colour::Magenta => 0xAA_00_AA_FF,
            Colour::Brown => 0xAA_55_00_FF,
            Colour::LightGray => 0xAA_AA_AA_FF,
            Colour::DarkGray => 0x55_55_55_FF,
            Colour::LightBlue => 0x55_55_FF_FF,
            Colour::LightGreen => 0x55_FF_55_FF,
            Colour::LightCyan => 0x55_FF_FF_FF,
            Colour::LightRed => 0xFF_55_55_FF,
            Colour::Pink => 0xFF_55_FF_FF,
            Colour::Yellow => 0xFF_FF_55_FF,
            Colour::White => 0xFF_FF_FF_FF,
        }
    }
}

/// A console palette: one packed colour per named entry.
#[derive(Debug, Clone, Copy, PartialEq, Eq, Structural)]
pub struct Palette {
    pub clear: u32,
    pub black: u32,
    pub blue: u32,
    pub green: u32,
    pub cyan: u32,
    pub magenta: u32,
    pub red: u32,
    pub brown: u32,
    pub lightgray: u32,
    pub darkgray: u32,
    pub lightblue: u32,
    pub lightgreen: u32,
    pub lightcyan: u32,
    pub lightred: u32,
    pub pink: u32,
    pub yellow: u32,
    pub white: u32,
}

impl Palette {
    /// The flat palette: each entry holds the packed value of its named
    /// colour.
    pub open spec fn spec_flat() -> Palette {
        Palette {
            clear: Colour::Clear.spec_value(),
            black: Colour::Black.spec_value(),
            blue: Colour::Blue.spec_value(),
            green: Colour::Green.spec_value(),
            cyan: Colour::Cyan.spec_value(),
            magenta: Colour::Magenta.spec_value(),
            red: Colour::Red.spec_value(),
            brown: Colour::Brown.spec_value(),
            lightgray: Colour::LightGray.spec_value(),
            darkgray: Colour::DarkGray.spec_value(),
            lightblue: Colour::LightBlue.spec_value(),
            lightgreen: Colour::LightGreen.spec_value(),
            lightcyan: Colour::LightCyan.spec_value(),
            lightred: Colour::LightRed.spec_value(),
            pink: Colour::Pink.spec_value(),
            yellow: Colour::Yellow.spec_value(),
            white: Colour::White.spec_value(),
        }
    }

    /// Builds the flat palette.
    #[verifier::when_used_as_spec(spec_flat)]
    pub fn flat() -> (r: Palette)
        ensures
            r == Palette::spec_flat(),
    {
        Palette {
            clear: Colour::Clear.value(),
            black: Colour::Black.value(),
            blue: Colour::Blue.value(),
            green: Colour::Green.value(),
            cyan: Colour::Cyan.value(),
            magenta: Colour::Magenta.value(),
            red: Colour::Red.value(),
            brown: Colour::Brown.value(),
            lightgray: Colour::LightGray.value(),
            darkgray: Colour::DarkGray.value(),
            lightblue: Colour::LightBlue.value(),
            lightgreen: Colour::LightGreen.value(),
            lightcyan: Colour::LightCyan.value(),
            lightred: Colour::LightRed.value(),
            pink: Colour::Pink.value(),
            yellow: Colour::Yellow.value(),
            white: Colour::White.value(),
        }
    }

    /// The palette entry selected by an escape-parameter character:
    /// `'0'`-`'9'` and `'a'`-`'f'` name the sixteen palette entries in
    /// order, `'r'` names the transparent clear entry, and every other
    /// character selects nothing.
    pub open spec fn spec_entry(self, code: char) -> Option<u32> {
        match code {
            'r' => Some(self.clear),
            '0' => Some(self.black),
            '1' => Some(self.blue),
            '2' => Some(self.green),
            '3' => Some(self.cyan),
            '4' => Some(self.red),
            '5' => Some(self.magenta),
            '6' => Some(self.brown),
            '7' => Some(self.lightgray),
            '8' => Some(self.darkgray),
            '9' => Some(self.lightblue),
            'a' => Some(self.lightgreen),
            'b' => Some(self.lightcyan),
            'c' => Some(self.lightred),
            'd' => Some(self.pink),
            'e' => Some(self.yellow),
            'f' => Some(self.white),
            _ => None,
        }
    }

    /// Looks up the palette entry selected by an escape-parameter character.
    #[verifier::when_used_as_spec(spec_entry)]
    pub fn entry(self, code: char) -> (r: Option<u32>)
        ensures
            r == self.spec_entry(code),
    {
        match code {
            'r' => Some(self.clear),
            '0' => Some(self.black),
            '1' => Some(self.blue),
            '2' => Some(self.green),
            '3' => Some(self.cyan),
            '4' => Some(self.red),
            '5' => Some(self.magenta),
            '6' => Some(self.brown),
            '7' => Some(self.lightgray),
            '8' => Some(self.darkgray),
            '9' => Some(self.lightblue),
            'a' => Some(self.lightgreen),
            'b' => Some(self.lightcyan),
            'c' => Some(self.lightred),
            'd' => Some(self.pink),
            'e' => Some(self.yellow),
            'f' => Some(self.white),
            _ => None,
        }
    }
}

} // verus!
