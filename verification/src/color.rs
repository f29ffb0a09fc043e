//! The sixteen colours of the device and the attribute byte made of two of them.

use vstd::prelude::*;

verus! {

/// One of the sixteen colours of the device's palette, in the palette's order.
#[derive(Debug, Clone, Copy, PartialEq, Eq, Structural)]
pub enum Color {
    Black,
    Blue,
    Green,
    Cyan,
    Red,
    Magenta,
    Brown,
    LightGray,
    DarkGray,
    LightBlue,
    LightGreen,
    LightCyan,
    LightRed,
    Pink,
    Yellow,
    White,
}

impl Color {
    /// The colour's number in the palette, from 0 (black) to 15 (white).
    pub open spec fn spec_code(self) -> u8 {
        match self {
            Color::Black => 0,
            Color::Blue => 1,
            Color::Green => 2,
            Color::Cyan => 3,
            Color::Red => 4,
            Color::Magenta => 5,
            Color::Brown => 6,
            Color::LightGray => 7,
            Color::DarkGray => 8,
            Color::LightBlue => 9,
            Color::LightGreen => 10,
            Color::LightCyan => 11,
            Color::LightRed => 12,
            Color::Pink => 13,
            Color::Yellow => 14,
            Color::White => 15,
        }
    }

    /// The colour that has the palette number `code % 16`.
    pub open spec fn spec_from_nibble(code: u8) -> Color {
        let n = code % 16;
        if n == 0 {
            Color::Black
        } else if n == 1 {
            Color::Blue
        } else if n == 2 {
            Color::Green
        } else if n == 3 {
            Color::Cyan
        } else if n == 4 {
            Color::Red
        } else if n == 5 {
            Color::Magenta
        } else if n == 6 {
            Color::Brown
        } else if n == 7 {
            Color::LightGray
        } else if n == 8 {
            Color::DarkGray
        } else if n == 9 {
            Color::LightBlue
        } else if n == 10 {
            Color::LightGreen
        } else if n == 11 {
            Color::LightCyan
        } else if n == 12 {
            Color::LightRed
        } else if n == 13 {
            Color::Pink
        } else if n == 14 {
            Color::Yellow
        } else {
            Color::White
        }
    }

    /// The colour's number in the palette.
    #[verifier::when_used_as_spec(spec_code)]
    pub fn code(self) -> (code: u8)
        ensures
            code == self.spec_code(),
            code < 16,
    {
        match self {
            Color::Black => 0,
            Color::Blue => 1,
            Color::Green => 2,
            Color::Cyan => 3,
            Color::Red => 4,
            Color::Magenta => 5,
            Color::Brown => 6,
            Color::LightGray => 7,
            Color::DarkGray => 8,
            Color::LightBlue => 9,
            Color::LightGreen => 10,
            Color::LightCyan => 11,
            Color::LightRed => 12,
            Color::Pink => 13,
            Color::Yellow => 14,
            Color::White => 15,
        }
    }

    /// The colour with the given palette number, if there is one.
    pub fn from_code(code: u8) -> (color: Option<Color>)
        ensures
            color is Some <==> code < 16,
            color matches Some(c) ==> c.spec_code() == code && c == Color::spec_from_nibble(code),
    {
        match code {
            0 => Some(Color::Black),
            1 => Some(Color::Blue),
            2 => Some(Color::Green),
            3 => Some(Color::Cyan),
            4 => Some(Color::Red),
            5 => Some(Color::Magenta),
            6 => Some(Color::Brown),
            7 => Some(Color::LightGray),
            8 => Some(Color::DarkGray),
            9 => Some(Color::LightBlue),
            10 => Some(Color::LightGreen),
            11 => Some(Color::LightCyan),
            12 => Some(Color::LightRed),
            13 => Some(Color::Pink),
            14 => Some(Color::Yellow),
            15 => Some(Color::White),
            _ => None,
        }
    }

    /// The number of a colour is below 16 and names that colour.
    pub proof fn lemma_code_names_color(color: Color)
        ensures
            color.spec_code() < 16,
            Color::spec_from_nibble(color.spec_code()) == color,
    {
    }

    /// The colour named by a number below 16 has that number.
    pub proof fn lemma_nibble_has_code(code: u8)
        requires
            code < 16,
        ensures
            Color::spec_from_nibble(code).spec_code() == code,
    {
    }
}

/// The attribute byte of a cell: the background colour in the high four bits,
/// the foreground colour in the low four bits.
#[derive(Debug, Clone, Copy, PartialEq, Eq, Structural)]
pub struct ScreenColor(u8);

impl View for ScreenColor {
    type V = u8;

    /// The attribute byte as the device reads it.
    closed spec fn view(&self) -> u8 {
        self.0
    }
}

impl ScreenColor {
    /// The attribute byte for a foreground and a background colour:
    /// sixteen times the background's number plus the foreground's.
    pub open spec fn spec_encode(fg: Color, bg: Color) -> u8 {
        (bg.spec_code() * 16 + fg.spec_code()) as u8
    }

    /// The attribute whose byte is `byte`.
    pub closed spec fn spec_from_byte(byte: u8) -> ScreenColor {
        ScreenColor(byte)
    }

    /// The attribute of the two colours.
    pub open spec fn spec_new(fg: Color, bg: Color) -> ScreenColor {
        ScreenColor::spec_from_byte(ScreenColor::spec_encode(fg, bg))
    }

    /// The foreground colour: the one numbered by the low four bits.
    pub open spec fn spec_foreground(self) -> Color {
        Color::spec_from_nibble(self@ % 16)
    }

    /// The background colour: the one numbered by the high four bits.
    pub open spec fn spec_background(self) -> Color {
        Color::spec_from_nibble(self@ / 16)
    }

    /// Packs a foreground and a background colour into one attribute.
    pub fn new(fg: Color, bg: Color) -> (attribute: ScreenColor)
        ensures
            attribute == ScreenColor::spec_new(fg, bg),
            attribute@ == bg.spec_code() * 16 + fg.spec_code(),
            attribute.spec_foreground() == fg,
            attribute.spec_background() == bg,
    {
        let b: u8 = bg.code();
        let f: u8 = fg.code();
        assert((b << 4 | f) == b * 16 + f) by (bit_vector)
            requires
                b < 16,
                f < 16,
        ;
        proof {
            Color::lemma_code_names_color(fg);
            Color::lemma_code_names_color(bg);
        }
        ScreenColor(b << 4 | f)
    }

    /// The attribute that the device reads from `byte`. Every byte is one.
    pub fn from_byte(byte: u8) -> (attribute: ScreenColor)
        ensures
            attribute == ScreenColor::spec_from_byte(byte),
            attribute@ == byte,
    {
        ScreenColor(byte)
    }

    /// The attribute byte as the device reads it.
    pub fn as_byte(self) -> (byte: u8)
        ensures
            byte == self@,
    {
        self.0
    }

    /// The foreground colour.
    #[verifier::when_used_as_spec(spec_foreground)]
    pub fn foreground(self) -> (fg: Color)
        ensures
            fg == self.spec_foreground(),
    {
        let byte: u8 = self.0;
        let low: u8 = byte & 0x0f;
        assert(low == byte % 16) by (bit_vector)
            requires
                low == byte & 0x0f,
        ;
        match Color::from_code(low) {
            Some(c) => c,
            None => Color::Black,
        }
    }

    /// The background colour.
    #[verifier::when_used_as_spec(spec_background)]
    pub fn background(self) -> (bg: Color)
        ensures
            bg == self.spec_background(),
    {
        let byte: u8 = self.0;
        let high: u8 = byte >> 4;
        assert(high == byte / 16 && high < 16) by (bit_vector)
            requires
                high == byte >> 4,
        ;
        match Color::from_code(high) {
            Some(c) => c,
            None => Color::Black,
        }
    }

    /// An attribute is its byte and nothing more: the attribute made from a
    /// byte has that byte, and an attribute is the one made from its own byte.
    pub proof fn lemma_byte_view(attribute: ScreenColor, byte: u8)
        ensures
            ScreenColor::spec_from_byte(byte)@ == byte,
            ScreenColor::spec_from_byte(attribute@) == attribute,
    {
    }

    /// Packing two colours into an attribute, taking its byte, and reading an
    /// attribute and its two colours back from that byte gives the same attribute
    /// and the same two colours.
    pub proof fn lemma_colors_round_trip(fg: Color, bg: Color)
        ensures
            ScreenColor::spec_new(fg, bg)@ == bg.spec_code() * 16 + fg.spec_code(),
            ScreenColor::spec_from_byte(ScreenColor::spec_new(fg, bg)@) == ScreenColor::spec_new(
                fg,
                bg,
            ),
            ScreenColor::spec_new(fg, bg).spec_foreground() == fg,
            ScreenColor::spec_new(fg, bg).spec_background() == bg,
    {
        Color::lemma_code_names_color(fg);
        Color::lemma_code_names_color(bg);
    }

    /// Every attribute is the packing of its own two colours, so the 256 bytes
    /// stand for the 16 times 16 pairs of colours, one for one.
    pub proof fn lemma_byte_round_trip(attribute: ScreenColor)
        ensures
            ScreenColor::spec_new(attribute.spec_foreground(), attribute.spec_background())
                == attribute,
    {
        let byte = attribute@;
        Color::lemma_nibble_has_code(byte % 16);
        Color::lemma_nibble_has_code(byte / 16);
    }
}

} // verus!
