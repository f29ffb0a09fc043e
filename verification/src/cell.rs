//! One character position of the screen, and the 16-bit word that stands for it
//! in device memory.

use vstd::prelude::*;
use crate::color::{Color, ScreenColor};

verus! {

/// The symbol of an empty cell: a space.
pub const BLANK_SYMBOL: u8 = 0x20;

/// What a cell shows: a symbol of the device's code page and the colours it is
/// drawn in.
#[derive(Debug, Clone, Copy, PartialEq, Eq, Structural)]
pub struct ScreenChar {
    pub ascii_char: u8,
    pub color_code: ScreenColor,
}

impl ScreenChar {
    /// The empty cell: a space, black on black.
    pub open spec fn spec_blank() -> ScreenChar {
        ScreenChar {
            ascii_char: BLANK_SYMBOL,
            color_code: ScreenColor::spec_new(Color::Black, Color::Black),
        }
    }

    /// The device word of a cell: the symbol in the low byte, the attribute in
    /// the high byte.
    pub open spec fn spec_to_word(self) -> u16 {
        (self.color_code@ * 256 + self.ascii_char) as u16
    }

    /// The cell that a device word shows.
    pub open spec fn spec_from_word(word: u16) -> ScreenChar {
        ScreenChar {
            ascii_char: (word % 256) as u8,
            color_code: ScreenColor::spec_from_byte((word / 256) as u8),
        }
    }

    /// The empty cell: a space, black on black.
    #[verifier::when_used_as_spec(spec_blank)]
    pub fn blank() -> (cell: ScreenChar)
        ensures
            cell == ScreenChar::spec_blank(),
    {
        ScreenChar { ascii_char: BLANK_SYMBOL, color_code: ScreenColor::new(Color::Black, Color::Black) }
    }

    /// The device word of this cell.
    #[verifier::when_used_as_spec(spec_to_word)]
    pub fn to_word(self) -> (word: u16)
        ensures
            word == self.spec_to_word(),
            ScreenChar::spec_from_word(word) == self,
    {
        let symbol: u8 = self.ascii_char;
        let attribute: u8 = self.color_code.as_byte();
        assert(((attribute as u16) << 8 | (symbol as u16)) == attribute * 256 + symbol)
            by (bit_vector);
        proof {
            ScreenChar::lemma_word_round_trip(self, 0);
        }
        (attribute as u16) << 8 | (symbol as u16)
    }

    /// The cell that a device word shows. Every word shows one.
    #[verifier::when_used_as_spec(spec_from_word)]
    pub fn from_word(word: u16) -> (cell: ScreenChar)
        ensures
            cell == ScreenChar::spec_from_word(word),
            cell.spec_to_word() == word,
    {
        let symbol: u8 = (word & 0xff) as u8;
        let attribute: u8 = (word >> 8) as u8;
        assert(word & 0xff == word % 256) by (bit_vector);
        assert(word >> 8 == word / 256) by (bit_vector);
        proof {
            ScreenChar::lemma_word_round_trip(ScreenChar::spec_blank(), word);
        }
        ScreenChar { ascii_char: symbol, color_code: ScreenColor::from_byte(attribute) }
    }

    /// Cells and device words stand for each other one for one: the word of a
    /// cell shows that cell, and the cell that a word shows has that word.
    pub proof fn lemma_word_round_trip(cell: ScreenChar, word: u16)
        ensures
            ScreenChar::spec_from_word(cell.spec_to_word()) == cell,
            ScreenChar::spec_from_word(word).spec_to_word() == word,
    {
        let w = cell.spec_to_word();
        assert(w == cell.color_code@ * 256 + cell.ascii_char);
        assert(w % 256 == cell.ascii_char);
        assert(w / 256 == cell.color_code@);
        ScreenColor::lemma_byte_view(cell.color_code, (word / 256) as u8);
    }
}

} // verus!
