//! The grid in device memory: 25 rows of 80 volatile 16-bit words.
//!
//! The words are reached through `volatile::Volatile`, so that no read or
//! write of a cell is dropped, merged or moved by the compiler. What that type
//! does is not proved here but taken from its source: this file holds all that
//! is assumed of it.

use vstd::prelude::*;
use volatile::Volatile;
use crate::cell::ScreenChar;
use crate::screen::{BUFFER_HEIGHT, BUFFER_WIDTH};

verus! {

/// `volatile::Volatile`: a wrapper of one value of a `Copy` type, of the same
/// size as that value, which is read and written with volatile accesses. It is
/// taken as opaque: what a cell contains is spoken of through [`held_word`]
/// only.
#[verifier::external_type_specification]
#[verifier::external_body]
#[verifier::reject_recursive_types(T)]
pub struct ExVolatile<T: Copy>(Volatile<T>);

/// The word that a volatile cell contains: the value that `Volatile::write`
/// put there last, or the one the cell was made with, and that `Volatile::read`
/// returns. This is true of memory that only the holder of the cell writes, as
/// the character grid is: the device reads it and never changes it.
pub uninterp spec fn held_word(cell: Volatile<u16>) -> u16;

/// The character grid as it lies in device memory, row after row, each cell one
/// word with the symbol in its low byte and the attribute in its high byte. On
/// the little-endian machines that have this device the symbol is thus the
/// byte at the lower address, as the device expects.
pub type Buffer = [[Volatile<u16>; BUFFER_WIDTH]; BUFFER_HEIGHT];

/// The cells that a grid shows, row by row.
pub open spec fn shown(buffer: Buffer) -> Seq<Seq<ScreenChar>> {
    Seq::new(
        BUFFER_HEIGHT as nat,
        |r: int| Seq::new(BUFFER_WIDTH as nat, |c: int| shown_at(buffer, r, c)),
    )
}

/// The cell that a grid shows at a row and a column.
pub open spec fn shown_at(buffer: Buffer, row: int, col: int) -> ScreenChar {
    ScreenChar::spec_from_word(held_word(buffer@[row]@[col]))
}

/// Calls `Volatile::read`, which performs a volatile read of the contained
/// value and returns a copy of it. Assumed: the result is the word that the
/// cell contains. The cell is borrowed shared and stays as it is.
#[verifier::external_body]
pub(crate) fn read_word(cell: &Volatile<u16>) -> (word: u16)
    ensures
        word == held_word(*cell),
{
    cell.read()
}

/// Calls `Volatile::write`, which performs a volatile write that sets the
/// contained value. Assumed: afterwards the cell contains `word`, and the call
/// does not panic, as the crate documents.
#[verifier::external_body]
pub(crate) fn write_word(cell: &mut Volatile<u16>, word: u16)
    ensures
        held_word(*final(cell)) == word,
    no_unwind
{
    cell.write(word)
}

} // verus!
