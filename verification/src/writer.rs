//! The writer: the cursor, the current colours and the grid they write to.

use vstd::prelude::*;
use vstd::string::StringSliceAdditionalSpecFns;
use crate::buffer::{held_word, read_word, shown, write_word, Buffer};
use crate::cell::ScreenChar;
use crate::color::{Color, ScreenColor};
use crate::screen::{Screen, BUFFER_HEIGHT, BUFFER_WIDTH, NEWLINE, PLACEHOLDER};

verus! {

/// Writes bytes to the last row of the grid, scrolling the grid up when the row
/// is full or a line ends.
pub struct Writer {
    col_pos: usize,
    color_code: ScreenColor,
    buffer: &'static mut Buffer,
}

impl View for Writer {
    type V = Screen;

    /// The screen that this writer stands for.
    closed spec fn view(&self) -> Screen {
        Screen { column: self.col_pos as nat, color: self.color_code, rows: shown(*self.buffer) }
    }
}

impl Writer {
    #[verifier::type_invariant]
    spec fn cursor_on_row(self) -> bool {
        self.col_pos <= BUFFER_WIDTH
    }

    /// A writer for `buffer` in the given colours, with the cursor at the start
    /// of the last row. The grid is left as it is.
    pub fn with_color(buffer: &'static mut Buffer, color_code: ScreenColor) -> (writer: Writer)
        ensures
            writer@ == (Screen { column: 0, color: color_code, rows: shown(*old(buffer)) }),
            writer@.wf(),
    {
        Writer { col_pos: 0, color_code, buffer }
    }

    /// A writer for `buffer` in the console's own colours, yellow on black, with
    /// the cursor at the start of the last row. The grid is left as it is.
    pub fn new(buffer: &'static mut Buffer) -> (writer: Writer)
        ensures
            writer@ == (Screen {
                column: 0,
                color: ScreenColor::spec_new(Color::Yellow, Color::Black),
                rows: shown(*old(buffer)),
            }),
            writer@.wf(),
    {
        Writer::with_color(buffer, ScreenColor::new(Color::Yellow, Color::Black))
    }

    /// The column at which the next symbol will be placed.
    pub fn column(&self) -> (column: usize)
        ensures
            column == self@.column,
            column <= BUFFER_WIDTH,
    {
        proof {
            use_type_invariant(self);
        }
        self.col_pos
    }

    /// The colours in which the next symbol will be placed.
    pub fn color(&self) -> (color: ScreenColor)
        ensures
            color == self@.color,
    {
        self.color_code
    }

    /// The cell that the grid shows at a row and a column.
    pub fn cell(&self, row: usize, col: usize) -> (cell: ScreenChar)
        requires
            row < BUFFER_HEIGHT,
            col < BUFFER_WIDTH,
        ensures
            cell == self@.cell(row as int, col as int),
    {
        ScreenChar::from_word(read_word(&self.buffer[row][col]))
    }

    /// Empties one row: every cell of it becomes a space, black on black.
    pub fn line_clear(&mut self, row: usize)
        requires
            row < BUFFER_HEIGHT,
        ensures
            final(self)@ == old(self)@.line_clear(row as int),
            final(self)@.wf(),
    {
        proof {
            use_type_invariant(&*self);
        }
        let blank: u16 = ScreenChar::blank().to_word();
        let ghost start = *self.buffer;
        let mut col: usize = 0;
        while col < BUFFER_WIDTH
            invariant
                row < BUFFER_HEIGHT,
                col <= BUFFER_WIDTH,
                self.col_pos == old(self).col_pos,
                self.color_code == old(self).color_code,
                forall|r: int| 0 <= r < BUFFER_HEIGHT && r != row ==> self.buffer@[r] == start@[r],
                forall|c: int|
                    col <= c < BUFFER_WIDTH ==> self.buffer@[row as int]@[c] == start@[row as int]@[c],
                forall|c: int| 0 <= c < col ==> held_word(self.buffer@[row as int]@[c]) == blank,
            decreases BUFFER_WIDTH - col,
        {
            proof {
                use_type_invariant(&*self);
            }
            write_word(&mut self.buffer[row][col], blank);
            col += 1;
        }
        assert(self@ =~~= old(self)@.line_clear(row as int));
    }

    /// Scrolls the grid up by one row: every row takes the cells of the row
    /// below it, the last row is emptied, and the cursor goes to its start.
    pub fn line_break(&mut self)
        ensures
            final(self)@ == old(self)@.line_break(),
            final(self)@.wf(),
    {
        let ghost start = *self.buffer;
        let mut row: usize = 1;
        while row < BUFFER_HEIGHT
            invariant
                1 <= row <= BUFFER_HEIGHT,
                self.col_pos == old(self).col_pos,
                self.color_code == old(self).color_code,
                forall|r: int, c: int|
                    0 <= r < row - 1 && 0 <= c < BUFFER_WIDTH ==> held_word(
                        #[trigger] self.buffer@[r]@[c],
                    ) == held_word(start@[r + 1]@[c]),
                forall|r: int| row - 1 <= r < BUFFER_HEIGHT ==> self.buffer@[r] == start@[r],
            decreases BUFFER_HEIGHT - row,
        {
            let above: usize = row - 1;
            let mut col: usize = 0;
            while col < BUFFER_WIDTH
                invariant
                    1 <= row < BUFFER_HEIGHT,
                    above == row - 1,
                    col <= BUFFER_WIDTH,
                    self.col_pos == old(self).col_pos,
                    self.color_code == old(self).color_code,
                    forall|r: int, c: int|
                        0 <= r < above && 0 <= c < BUFFER_WIDTH ==> held_word(
                            #[trigger] self.buffer@[r]@[c],
                        ) == held_word(start@[r + 1]@[c]),
                    forall|c: int|
                        0 <= c < col ==> held_word(#[trigger] self.buffer@[above as int]@[c])
                            == held_word(start@[row as int]@[c]),
                    forall|c: int|
                        col <= c < BUFFER_WIDTH ==> #[trigger] self.buffer@[above as int]@[c]
                            == start@[above as int]@[c],
                    forall|r: int| row <= r < BUFFER_HEIGHT ==> self.buffer@[r] == start@[r],
                decreases BUFFER_WIDTH - col,
            {
                proof {
                    use_type_invariant(&*self);
                }
                let word: u16 = read_word(&self.buffer[row][col]);
                write_word(&mut self.buffer[above][col], word);
                col += 1;
            }
            row += 1;
        }
        self.line_clear(BUFFER_HEIGHT - 1);
        self.col_pos = 0;
        assert(self@ =~~= old(self)@.line_break());
    }

    /// Writes one byte. A newline scrolls the grid. Any other byte is placed at
    /// the cursor on the last row in the current colours, after a scroll if the
    /// row is full, and the cursor moves one column on.
    pub fn write_byte(&mut self, byte: u8)
        ensures
            final(self)@ == old(self)@.write_byte(byte),
            final(self)@.wf(),
    {
        if byte == NEWLINE {
            self.line_break();
        } else {
            proof {
                use_type_invariant(&*self);
            }
            if self.col_pos >= BUFFER_WIDTH {
                self.line_break();
            }
            let row: usize = BUFFER_HEIGHT - 1;
            let col: usize = self.col_pos;
            let cell = ScreenChar { ascii_char: byte, color_code: self.color_code };
            let ghost at = self@;
            write_word(&mut self.buffer[row][col], cell.to_word());
            self.col_pos += 1;
            assert(self@ =~~= at.place(byte));
        }
    }

    /// Writes a string, byte by byte. A printable byte and a newline are written
    /// as they are; in place of any other byte the placeholder is written.
    pub fn write_string(&mut self, s: &str)
        ensures
            final(self)@ == old(self)@.write_string(s.spec_bytes()),
            final(self)@.wf(),
    {
        let bytes = s.as_bytes();
        let mut i: usize = 0;
        proof {
            use_type_invariant(&*self);
        }
        while i < bytes.len()
            invariant
                i <= bytes.len(),
                bytes@ == s.spec_bytes(),
                self@ == old(self)@.write_string(bytes@.take(i as int)),
                self@.wf(),
            decreases bytes.len() - i,
        {
            let byte: u8 = bytes[i];
            assert(bytes@.take(i + 1).drop_last() =~= bytes@.take(i as int));
            if (0x20 <= byte && byte <= 0x7e) || byte == NEWLINE {
                self.write_byte(byte);
            } else {
                self.write_byte(PLACEHOLDER);
            }
            i += 1;
        }
        assert(bytes@.take(i as int) =~= bytes@);
    }
}

/// `core::fmt::Error`, the error of `core::fmt::Result`. It carries nothing, and
/// the writer never returns it.
#[verifier::external_type_specification]
#[verifier::external_body]
pub struct ExFmtError(core::fmt::Error);

impl core::fmt::Write for Writer {
    /// Writes a string as [`Writer::write_string`] does. It never fails.
    fn write_str(&mut self, s: &str) -> (result: core::fmt::Result)
        ensures
            result is Ok,
            final(self)@ == old(self)@.write_string(s.spec_bytes()),
    {
        self.write_string(s);
        Ok(())
    }
}

} // verus!
