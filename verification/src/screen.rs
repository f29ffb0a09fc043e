//! The screen as a mathematical value: the grid of cells, the cursor's column
//! and the current colours, and what each operation of the writer makes of them.

use vstd::prelude::*;
use crate::cell::ScreenChar;
use crate::color::ScreenColor;

verus! {

/// The number of rows of the grid.
pub const BUFFER_HEIGHT: usize = 25;

/// The number of columns of the grid.
pub const BUFFER_WIDTH: usize = 80;

/// The byte that ends a line.
pub const NEWLINE: u8 = 0x0a;

/// The symbol shown in place of a byte that the device cannot show.
pub const PLACEHOLDER: u8 = 0xfe;

/// Whether the device can show `byte` as it is: the printable ASCII range.
pub open spec fn is_printable(byte: u8) -> bool {
    0x20 <= byte <= 0x7e
}

/// The byte that is handed on for `byte` when a string is written: the byte
/// itself if it is printable or ends a line, the placeholder otherwise.
pub open spec fn displayed(byte: u8) -> u8 {
    if is_printable(byte) || byte == NEWLINE {
        byte
    } else {
        PLACEHOLDER
    }
}

/// A row of empty cells.
pub open spec fn blank_row() -> Seq<ScreenChar> {
    Seq::new(BUFFER_WIDTH as nat, |c: int| ScreenChar::spec_blank())
}

/// The column of the cursor after `bytes` are written as a string with the
/// cursor at `column`: a newline sends it to column 0, a byte placed after a
/// full row to column 1, any other byte one column on.
pub open spec fn column_after(column: nat, bytes: Seq<u8>) -> nat
    decreases bytes.len(),
{
    if bytes.len() == 0 {
        column
    } else {
        let before = column_after(column, bytes.drop_last());
        if displayed(bytes.last()) == NEWLINE {
            0
        } else if before >= BUFFER_WIDTH {
            1
        } else {
            before + 1
        }
    }
}

/// The number of times the grid scrolls while `bytes` are written as a string
/// with the cursor at `column`: once for each newline and once for each byte
/// that finds the row full.
pub open spec fn scrolls_during(column: nat, bytes: Seq<u8>) -> nat
    decreases bytes.len(),
{
    if bytes.len() == 0 {
        0
    } else {
        let before = scrolls_during(column, bytes.drop_last());
        if displayed(bytes.last()) == NEWLINE || column_after(column, bytes.drop_last())
            >= BUFFER_WIDTH {
            before + 1
        } else {
            before
        }
    }
}

/// The state of the console: `rows[r][c]` is the cell in row `r` (0 is the top)
/// and column `c` (0 is the left), `column` is where the next symbol goes on the
/// last row, and `color` is the attribute it will get.
#[verifier::ext_equal]
pub struct Screen {
    pub column: nat,
    pub color: ScreenColor,
    pub rows: Seq<Seq<ScreenChar>>,
}

impl Screen {
    /// The grid has its fixed size and the cursor is on the row or just past
    /// its end.
    pub open spec fn wf(self) -> bool {
        &&& self.column <= BUFFER_WIDTH
        &&& self.rows.len() == BUFFER_HEIGHT
        &&& forall|r: int| 0 <= r < BUFFER_HEIGHT ==> (#[trigger] self.rows[r]).len() == BUFFER_WIDTH
    }

    /// The cell at a row and a column.
    pub open spec fn cell(self, row: int, col: int) -> ScreenChar {
        self.rows[row][col]
    }

    /// The last row of the grid, on which the cursor stands.
    pub open spec fn last_row(self) -> Seq<ScreenChar> {
        self.rows[BUFFER_HEIGHT - 1]
    }

    /// The screen with one row emptied.
    pub open spec fn line_clear(self, row: int) -> Screen {
        Screen { rows: self.rows.update(row, blank_row()), ..self }
    }

    /// The screen scrolled up by one row: the top row is gone, every other row
    /// has moved up, the last row is empty and the cursor is at its start.
    pub open spec fn line_break(self) -> Screen {
        Screen { column: 0, color: self.color, rows: self.rows.drop_first().push(blank_row()) }
    }

    /// The screen with `byte` put at the cursor in the current colours, and the
    /// cursor moved one column on.
    pub open spec fn place(self, byte: u8) -> Screen {
        let last = BUFFER_HEIGHT - 1;
        let cell = ScreenChar { ascii_char: byte, color_code: self.color };
        Screen {
            column: self.column + 1,
            color: self.color,
            rows: self.rows.update(last, self.last_row().update(self.column as int, cell)),
        }
    }

    /// The screen after one byte is written: a newline scrolls; any other byte
    /// is placed at the cursor, after a scroll if the cursor is past the end of
    /// the row.
    pub open spec fn write_byte(self, byte: u8) -> Screen {
        if byte == NEWLINE {
            self.line_break()
        } else if self.column >= BUFFER_WIDTH {
            self.line_break().place(byte)
        } else {
            self.place(byte)
        }
    }

    /// The screen after the bytes of a string are written in order, each one as
    /// [`displayed`] gives it.
    pub open spec fn write_string(self, bytes: Seq<u8>) -> Screen
        decreases bytes.len(),
    {
        if bytes.len() == 0 {
            self
        } else {
            self.write_string(bytes.drop_last()).write_byte(displayed(bytes.last()))
        }
    }
}

} // verus!
