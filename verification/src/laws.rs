//! What always holds of the screen: how a scroll moves the rows, what a written
//! byte changes and what it leaves alone, and how strings fill the rows from
//! left to right and from the top down.

use vstd::prelude::*;
use vstd::utf8::{
    encode_utf8, encode_utf8_valid_utf8, is_char_boundary_iff_is_leading_byte,
    is_char_boundary_iff_not_is_continuation_byte,
};
use crate::cell::ScreenChar;
use crate::screen::{
    blank_row, column_after, displayed, is_printable, scrolls_during, Screen, BUFFER_HEIGHT,
    BUFFER_WIDTH, NEWLINE, PLACEHOLDER,
};

verus! {

/// A scroll of a grid of any number of rows moves every row but the first up by
/// one, leaves the last row all spaces in black on black, puts the cursor at
/// column 0 and keeps the colours.
pub proof fn lemma_line_break_shifts_rows(s: Screen)
    requires
        s.rows.len() >= 1,
    ensures
        ({
            let t = s.line_break();
            let last_row = t.rows[s.rows.len() - 1];
            &&& t.rows.len() == s.rows.len()
            &&& forall|r: int| 0 <= r < s.rows.len() - 1 ==> #[trigger] t.rows[r] == s.rows[r + 1]
            &&& last_row == blank_row()
            &&& last_row.len() == BUFFER_WIDTH
            &&& forall|c: int| 0 <= c < BUFFER_WIDTH ==> last_row[c] == ScreenChar::spec_blank()
            &&& t.column == 0
            &&& t.color == s.color
            &&& s.wf() ==> t.wf()
        }),
{
}

/// Emptying a row twice is emptying it once, and emptying a row that is already
/// empty changes nothing.
pub proof fn lemma_line_clear_idempotent(s: Screen, row: int)
    requires
        0 <= row < s.rows.len(),
    ensures
        s.line_clear(row).rows[row] == blank_row(),
        s.line_clear(row).line_clear(row) == s.line_clear(row),
        s.rows[row] == blank_row() ==> s.line_clear(row) == s,
{
    assert(s.line_clear(row).line_clear(row) =~~= s.line_clear(row));
    if s.rows[row] == blank_row() {
        assert(s.line_clear(row) =~~= s);
    }
}

/// Emptying a row leaves every other row, the cursor and the colours as they
/// were.
pub proof fn lemma_line_clear_keeps_the_rest(s: Screen, row: int)
    requires
        0 <= row < s.rows.len(),
    ensures
        s.line_clear(row).rows.len() == s.rows.len(),
        forall|r: int| 0 <= r < s.rows.len() && r != row ==> s.line_clear(row).rows[r] == s.rows[r],
        s.line_clear(row).column == s.column,
        s.line_clear(row).color == s.color,
        s.wf() ==> s.line_clear(row).wf(),
{
}

/// A byte other than a newline changes exactly one cell. With the cursor on
/// the row, the cell at the cursor on the last row gets the byte and the
/// current colours, every other cell stays, and the cursor moves one column on.
/// With the cursor past the end of the row the grid scrolls first, and the
/// same then holds of the scrolled grid, where the cursor is at column 0.
pub proof fn lemma_write_byte_places_one_cell(s: Screen, byte: u8)
    requires
        s.wf(),
        byte != NEWLINE,
    ensures
        s.write_byte(byte).wf(),
        s.write_byte(byte).color == s.color,
        s.column < BUFFER_WIDTH ==> ({
            let t = s.write_byte(byte);
            &&& t == s.place(byte)
            &&& t.column == s.column + 1
            &&& t.last_row()[s.column as int] == (ScreenChar {
                ascii_char: byte,
                color_code: s.color,
            })
            &&& forall|r: int| 0 <= r < BUFFER_HEIGHT - 1 ==> t.rows[r] == s.rows[r]
            &&& forall|c: int|
                0 <= c < BUFFER_WIDTH && c != s.column ==> t.last_row()[c] == s.last_row()[c]
        }),
        s.column == BUFFER_WIDTH ==> ({
            let t = s.write_byte(byte);
            &&& t == s.line_break().place(byte)
            &&& t.column == 1
            &&& t.last_row()[0] == (ScreenChar { ascii_char: byte, color_code: s.color })
            &&& forall|r: int| 0 <= r < BUFFER_HEIGHT - 1 ==> #[trigger] t.rows[r] == s.rows[r + 1]
            &&& forall|c: int| 1 <= c < BUFFER_WIDTH ==> t.last_row()[c] == ScreenChar::spec_blank()
        }),
{
}

/// A newline scrolls the grid and places nothing.
pub proof fn lemma_newline_is_line_break(s: Screen)
    ensures
        s.write_byte(NEWLINE) == s.line_break(),
        s.write_string(seq![NEWLINE]) == s.line_break(),
{
    lemma_write_string_one(s, NEWLINE);
}

/// Writing a string of one byte is writing what is displayed for that byte.
pub proof fn lemma_write_string_one(s: Screen, byte: u8)
    ensures
        s.write_string(seq![byte]) == s.write_byte(displayed(byte)),
{
    let bytes = seq![byte];
    assert(bytes.drop_last() =~= Seq::<u8>::empty());
    assert(s.write_string(bytes.drop_last()) == s) by {
        reveal_with_fuel(Screen::write_string, 2);
    }
    assert(bytes.last() == byte);
    reveal_with_fuel(Screen::write_string, 2);
}

/// Writing keeps the screen well formed and never changes the colours.
pub proof fn lemma_write_string_keeps_shape(s: Screen, bytes: Seq<u8>)
    requires
        s.wf(),
    ensures
        s.write_string(bytes).wf(),
        s.write_string(bytes).color == s.color,
    decreases bytes.len(),
{
    if bytes.len() > 0 {
        lemma_write_string_keeps_shape(s, bytes.drop_last());
    }
}

/// Writing two strings one after the other is writing the two joined: a string
/// may be cut anywhere, between any two bytes.
pub proof fn lemma_write_string_concat(s: Screen, first: Seq<u8>, second: Seq<u8>)
    ensures
        s.write_string(first + second) == s.write_string(first).write_string(second),
    decreases second.len(),
{
    if second.len() == 0 {
        assert(first + second =~= first);
    } else {
        lemma_write_string_concat(s, first, second.drop_last());
        assert((first + second).drop_last() =~= first + second.drop_last());
        assert((first + second).last() == second.last());
    }
}

/// A printable byte written as a string is placed as it is: the cell before
/// the cursor then shows the byte in the colours that the screen had.
pub proof fn lemma_printable_byte_is_placed(s: Screen, byte: u8)
    requires
        s.wf(),
        is_printable(byte),
    ensures
        ({
            let t = s.write_string(seq![byte]);
            &&& t == s.write_byte(byte)
            &&& 1 <= t.column <= BUFFER_WIDTH
            &&& t.column == if s.column < BUFFER_WIDTH { s.column + 1 } else { 1 }
            &&& t.last_row()[t.column - 1] == (ScreenChar { ascii_char: byte, color_code: s.color })
        }),
{
    lemma_write_string_one(s, byte);
    lemma_write_byte_places_one_cell(s, byte);
}

/// A printable byte or a newline is written as it is. For any other byte the
/// placeholder is written: the cell before the cursor then shows the
/// placeholder in the current colours, and so never the byte itself, unless
/// the byte has the placeholder's own value.
pub proof fn lemma_unprintable_byte_is_replaced(s: Screen, byte: u8)
    requires
        s.wf(),
    ensures
        is_printable(byte) || byte == NEWLINE ==> displayed(byte) == byte,
        !is_printable(byte) && byte != NEWLINE ==> ({
            let t = s.write_string(seq![byte]);
            let placed = t.last_row()[t.column - 1];
            &&& displayed(byte) == PLACEHOLDER
            &&& t == s.write_byte(PLACEHOLDER)
            &&& 1 <= t.column <= BUFFER_WIDTH
            &&& placed == (ScreenChar { ascii_char: PLACEHOLDER, color_code: s.color })
            &&& byte != PLACEHOLDER ==> placed.ascii_char != byte
        }),
{
    lemma_write_string_one(s, byte);
    lemma_write_byte_places_one_cell(s, PLACEHOLDER);
}

/// No byte of a text has the placeholder's value: every byte of a UTF-8
/// encoding is at most `0xf7`. So where a byte of a string is replaced, what
/// is shown always differs from the byte.
pub proof fn lemma_text_never_holds_placeholder(text: Seq<char>)
    ensures
        forall|i: int|
            0 <= i < encode_utf8(text).len() ==> #[trigger] encode_utf8(text)[i] <= 0xf7,
        forall|i: int|
            0 <= i < encode_utf8(text).len() ==> (#[trigger] encode_utf8(text)[i]) != PLACEHOLDER,
        forall|i: int|
            0 <= i < encode_utf8(text).len() && !is_printable(#[trigger] encode_utf8(text)[i])
                && encode_utf8(text)[i] != NEWLINE ==> displayed(encode_utf8(text)[i])
                == PLACEHOLDER && displayed(encode_utf8(text)[i]) != encode_utf8(text)[i],
{
    let bytes = encode_utf8(text);
    encode_utf8_valid_utf8(text);
    assert forall|i: int| 0 <= i < bytes.len() implies #[trigger] bytes[i] <= 0xf7 by {
        is_char_boundary_iff_not_is_continuation_byte(bytes, i);
        is_char_boundary_iff_is_leading_byte(bytes, i);
    }
}

/// A string without a newline that fits on the rest of the last row is placed
/// on that row from the cursor on, from left to right, one cell for each byte:
/// the cell shows what is displayed for the byte, in the colours that the
/// screen had. No scroll happens, every other cell stays as it was, and the
/// cursor ends just after the last cell placed.
pub proof fn lemma_write_string_on_row(s: Screen, bytes: Seq<u8>)
    requires
        s.wf(),
        forall|i: int| 0 <= i < bytes.len() ==> bytes[i] != NEWLINE,
        s.column + bytes.len() <= BUFFER_WIDTH,
    ensures
        ({
            let t = s.write_string(bytes);
            &&& t.wf()
            &&& t.color == s.color
            &&& t.column == s.column + bytes.len()
            &&& forall|i: int|
                #![trigger bytes[i]]
                0 <= i < bytes.len() ==> t.last_row()[s.column + i] == (ScreenChar {
                    ascii_char: displayed(bytes[i]),
                    color_code: s.color,
                })
            &&& forall|r: int| 0 <= r < BUFFER_HEIGHT - 1 ==> t.rows[r] == s.rows[r]
            &&& forall|c: int|
                0 <= c < BUFFER_WIDTH && !(s.column <= c < s.column + bytes.len())
                    ==> t.last_row()[c] == s.last_row()[c]
        }),
    decreases bytes.len(),
{
    if bytes.len() > 0 {
        let front = bytes.drop_last();
        lemma_write_string_on_row(s, front);
        let mid = s.write_string(front);
        lemma_write_byte_places_one_cell(mid, displayed(bytes.last()));
        let t = s.write_string(bytes);
        assert(t == mid.place(displayed(bytes.last())));
        assert forall|i: int| 0 <= i < bytes.len() implies #[trigger] t.last_row()[s.column + i] == (ScreenChar {
            ascii_char: displayed(bytes[i]),
            color_code: s.color,
        }) by {
            if i < front.len() {
                assert(front[i] == bytes[i]);
            }
        }
    }
}

/// A string of printable bytes that fits on the rest of the last row is shown
/// there as it is: byte `i` of the string is the symbol of the cell `i` columns
/// after the cursor, in the screen's colours, and no other row changes.
pub proof fn lemma_printable_string_is_shown(s: Screen, bytes: Seq<u8>)
    requires
        s.wf(),
        forall|i: int| 0 <= i < bytes.len() ==> is_printable(bytes[i]),
        s.column + bytes.len() <= BUFFER_WIDTH,
    ensures
        ({
            let t = s.write_string(bytes);
            &&& t.column == s.column + bytes.len()
            &&& forall|i: int|
                #![trigger bytes[i]]
                0 <= i < bytes.len() ==> t.last_row()[s.column + i] == (ScreenChar {
                    ascii_char: bytes[i],
                    color_code: s.color,
                })
            &&& forall|r: int| 0 <= r < BUFFER_HEIGHT - 1 ==> t.rows[r] == s.rows[r]
        }),
{
    lemma_write_string_on_row(s, bytes);
}

/// A row's worth of printable bytes written from column 0 fills the last row
/// and leaves the cursor past its end without a scroll. One more printable byte
/// then scrolls once: the filled row moves up with all the others, and the byte
/// stands alone at column 0 of an otherwise empty last row.
pub proof fn lemma_full_row_then_wrap(s: Screen, bytes: Seq<u8>, next: u8)
    requires
        s.wf(),
        s.column == 0,
        bytes.len() == BUFFER_WIDTH,
        forall|i: int| 0 <= i < bytes.len() ==> is_printable(bytes[i]),
        is_printable(next),
    ensures
        ({
            let full = s.write_string(bytes);
            let wrapped = full.write_string(seq![next]);
            &&& full.column == BUFFER_WIDTH
            &&& forall|c: int|
                0 <= c < BUFFER_WIDTH ==> full.last_row()[c] == (ScreenChar {
                    ascii_char: bytes[c],
                    color_code: s.color,
                })
            &&& forall|r: int| 0 <= r < BUFFER_HEIGHT - 1 ==> full.rows[r] == s.rows[r]
            &&& wrapped == full.line_break().place(next)
            &&& wrapped == s.write_string(bytes.push(next))
            &&& wrapped.column == 1
            &&& forall|r: int|
                0 <= r < BUFFER_HEIGHT - 1 ==> #[trigger] wrapped.rows[r] == full.rows[r + 1]
            &&& wrapped.last_row()[0] == (ScreenChar {
                ascii_char: next,
                color_code: s.color,
            })
            &&& forall|c: int|
                1 <= c < BUFFER_WIDTH ==> wrapped.last_row()[c]
                    == ScreenChar::spec_blank()
        }),
{
    lemma_write_string_on_row(s, bytes);
    let full = s.write_string(bytes);
    lemma_write_string_one(full, next);
    lemma_write_byte_places_one_cell(full, next);
    lemma_line_break_shifts_rows(full);
    lemma_write_string_concat(s, bytes, seq![next]);
    assert(bytes + seq![next] =~= bytes.push(next));
}

/// With the cursor past the end of the row, a string that does not begin with
/// a newline is written as it would be after a scroll: the full row moves up
/// and the string starts at column 0 of an empty last row. So a long text
/// fills row after row, from the top down.
pub proof fn lemma_full_row_wraps(s: Screen, bytes: Seq<u8>)
    requires
        s.wf(),
        s.column == BUFFER_WIDTH,
        bytes.len() > 0,
        bytes[0] != NEWLINE,
    ensures
        s.write_string(bytes) == s.line_break().write_string(bytes),
{
    let head = seq![bytes[0]];
    let rest = bytes.subrange(1, bytes.len() as int);
    assert(head + rest =~= bytes);
    lemma_write_string_concat(s, head, rest);
    lemma_write_string_concat(s.line_break(), head, rest);
    lemma_write_string_one(s, bytes[0]);
    lemma_write_string_one(s.line_break(), bytes[0]);
}

/// A line that fits on the rest of the last row, written with the newline that
/// ends it, ends up on the row above the last: the grid has scrolled once, the
/// line stands where it was written, the last row is empty and the cursor is at
/// its start.
pub proof fn lemma_write_line(s: Screen, line: Seq<u8>)
    requires
        s.wf(),
        forall|i: int| 0 <= i < line.len() ==> line[i] != NEWLINE,
        s.column + line.len() <= BUFFER_WIDTH,
    ensures
        ({
            let t = s.write_string(line.push(NEWLINE));
            let above = t.rows[BUFFER_HEIGHT - 2];
            &&& t == s.write_string(line).line_break()
            &&& t.wf()
            &&& t.color == s.color
            &&& t.column == 0
            &&& t.last_row() == blank_row()
            &&& forall|i: int|
                #![trigger line[i]]
                0 <= i < line.len() ==> above[s.column + i] == (ScreenChar {
                    ascii_char: displayed(line[i]),
                    color_code: s.color,
                })
            &&& forall|c: int|
                0 <= c < BUFFER_WIDTH && !(s.column <= c < s.column + line.len()) ==> above[c]
                    == s.last_row()[c]
            &&& forall|r: int| 0 <= r < BUFFER_HEIGHT - 2 ==> #[trigger] t.rows[r] == s.rows[r + 1]
        }),
{
    lemma_write_string_on_row(s, line);
    let written = s.write_string(line);
    lemma_write_string_concat(s, line, seq![NEWLINE]);
    assert(line + seq![NEWLINE] =~= line.push(NEWLINE));
    lemma_newline_is_line_break(written);
    lemma_line_break_shifts_rows(written);
    let t = written.line_break();
    assert(t.rows[BUFFER_HEIGHT - 2] == written.last_row());
    assert forall|r: int| 0 <= r < BUFFER_HEIGHT - 2 implies #[trigger] t.rows[r] == s.rows[r
        + 1] by {
        assert(t.rows[r] == written.rows[r + 1]);
    }
}

/// Two lines written with a newline between them stand one above the other,
/// the first on the row above the last and the second on the last row, each
/// from left to right, and every older row has moved up by one.
pub proof fn lemma_lines_stack(s: Screen, first: Seq<u8>, second: Seq<u8>)
    requires
        s.wf(),
        forall|i: int| 0 <= i < first.len() ==> first[i] != NEWLINE,
        forall|i: int| 0 <= i < second.len() ==> second[i] != NEWLINE,
        s.column + first.len() <= BUFFER_WIDTH,
        second.len() <= BUFFER_WIDTH,
    ensures
        ({
            let t = s.write_string(first.push(NEWLINE) + second);
            let above = t.rows[BUFFER_HEIGHT - 2];
            &&& t.wf()
            &&& t.color == s.color
            &&& t.column == second.len()
            &&& forall|i: int|
                #![trigger first[i]]
                0 <= i < first.len() ==> above[s.column + i] == (ScreenChar {
                    ascii_char: displayed(first[i]),
                    color_code: s.color,
                })
            &&& forall|c: int|
                0 <= c < BUFFER_WIDTH && !(s.column <= c < s.column + first.len()) ==> above[c]
                    == s.last_row()[c]
            &&& forall|i: int|
                #![trigger second[i]]
                0 <= i < second.len() ==> t.last_row()[i] == (ScreenChar {
                    ascii_char: displayed(second[i]),
                    color_code: s.color,
                })
            &&& forall|c: int|
                second.len() <= c < BUFFER_WIDTH ==> t.last_row()[c] == ScreenChar::spec_blank()
            &&& forall|r: int| 0 <= r < BUFFER_HEIGHT - 2 ==> #[trigger] t.rows[r] == s.rows[r + 1]
        }),
{
    lemma_write_line(s, first);
    let mid = s.write_string(first.push(NEWLINE));
    lemma_write_string_concat(s, first.push(NEWLINE), second);
    lemma_write_string_on_row(mid, second);
    let t = mid.write_string(second);
    assert forall|i: int| #![trigger second[i]] 0 <= i < second.len() implies t.last_row()[i] == (
    ScreenChar { ascii_char: displayed(second[i]), color_code: s.color }) by {
        assert(t.last_row()[mid.column + i] == (ScreenChar {
            ascii_char: displayed(second[i]),
            color_code: mid.color,
        }));
    }
    assert forall|r: int| 0 <= r < BUFFER_HEIGHT - 2 implies #[trigger] t.rows[r] == s.rows[r
        + 1] by {
        assert(t.rows[r] == mid.rows[r]);
    }
    assert(t.rows[BUFFER_HEIGHT - 2] == mid.rows[BUFFER_HEIGHT - 2]);
}

/// Whatever is written, the rows above the last are never altered, only moved
/// up: after a string that made the grid scroll `n` times, row `r` is what row
/// `r + n` was, for every row that was above the last one. Where the cursor
/// ends depends on the string and on where the cursor was, not on the grid.
pub proof fn lemma_older_rows_only_move_up(s: Screen, bytes: Seq<u8>)
    requires
        s.wf(),
    ensures
        ({
            let t = s.write_string(bytes);
            let n = scrolls_during(s.column, bytes);
            &&& t.wf()
            &&& t.color == s.color
            &&& t.column == column_after(s.column, bytes)
            &&& forall|r: int|
                0 <= r && r + n < BUFFER_HEIGHT - 1 ==> #[trigger] t.rows[r] == s.rows[r + n]
        }),
    decreases bytes.len(),
{
    if bytes.len() > 0 {
        let front = bytes.drop_last();
        let byte = displayed(bytes.last());
        lemma_older_rows_only_move_up(s, front);
        let mid = s.write_string(front);
        let m = scrolls_during(s.column, front);
        let t = s.write_string(bytes);
        let n = scrolls_during(s.column, bytes);
        assert(t == mid.write_byte(byte));
        lemma_line_break_shifts_rows(mid);
        if byte != NEWLINE {
            lemma_write_byte_places_one_cell(mid, byte);
        }
        assert forall|r: int| 0 <= r && r + n < BUFFER_HEIGHT - 1 implies #[trigger] t.rows[r]
            == s.rows[r + n] by {
            if byte == NEWLINE || mid.column >= BUFFER_WIDTH {
                assert(n == m + 1);
                assert(t.rows[r] == mid.rows[r + 1]);
                assert(mid.rows[r + 1] == s.rows[r + 1 + m]);
            } else {
                assert(n == m);
                assert(t.rows[r] == mid.rows[r]);
            }
        }
    }
}

/// A text without a newline fills the rows like a tape cut into pieces of a
/// row's length: with `c` the cursor's column and `k` bytes written, the grid
/// has scrolled `(c + k - 1) / 80` times and the cursor stands at column
/// `(c + k - 1) % 80 + 1`, unless nothing was written.
pub proof fn lemma_plain_text_fills_rows(column: nat, bytes: Seq<u8>)
    requires
        column <= BUFFER_WIDTH,
        forall|i: int| 0 <= i < bytes.len() ==> bytes[i] != NEWLINE,
    ensures
        bytes.len() == 0 ==> column_after(column, bytes) == column && scrolls_during(column, bytes)
            == 0,
        bytes.len() > 0 ==> column_after(column, bytes) == (column + bytes.len() - 1)
            % (BUFFER_WIDTH as int) + 1,
        bytes.len() > 0 ==> scrolls_during(column, bytes) == (column + bytes.len() - 1) / (
        BUFFER_WIDTH as int),
    decreases bytes.len(),
{
    if bytes.len() > 0 {
        let front = bytes.drop_last();
        lemma_plain_text_fills_rows(column, front);
        assert(displayed(bytes.last()) != NEWLINE);
    }
}

/// A text without a newline is laid out from left to right and from the top
/// down, one cell for each byte. Count the cells from the start of the row on
/// which the cursor stood, so that byte `i` has the number `p = c + i`, with
/// `c` the cursor's column. After `n` scrolls in all, byte `i` shows in column
/// `p % 80` of the row `n - p / 80` rows above the last, in the colours that
/// the screen had, unless that row has left the grid at the top.
pub proof fn lemma_plain_text_is_laid_out(s: Screen, bytes: Seq<u8>)
    requires
        s.wf(),
        forall|i: int| 0 <= i < bytes.len() ==> bytes[i] != NEWLINE,
    ensures
        ({
            let t = s.write_string(bytes);
            let n = scrolls_during(s.column, bytes);
            let width = BUFFER_WIDTH as int;
            forall|i: int|
                #![trigger bytes[i]]
                0 <= i < bytes.len() && n - (s.column + i) / width < BUFFER_HEIGHT ==> t.rows[
                    BUFFER_HEIGHT - 1 - n + (s.column + i) / width][(s.column + i) % width] == (
                ScreenChar { ascii_char: displayed(bytes[i]), color_code: s.color })
        }),
    decreases bytes.len(),
{
    if bytes.len() > 0 {
        let width = BUFFER_WIDTH as int;
        let front = bytes.drop_last();
        let byte = displayed(bytes.last());
        let mid = s.write_string(front);
        let m = scrolls_during(s.column, front);
        let t = s.write_string(bytes);
        let n = scrolls_during(s.column, bytes);
        lemma_plain_text_is_laid_out(s, front);
        lemma_plain_text_fills_rows(s.column, front);
        lemma_plain_text_fills_rows(s.column, bytes);
        lemma_older_rows_only_move_up(s, front);
        lemma_write_byte_places_one_cell(mid, byte);
        assert(t == mid.write_byte(byte));
        assert forall|i: int|
            #![trigger bytes[i]]
            0 <= i < bytes.len() && n - (s.column + i) / width < BUFFER_HEIGHT implies t.rows[
            BUFFER_HEIGHT - 1 - n + (s.column + i) / width][(s.column + i) % width] == (ScreenChar {
            ascii_char: displayed(bytes[i]),
            color_code: s.color,
        }) by {
            let q = (s.column + i) / width;
            let c = (s.column + i) % width;
            if i == bytes.len() - 1 {
                assert(q == n);
                assert(c == t.column - 1);
            } else {
                assert(front[i] == bytes[i]);
                assert(q <= m);
                let row = BUFFER_HEIGHT - 1 - m + q;
                assert(mid.rows[row][c] == (ScreenChar {
                    ascii_char: displayed(bytes[i]),
                    color_code: s.color,
                }));
                if mid.column >= BUFFER_WIDTH {
                    assert(n == m + 1);
                    assert(t.rows[row - 1] == mid.rows[row]);
                } else {
                    assert(n == m);
                    if q == m {
                        assert(c != mid.column);
                        assert(t.last_row()[c] == mid.last_row()[c]);
                    } else {
                        assert(t.rows[row] == mid.rows[row]);
                    }
                }
            }
        }
    }
}

} // verus!
