use vga_text::{
    Buffer, Color, ScreenChar, ScreenColor, Writer, BUFFER_HEIGHT, BUFFER_WIDTH, NEWLINE,
    PLACEHOLDER,
};
use core::fmt::Write;
use volatile::Volatile;

const LAST: usize = BUFFER_HEIGHT - 1;

fn blank() -> ScreenChar {
    ScreenChar::blank()
}

fn yellow() -> ScreenColor {
    ScreenColor::new(Color::Yellow, Color::Black)
}

fn cell(symbol: u8, color: ScreenColor) -> ScreenChar {
    ScreenChar { ascii_char: symbol, color_code: color }
}

/// A grid in ordinary memory whose cell at (row, col) is `f(row, col)`.
fn grid_of(f: impl Fn(usize, usize) -> ScreenChar) -> &'static mut Buffer {
    let grid: Buffer =
        core::array::from_fn(|r| core::array::from_fn(|c| Volatile::new(f(r, c).to_word())));
    Box::leak(Box::new(grid))
}

fn blank_grid() -> &'static mut Buffer {
    grid_of(|_, _| blank())
}

/// The cell that marks (row, col) in a grid where every cell differs by row
/// and column.
fn mark(row: usize, col: usize) -> ScreenChar {
    cell(b'a' + row as u8, ScreenColor::from_byte(col as u8))
}

fn marked_grid() -> &'static mut Buffer {
    grid_of(mark)
}

fn row_of(writer: &Writer, row: usize) -> Vec<ScreenChar> {
    (0..BUFFER_WIDTH).map(|c| writer.cell(row, c)).collect()
}

fn marked_row(row: usize) -> Vec<ScreenChar> {
    (0..BUFFER_WIDTH).map(|c| mark(row, c)).collect()
}

fn blank_row() -> Vec<ScreenChar> {
    vec![blank(); BUFFER_WIDTH]
}

fn symbols(writer: &Writer, row: usize, from: usize, to: usize) -> Vec<u8> {
    (from..to).map(|c| writer.cell(row, c).ascii_char).collect()
}

#[test]
fn dimensions_are_those_of_the_device() {
    assert_eq!(BUFFER_HEIGHT, 25);
    assert_eq!(BUFFER_WIDTH, 80);
    assert_eq!(NEWLINE, b'\n');
    assert_eq!(PLACEHOLDER, 0xfe);
    assert_eq!(core::mem::size_of::<Buffer>(), 25 * 80 * 2);
}

#[test]
fn new_writer_starts_at_column_zero_in_yellow_on_black() {
    let mut writer = Writer::new(marked_grid());
    assert_eq!(writer.column(), 0);
    assert_eq!(writer.color(), yellow());
    for r in 0..BUFFER_HEIGHT {
        assert_eq!(row_of(&writer, r), marked_row(r));
    }
    writer.write_byte(b'x');
    assert_eq!(writer.cell(LAST, 0), cell(b'x', yellow()));
}

#[test]
fn writer_with_color_keeps_that_color() {
    let color = ScreenColor::new(Color::White, Color::Blue);
    let mut writer = Writer::with_color(blank_grid(), color);
    assert_eq!(writer.color(), color);
    writer.write_string("ok\nok");
    assert_eq!(writer.color(), color);
    assert_eq!(writer.cell(LAST - 1, 0), cell(b'o', color));
    assert_eq!(writer.cell(LAST, 1), cell(b'k', color));
}

#[test]
fn cell_reads_what_the_grid_holds() {
    let writer = Writer::new(marked_grid());
    assert_eq!(writer.cell(0, 0), mark(0, 0));
    assert_eq!(writer.cell(3, 7), mark(3, 7));
    assert_eq!(writer.cell(LAST, BUFFER_WIDTH - 1), mark(LAST, BUFFER_WIDTH - 1));
    assert_ne!(writer.cell(3, 7), writer.cell(7, 3));
}

#[test]
fn write_byte_places_the_byte_and_advances() {
    let mut writer = Writer::new(marked_grid());
    writer.write_byte(b'H');
    assert_eq!(writer.column(), 1);
    assert_eq!(writer.cell(LAST, 0), cell(b'H', yellow()));
    writer.write_byte(b'i');
    assert_eq!(writer.column(), 2);
    assert_eq!(writer.cell(LAST, 0), cell(b'H', yellow()));
    assert_eq!(writer.cell(LAST, 1), cell(b'i', yellow()));
    for c in 2..BUFFER_WIDTH {
        assert_eq!(writer.cell(LAST, c), mark(LAST, c));
    }
    for r in 0..LAST {
        assert_eq!(row_of(&writer, r), marked_row(r));
    }
}

#[test]
fn write_byte_writes_any_byte_but_newline_as_it_is() {
    let mut writer = Writer::new(blank_grid());
    writer.write_byte(0x01);
    writer.write_byte(0xff);
    writer.write_byte(0x00);
    assert_eq!(symbols(&writer, LAST, 0, 3), vec![0x01, 0xff, 0x00]);
    assert_eq!(writer.column(), 3);
}

#[test]
fn write_byte_newline_scrolls() {
    let mut writer = Writer::new(marked_grid());
    writer.write_byte(b'x');
    writer.write_byte(b'\n');
    assert_eq!(writer.column(), 0);
    assert_eq!(writer.cell(LAST - 1, 0), cell(b'x', yellow()));
    assert_eq!(writer.cell(LAST - 1, 1), mark(LAST, 1));
    assert_eq!(row_of(&writer, LAST), blank_row());
    for r in 0..LAST - 1 {
        assert_eq!(row_of(&writer, r), marked_row(r + 1));
    }
}

#[test]
fn printable_string_is_placed_left_to_right() {
    let color = ScreenColor::new(Color::LightGreen, Color::DarkGray);
    let mut writer = Writer::with_color(marked_grid(), color);
    writer.write_string("Hello, World!");
    assert_eq!(writer.column(), 13);
    for (i, b) in "Hello, World!".bytes().enumerate() {
        assert_eq!(writer.cell(LAST, i), cell(b, color));
    }
    for c in 13..BUFFER_WIDTH {
        assert_eq!(writer.cell(LAST, c), mark(LAST, c));
    }
    for r in 0..LAST {
        assert_eq!(row_of(&writer, r), marked_row(r));
    }
}

#[test]
fn every_printable_byte_is_shown_as_itself() {
    let text: String = (0x20u8..=0x7e).map(|b| b as char).collect();
    assert_eq!(text.len(), 95);
    let mut writer = Writer::new(blank_grid());
    writer.write_string(&text);
    // 95 bytes: one full row of 80, which has scrolled up, and 15 more.
    assert_eq!(writer.column(), 15);
    for c in 0..BUFFER_WIDTH {
        assert_eq!(writer.cell(LAST - 1, c), cell(0x20 + c as u8, yellow()));
    }
    for c in 0..15 {
        assert_eq!(writer.cell(LAST, c), cell(0x20 + 80 + c as u8, yellow()));
    }
    for c in 15..BUFFER_WIDTH {
        assert_eq!(writer.cell(LAST, c), blank());
    }
}

#[test]
fn unprintable_byte_gets_the_placeholder() {
    let mut writer = Writer::new(marked_grid());
    writer.write_string("a\u{1}b");
    assert_eq!(writer.column(), 3);
    assert_eq!(writer.cell(LAST, 0), cell(b'a', yellow()));
    assert_eq!(writer.cell(LAST, 1), cell(0xfe, yellow()));
    assert_eq!(writer.cell(LAST, 2), cell(b'b', yellow()));
    for c in 3..BUFFER_WIDTH {
        assert_eq!(writer.cell(LAST, c), mark(LAST, c));
    }
    for r in 0..LAST {
        assert_eq!(row_of(&writer, r), marked_row(r));
    }
}

#[test]
fn every_unprintable_ascii_byte_gets_the_placeholder() {
    for b in (0x00u8..0x20).chain(core::iter::once(0x7f)) {
        if b == b'\n' {
            continue;
        }
        let text = String::from(b as char);
        let mut writer = Writer::new(blank_grid());
        writer.write_string(&text);
        assert_eq!(writer.column(), 1);
        assert_eq!(writer.cell(LAST, 0), cell(0xfe, yellow()));
        assert_ne!(writer.cell(LAST, 0).ascii_char, b);
    }
}

#[test]
fn edges_of_the_printable_range() {
    let mut writer = Writer::new(blank_grid());
    writer.write_string("\u{1f} ~\u{7f}\t\r");
    assert_eq!(symbols(&writer, LAST, 0, 6), vec![0xfe, 0x20, 0x7e, 0xfe, 0xfe, 0xfe]);
    assert_eq!(writer.column(), 6);
}

#[test]
fn multi_byte_character_gets_one_placeholder_per_byte() {
    let mut writer = Writer::new(blank_grid());
    writer.write_string("é");
    assert_eq!(writer.column(), 2);
    assert_eq!(symbols(&writer, LAST, 0, 3), vec![0xfe, 0xfe, b' ']);

    let mut writer = Writer::new(blank_grid());
    writer.write_string("a€b");
    assert_eq!(writer.column(), 5);
    assert_eq!(symbols(&writer, LAST, 0, 5), vec![b'a', 0xfe, 0xfe, 0xfe, b'b']);
}

#[test]
fn empty_string_changes_nothing() {
    let mut writer = Writer::new(marked_grid());
    writer.write_string("ab");
    writer.write_string("");
    assert_eq!(writer.column(), 2);
    assert_eq!(symbols(&writer, LAST, 0, 2), vec![b'a', b'b']);
    for c in 2..BUFFER_WIDTH {
        assert_eq!(writer.cell(LAST, c), mark(LAST, c));
    }
    for r in 0..LAST {
        assert_eq!(row_of(&writer, r), marked_row(r));
    }
}

#[test]
fn full_row_does_not_scroll_until_the_next_byte() {
    let text: String = (0..BUFFER_WIDTH).map(|i| (b'0' + (i % 10) as u8) as char).collect();
    let mut writer = Writer::new(marked_grid());
    writer.write_string(&text);
    assert_eq!(writer.column(), BUFFER_WIDTH);
    for c in 0..BUFFER_WIDTH {
        assert_eq!(writer.cell(LAST, c), cell(b'0' + (c % 10) as u8, yellow()));
    }
    for r in 0..LAST {
        assert_eq!(row_of(&writer, r), marked_row(r));
    }

    writer.write_string("!");
    assert_eq!(writer.column(), 1);
    assert_eq!(writer.cell(LAST, 0), cell(b'!', yellow()));
    for c in 1..BUFFER_WIDTH {
        assert_eq!(writer.cell(LAST, c), blank());
    }
    for c in 0..BUFFER_WIDTH {
        assert_eq!(writer.cell(LAST - 1, c), cell(b'0' + (c % 10) as u8, yellow()));
    }
    for r in 0..LAST - 1 {
        assert_eq!(row_of(&writer, r), marked_row(r + 1));
    }
}

#[test]
fn newline_after_a_full_row_scrolls_once() {
    let text: String = core::iter::repeat('x').take(BUFFER_WIDTH).collect();
    let mut writer = Writer::new(marked_grid());
    writer.write_string(&text);
    writer.write_string("\n");
    assert_eq!(writer.column(), 0);
    assert_eq!(row_of(&writer, LAST), blank_row());
    assert_eq!(row_of(&writer, LAST - 1), vec![cell(b'x', yellow()); BUFFER_WIDTH]);
    for r in 0..LAST - 1 {
        assert_eq!(row_of(&writer, r), marked_row(r + 1));
    }
}

#[test]
fn long_text_wraps_row_after_row() {
    let text: String = (0..200).map(|i| (b'A' + (i % 26) as u8) as char).collect();
    let mut writer = Writer::new(blank_grid());
    writer.write_string(&text);
    assert_eq!(writer.column(), 40);
    for i in 0..200 {
        let row = LAST - 2 + i / BUFFER_WIDTH;
        let col = i % BUFFER_WIDTH;
        assert_eq!(writer.cell(row, col), cell(b'A' + (i % 26) as u8, yellow()));
    }
    for c in 40..BUFFER_WIDTH {
        assert_eq!(writer.cell(LAST, c), blank());
    }
    for r in 0..LAST - 2 {
        assert_eq!(row_of(&writer, r), blank_row());
    }
}

#[test]
fn line_break_shifts_every_row_up() {
    let mut writer = Writer::new(marked_grid());
    writer.write_string("abc");
    writer.line_break();
    assert_eq!(writer.column(), 0);
    for r in 0..LAST - 1 {
        assert_eq!(row_of(&writer, r), marked_row(r + 1));
    }
    assert_eq!(symbols(&writer, LAST - 1, 0, 3), vec![b'a', b'b', b'c']);
    for c in 3..BUFFER_WIDTH {
        assert_eq!(writer.cell(LAST - 1, c), mark(LAST, c));
    }
    assert_eq!(row_of(&writer, LAST), blank_row());
    for c in 0..BUFFER_WIDTH {
        assert_eq!(writer.cell(LAST, c).ascii_char, b' ');
        assert_eq!(writer.cell(LAST, c).color_code.as_byte(), 0x00);
    }
}

#[test]
fn as_many_line_breaks_as_rows_empty_the_grid() {
    let mut writer = Writer::new(marked_grid());
    for _ in 0..BUFFER_HEIGHT {
        writer.line_break();
    }
    for r in 0..BUFFER_HEIGHT {
        assert_eq!(row_of(&writer, r), blank_row());
    }
    assert_eq!(writer.column(), 0);
}

#[test]
fn line_clear_empties_one_row_only() {
    let mut writer = Writer::new(marked_grid());
    writer.write_string("abc");
    writer.line_clear(5);
    assert_eq!(writer.column(), 3);
    for r in 0..BUFFER_HEIGHT {
        if r == 5 {
            assert_eq!(row_of(&writer, r), blank_row());
        } else if r == LAST {
            assert_eq!(symbols(&writer, r, 0, 3), vec![b'a', b'b', b'c']);
            assert_eq!(writer.cell(r, 3), mark(r, 3));
        } else {
            assert_eq!(row_of(&writer, r), marked_row(r));
        }
    }
    writer.line_clear(0);
    writer.line_clear(LAST);
    assert_eq!(row_of(&writer, 0), blank_row());
    assert_eq!(row_of(&writer, LAST), blank_row());
    assert_eq!(row_of(&writer, 1), marked_row(1));
}

#[test]
fn line_clear_is_idempotent() {
    let mut writer = Writer::new(marked_grid());
    writer.line_clear(7);
    let once: Vec<Vec<ScreenChar>> = (0..BUFFER_HEIGHT).map(|r| row_of(&writer, r)).collect();
    writer.line_clear(7);
    let twice: Vec<Vec<ScreenChar>> = (0..BUFFER_HEIGHT).map(|r| row_of(&writer, r)).collect();
    assert_eq!(once, twice);
    assert_eq!(twice[7], blank_row());
    assert_eq!(writer.column(), 0);

    let mut writer = Writer::new(blank_grid());
    writer.line_clear(LAST);
    for r in 0..BUFFER_HEIGHT {
        assert_eq!(row_of(&writer, r), blank_row());
    }
}

#[test]
fn two_lines_and_a_letter() {
    let mut writer = Writer::new(grid_of(|r, c| if r == LAST { blank() } else { mark(r, c) }));
    assert_eq!(writer.column(), 0);
    writer.write_string("AB");
    assert_eq!(writer.cell(LAST, 0), cell(b'A', yellow()));
    assert_eq!(writer.cell(LAST, 1), cell(b'B', yellow()));
    assert_eq!(writer.column(), 2);
    writer.write_string("\nC");
    assert_eq!(writer.column(), 1);
    assert_eq!(writer.cell(LAST, 0), cell(b'C', yellow()));
    for c in 1..BUFFER_WIDTH {
        assert_eq!(writer.cell(LAST, c), blank());
    }
    assert_eq!(writer.cell(LAST - 1, 0), cell(b'A', yellow()));
    assert_eq!(writer.cell(LAST - 1, 1), cell(b'B', yellow()));
    for c in 2..BUFFER_WIDTH {
        assert_eq!(writer.cell(LAST - 1, c), blank());
    }
    for r in 0..LAST - 1 {
        assert_eq!(row_of(&writer, r), marked_row(r + 1));
    }
}

#[test]
fn two_lines_and_a_letter_in_one_string() {
    let mut writer = Writer::new(blank_grid());
    writer.write_string("AB\nC");
    assert_eq!(writer.column(), 1);
    assert_eq!(symbols(&writer, LAST - 1, 0, 3), vec![b'A', b'B', b' ']);
    assert_eq!(symbols(&writer, LAST, 0, 2), vec![b'C', b' ']);
    assert_eq!(writer.cell(LAST, 0), cell(b'C', yellow()));
}

#[test]
fn writing_in_pieces_is_writing_the_whole() {
    let text = "first line\nsecond\u{7}line that is quite a bit longer than the first one, so that it wraps around the end\n\nend";
    for cut in [0usize, 1, 10, 11, 12, 17, 18, 50, text.len()] {
        let mut whole = Writer::new(marked_grid());
        whole.write_string(text);
        let mut pieces = Writer::new(marked_grid());
        pieces.write_string(&text[..cut]);
        pieces.write_string(&text[cut..]);
        assert_eq!(whole.column(), pieces.column());
        for r in 0..BUFFER_HEIGHT {
            assert_eq!(row_of(&whole, r), row_of(&pieces, r));
        }
    }
}

#[test]
fn write_str_writes_as_write_string_does() {
    let mut writer = Writer::new(blank_grid());
    assert!(writer.write_str("n=").is_ok());
    assert!(writer.write_str("2 \u{2}").is_ok());
    assert!(writer.write_char('x').is_ok());
    assert_eq!(symbols(&writer, LAST, 0, 7), vec![b'n', b'=', b'2', b' ', 0xfe, b'x', b' ']);
    assert_eq!(writer.column(), 6);
    assert!(writer.write_str("\n").is_ok());
    assert_eq!(writer.column(), 0);
    assert_eq!(symbols(&writer, LAST - 1, 0, 6), vec![b'n', b'=', b'2', b' ', 0xfe, b'x']);
}

#[test]
fn no_byte_of_a_text_is_shown_unless_printable() {
    let mut writer = Writer::new(blank_grid());
    let mut buffer = [0u8; 4];
    let mut code: u32 = 0;
    while code <= 0x10ffff {
        if let Some(ch) = char::from_u32(code) {
            if ch != '\n' {
                let text: &str = ch.encode_utf8(&mut buffer);
                writer.write_string("\n");
                writer.write_string(text);
                assert_eq!(writer.column(), text.len());
                for (i, b) in text.bytes().enumerate() {
                    assert!(b <= 0xf7);
                    let shown = writer.cell(LAST, i).ascii_char;
                    if (0x20..=0x7e).contains(&b) {
                        assert_eq!(shown, b);
                    } else {
                        assert_eq!(shown, 0xfe);
                        assert_ne!(shown, b);
                    }
                }
            }
        }
        code += if code < 0x800 { 1 } else { 61 };
    }
}

#[test]
fn text_from_the_middle_of_a_row_is_laid_out_like_a_tape() {
    let mut writer = Writer::new(marked_grid());
    let lead: String = core::iter::repeat('.').take(70).collect();
    writer.write_string(&lead);
    assert_eq!(writer.column(), 70);
    let text: Vec<u8> = (0..100).map(|i| b'a' + (i % 26) as u8).collect();
    writer.write_string(core::str::from_utf8(&text).unwrap());
    // (70 + 100 - 1) / 80 = 2 scrolls, and the cursor at (70 + 100 - 1) % 80 + 1.
    assert_eq!(writer.column(), 10);
    for (i, b) in text.iter().enumerate() {
        let p = 70 + i;
        assert_eq!(writer.cell(LAST - 2 + p / BUFFER_WIDTH, p % BUFFER_WIDTH), cell(*b, yellow()));
    }
    for c in 0..70 {
        assert_eq!(writer.cell(LAST - 2, c), cell(b'.', yellow()));
    }
    for c in 10..BUFFER_WIDTH {
        assert_eq!(writer.cell(LAST, c), blank());
    }
    for r in 0..LAST - 2 {
        assert_eq!(row_of(&writer, r), marked_row(r + 2));
    }
}

#[test]
fn text_longer_than_the_grid_keeps_its_end() {
    let rows = BUFFER_HEIGHT + 5;
    let text: Vec<u8> = (0..rows * BUFFER_WIDTH).map(|i| b'0' + ((i / BUFFER_WIDTH) % 10) as u8).collect();
    let mut writer = Writer::new(marked_grid());
    writer.write_string(core::str::from_utf8(&text).unwrap());
    assert_eq!(writer.column(), BUFFER_WIDTH);
    for r in 0..BUFFER_HEIGHT {
        let line = rows - BUFFER_HEIGHT + r;
        assert_eq!(row_of(&writer, r), vec![cell(b'0' + (line % 10) as u8, yellow()); BUFFER_WIDTH]);
    }
}

#[test]
fn newlines_only_scroll() {
    let mut writer = Writer::new(marked_grid());
    writer.write_string("\n\n\n");
    assert_eq!(writer.column(), 0);
    for r in 0..BUFFER_HEIGHT - 3 {
        assert_eq!(row_of(&writer, r), marked_row(r + 3));
    }
    for r in BUFFER_HEIGHT - 3..BUFFER_HEIGHT {
        assert_eq!(row_of(&writer, r), blank_row());
    }
}
