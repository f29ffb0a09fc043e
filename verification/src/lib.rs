//! A text console for the VGA character device.
//!
//! The device shows a grid of 25 rows by 80 columns. Each cell of the grid is
//! one 16-bit word in device memory: the symbol in the low byte, the colours in
//! the high byte. [`Writer`] turns a stream of bytes into writes to that grid:
//! it advances a cursor on the last row, wraps at the end of the row and
//! scrolls the grid up when a new row is needed.
//!
//! What the writer does is stated over [`Screen`], a mathematical picture of
//! the grid, the cursor and the current colours:
//!
//! - [`color`] and [`cell`] hold the colours, the attribute byte and the device
//!   word of a cell, with their encodings;
//! - [`screen`] holds the picture and what each operation makes of it;
//! - [`buffer`] holds the grid in device memory and what is assumed of the
//!   volatile cells it is made of;
//! - [`writer`] holds the writer itself;
//! - [`laws`] holds what follows for every screen and every string.

pub mod buffer;
pub mod cell;
pub mod color;
pub mod laws;
pub mod screen;
pub mod writer;

pub use buffer::Buffer;
pub use cell::ScreenChar;
pub use color::{Color, ScreenColor};
pub use screen::{Screen, BUFFER_HEIGHT, BUFFER_WIDTH, NEWLINE, PLACEHOLDER};
pub use writer::Writer;
