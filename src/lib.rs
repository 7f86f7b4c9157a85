//! A streaming hex-dump formatter.
//!
//! Bytes written to a [`HexWriter`] are rendered into rows of sixteen
//! bytes: an offset column, the bytes as pairs of uppercase hexadecimal
//! digits (with an extra space after the eighth), and a gutter that shows
//! each byte as a character, or `.` where it is a control character.
//!
//! ```text
//! 0x00000000: 48 65 6C 6C 6F 2C 20 57  6F 72 6C 64 21 0A 0A 4D | Hello, World!..M |
//! 0x00000010: 6F 72 65 20 74 65 78 74                          | ore text........ |
//! ```
//!
//! The text is appended to a caller's `Vec<u8>`; handing it on to a
//! stream is the caller's business.

pub mod laws;
pub mod text;
mod writer;

pub use text::gutter_byte;

pub use writer::HexWriter;
