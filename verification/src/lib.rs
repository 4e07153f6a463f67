//! Reading and writing Half-Life TAS scripts (`.hltas`).
//!
//! A script is a version line, some properties, and the lines of the frames
//! section: frame bulks, and lines that save, seed, set buttons, reset,
//! comment, or steer the vectorial strafing. [`types`] holds the script as
//! values, [`HLTAS::from_str`] reads one from its text, and
//! [`HLTAS::to_writer`] and [`HLTAS::to_text`] write it.
//!
//! What reading and writing do is stated twice over: [`grammar`] says of every
//! text what it is read as, or where and why reading fails, and [`notation`]
//! says what is written of every script. The functions of [`read`] and
//! [`write`] are proved to do just that. [`laws`] proves what holds of the two
//! together: a script that was read is read again from what is written of it,
//! and writing it again gives the same text.
//!
//! Numbers with a fractional part are kept as they are written, see
//! [`number::Number`]. A number is taken where single precision can hold it;
//! [`magnitude`] decides that from the digits.

pub mod grammar;
pub mod laws;
pub mod magnitude;
pub mod notation;
pub mod number;
pub mod read;
pub mod runs;
pub mod text;
pub mod types;
pub mod write;

pub use types::HLTAS;
