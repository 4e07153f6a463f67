//! What holds of reading and writing together.
//!
//! The main statements are in [`round_trip`]: a script that is written and
//! read again is the same script, and writing it once more gives the same
//! text. They hold of every script that is [`valid::script`], and every
//! script that was read is. [`counts`] holds what is stated of repeat counts
//! and of the meaning of a failure. The other modules hold the steps: how
//! each rule reads back what is written of a value.

pub mod constraints;
pub mod counts;
pub mod fields;
pub mod lines;
pub mod pieces;
pub mod produced;
pub mod round_trip;
pub mod script;
pub mod valid;
