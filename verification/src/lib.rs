//! Case conversion of text, one character at a time.
//!
//! A converter applies one of four policies to every character of a text:
//! upper-casing, lower-casing, case reversal, or random flipping whose
//! probability grows with every character that was not flipped.

pub mod cli;
pub mod convert;
pub mod unicode;
