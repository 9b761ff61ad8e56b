//! The escape sequences of ANSI terminals that the user interface needs.

pub mod clear;
pub mod color;
pub mod cursor;
pub mod style;
