//! Escape sequences that clear the screen or a part of it.

use vstd::prelude::*;
use vstd::string::*;

verus! {

/// Clear the entire screen.
#[derive(Copy, Clone)]
pub struct All;

impl All {
    /// The escape sequence.
    pub fn as_ref(&self) -> (s: &'static str)
        ensures
            s@ == "\x1B[2J"@,
    {
        "\x1B[2J"
    }

    /// Writes the escape sequence.
    pub fn fmt(&self, f: &mut String)
        ensures
            final(f)@ == old(f)@ + "\x1B[2J"@,
    {
        f.append("\x1B[2J");
    }
}

/// Clear everything after the cursor.
#[derive(Copy, Clone)]
pub struct AfterCursor;

impl AfterCursor {
    /// The escape sequence.
    pub fn as_ref(&self) -> (s: &'static str)
        ensures
            s@ == "\x1B[J"@,
    {
        "\x1B[J"
    }

    /// Writes the escape sequence.
    pub fn fmt(&self, f: &mut String)
        ensures
            final(f)@ == old(f)@ + "\x1B[J"@,
    {
        f.append("\x1B[J");
    }
}

/// Clear everything before the cursor.
#[derive(Copy, Clone)]
pub struct BeforeCursor;

impl BeforeCursor {
    /// The escape sequence.
    pub fn as_ref(&self) -> (s: &'static str)
        ensures
            s@ == "\x1B[1J"@,
    {
        "\x1B[1J"
    }

    /// Writes the escape sequence.
    pub fn fmt(&self, f: &mut String)
        ensures
            final(f)@ == old(f)@ + "\x1B[1J"@,
    {
        f.append("\x1B[1J");
    }
}

/// Clear the current line.
#[derive(Copy, Clone)]
pub struct CurrentLine;

impl CurrentLine {
    /// The escape sequence.
    pub fn as_ref(&self) -> (s: &'static str)
        ensures
            s@ == "\x1B[2K"@,
    {
        "\x1B[2K"
    }

    /// Writes the escape sequence.
    pub fn fmt(&self, f: &mut String)
        ensures
            final(f)@ == old(f)@ + "\x1B[2K"@,
    {
        f.append("\x1B[2K");
    }
}

/// Clear from cursor to newline.
#[derive(Copy, Clone)]
pub struct UntilNewline;

impl UntilNewline {
    /// The escape sequence.
    pub fn as_ref(&self) -> (s: &'static str)
        ensures
            s@ == "\x1B[K"@,
    {
        "\x1B[K"
    }

    /// Writes the escape sequence.
    pub fn fmt(&self, f: &mut String)
        ensures
            final(f)@ == old(f)@ + "\x1B[K"@,
    {
        f.append("\x1B[K");
    }
}

} // verus!
