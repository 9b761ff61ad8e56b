//! Escape sequences that change how text is styled.

use vstd::prelude::*;
use vstd::string::*;

verus! {

/// Reset SGR parameters.
#[derive(Copy, Clone)]
pub struct Reset;

impl Reset {
    /// The escape sequence.
    pub fn as_ref(&self) -> (s: &'static str)
        ensures
            s@ == "\x1B[m"@,
    {
        "\x1B[m"
    }

    /// Writes the escape sequence.
    pub fn fmt(&self, f: &mut String)
        ensures
            final(f)@ == old(f)@ + "\x1B[m"@,
    {
        f.append("\x1B[m");
    }
}

/// Bold text.
#[derive(Copy, Clone)]
pub struct Bold;

impl Bold {
    /// The escape sequence.
    pub fn as_ref(&self) -> (s: &'static str)
        ensures
            s@ == "\x1B[1m"@,
    {
        "\x1B[1m"
    }

    /// Writes the escape sequence.
    pub fn fmt(&self, f: &mut String)
        ensures
            final(f)@ == old(f)@ + "\x1B[1m"@,
    {
        f.append("\x1B[1m");
    }
}

/// Fainted text (not widely supported).
#[derive(Copy, Clone)]
pub struct Faint;

impl Faint {
    /// The escape sequence.
    pub fn as_ref(&self) -> (s: &'static str)
        ensures
            s@ == "\x1B[2m"@,
    {
        "\x1B[2m"
    }

    /// Writes the escape sequence.
    pub fn fmt(&self, f: &mut String)
        ensures
            final(f)@ == old(f)@ + "\x1B[2m"@,
    {
        f.append("\x1B[2m");
    }
}

/// Italic text.
#[derive(Copy, Clone)]
pub struct Italic;

impl Italic {
    /// The escape sequence.
    pub fn as_ref(&self) -> (s: &'static str)
        ensures
            s@ == "\x1B[3m"@,
    {
        "\x1B[3m"
    }

    /// Writes the escape sequence.
    pub fn fmt(&self, f: &mut String)
        ensures
            final(f)@ == old(f)@ + "\x1B[3m"@,
    {
        f.append("\x1B[3m");
    }
}

/// Underlined text.
#[derive(Copy, Clone)]
pub struct Underline;

impl Underline {
    /// The escape sequence.
    pub fn as_ref(&self) -> (s: &'static str)
        ensures
            s@ == "\x1B[4m"@,
    {
        "\x1B[4m"
    }

    /// Writes the escape sequence.
    pub fn fmt(&self, f: &mut String)
        ensures
            final(f)@ == old(f)@ + "\x1B[4m"@,
    {
        f.append("\x1B[4m");
    }
}

/// Blinking text (not widely supported).
#[derive(Copy, Clone)]
pub struct Blink;

impl Blink {
    /// The escape sequence.
    pub fn as_ref(&self) -> (s: &'static str)
        ensures
            s@ == "\x1B[5m"@,
    {
        "\x1B[5m"
    }

    /// Writes the escape sequence.
    pub fn fmt(&self, f: &mut String)
        ensures
            final(f)@ == old(f)@ + "\x1B[5m"@,
    {
        f.append("\x1B[5m");
    }
}

/// Inverted colors (negative mode).
#[derive(Copy, Clone)]
pub struct Invert;

impl Invert {
    /// The escape sequence.
    pub fn as_ref(&self) -> (s: &'static str)
        ensures
            s@ == "\x1B[7m"@,
    {
        "\x1B[7m"
    }

    /// Writes the escape sequence.
    pub fn fmt(&self, f: &mut String)
        ensures
            final(f)@ == old(f)@ + "\x1B[7m"@,
    {
        f.append("\x1B[7m");
    }
}

/// Crossed out text (not widely supported).
#[derive(Copy, Clone)]
pub struct CrossedOut;

impl CrossedOut {
    /// The escape sequence.
    pub fn as_ref(&self) -> (s: &'static str)
        ensures
            s@ == "\x1B[9m"@,
    {
        "\x1B[9m"
    }

    /// Writes the escape sequence.
    pub fn fmt(&self, f: &mut String)
        ensures
            final(f)@ == old(f)@ + "\x1B[9m"@,
    {
        f.append("\x1B[9m");
    }
}

/// Undo bold text.
#[derive(Copy, Clone)]
pub struct NoBold;

impl NoBold {
    /// The escape sequence.
    pub fn as_ref(&self) -> (s: &'static str)
        ensures
            s@ == "\x1B[21m"@,
    {
        "\x1B[21m"
    }

    /// Writes the escape sequence.
    pub fn fmt(&self, f: &mut String)
        ensures
            final(f)@ == old(f)@ + "\x1B[21m"@,
    {
        f.append("\x1B[21m");
    }
}

/// Undo fainted text (not widely supported).
#[derive(Copy, Clone)]
pub struct NoFaint;

impl NoFaint {
    /// The escape sequence.
    pub fn as_ref(&self) -> (s: &'static str)
        ensures
            s@ == "\x1B[22m"@,
    {
        "\x1B[22m"
    }

    /// Writes the escape sequence.
    pub fn fmt(&self, f: &mut String)
        ensures
            final(f)@ == old(f)@ + "\x1B[22m"@,
    {
        f.append("\x1B[22m");
    }
}

/// Undo italic text.
#[derive(Copy, Clone)]
pub struct NoItalic;

impl NoItalic {
    /// The escape sequence.
    pub fn as_ref(&self) -> (s: &'static str)
        ensures
            s@ == "\x1B[23m"@,
    {
        "\x1B[23m"
    }

    /// Writes the escape sequence.
    pub fn fmt(&self, f: &mut String)
        ensures
            final(f)@ == old(f)@ + "\x1B[23m"@,
    {
        f.append("\x1B[23m");
    }
}

/// Undo underlined text.
#[derive(Copy, Clone)]
pub struct NoUnderline;

impl NoUnderline {
    /// The escape sequence.
    pub fn as_ref(&self) -> (s: &'static str)
        ensures
            s@ == "\x1B[24m"@,
    {
        "\x1B[24m"
    }

    /// Writes the escape sequence.
    pub fn fmt(&self, f: &mut String)
        ensures
            final(f)@ == old(f)@ + "\x1B[24m"@,
    {
        f.append("\x1B[24m");
    }
}

/// Undo blinking text (not widely supported).
#[derive(Copy, Clone)]
pub struct NoBlink;

impl NoBlink {
    /// The escape sequence.
    pub fn as_ref(&self) -> (s: &'static str)
        ensures
            s@ == "\x1B[25m"@,
    {
        "\x1B[25m"
    }

    /// Writes the escape sequence.
    pub fn fmt(&self, f: &mut String)
        ensures
            final(f)@ == old(f)@ + "\x1B[25m"@,
    {
        f.append("\x1B[25m");
    }
}

/// Undo inverted colors (negative mode).
#[derive(Copy, Clone)]
pub struct NoInvert;

impl NoInvert {
    /// The escape sequence.
    pub fn as_ref(&self) -> (s: &'static str)
        ensures
            s@ == "\x1B[27m"@,
    {
        "\x1B[27m"
    }

    /// Writes the escape sequence.
    pub fn fmt(&self, f: &mut String)
        ensures
            final(f)@ == old(f)@ + "\x1B[27m"@,
    {
        f.append("\x1B[27m");
    }
}

/// Undo crossed out text (not widely supported).
#[derive(Copy, Clone)]
pub struct NoCrossedOut;

impl NoCrossedOut {
    /// The escape sequence.
    pub fn as_ref(&self) -> (s: &'static str)
        ensures
            s@ == "\x1B[29m"@,
    {
        "\x1B[29m"
    }

    /// Writes the escape sequence.
    pub fn fmt(&self, f: &mut String)
        ensures
            final(f)@ == old(f)@ + "\x1B[29m"@,
    {
        f.append("\x1B[29m");
    }
}

/// Framed text (not widely supported).
#[derive(Copy, Clone)]
pub struct Framed;

impl Framed {
    /// The escape sequence.
    pub fn as_ref(&self) -> (s: &'static str)
        ensures
            s@ == "\x1B[51m"@,
    {
        "\x1B[51m"
    }

    /// Writes the escape sequence.
    pub fn fmt(&self, f: &mut String)
        ensures
            final(f)@ == old(f)@ + "\x1B[51m"@,
    {
        f.append("\x1B[51m");
    }
}

} // verus!
