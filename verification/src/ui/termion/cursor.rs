//! Escape sequences that move, show and hide the cursor.

use crate::text::decimal_digits;
use crate::text::u16_decimal;
use vstd::prelude::*;
use vstd::string::*;

verus! {

/// Hide the cursor.
#[derive(Copy, Clone)]
pub struct Hide;

impl Hide {
    /// The escape sequence.
    pub fn as_ref(&self) -> (s: &'static str)
        ensures
            s@ == "\x1B[?25l"@,
    {
        "\x1B[?25l"
    }

    /// Writes the escape sequence.
    pub fn fmt(&self, f: &mut String)
        ensures
            final(f)@ == old(f)@ + "\x1B[?25l"@,
    {
        f.append("\x1B[?25l");
    }
}

/// Show the cursor.
#[derive(Copy, Clone)]
pub struct Show;

impl Show {
    /// The escape sequence.
    pub fn as_ref(&self) -> (s: &'static str)
        ensures
            s@ == "\x1B[?25h"@,
    {
        "\x1B[?25h"
    }

    /// Writes the escape sequence.
    pub fn fmt(&self, f: &mut String)
        ensures
            final(f)@ == old(f)@ + "\x1B[?25h"@,
    {
        f.append("\x1B[?25h");
    }
}

/// Restore the cursor.
#[derive(Copy, Clone)]
pub struct Restore;

impl Restore {
    /// The escape sequence.
    pub fn as_ref(&self) -> (s: &'static str)
        ensures
            s@ == "\x1B[u"@,
    {
        "\x1B[u"
    }

    /// Writes the escape sequence.
    pub fn fmt(&self, f: &mut String)
        ensures
            final(f)@ == old(f)@ + "\x1B[u"@,
    {
        f.append("\x1B[u");
    }
}

/// Save the cursor.
#[derive(Copy, Clone)]
pub struct Save;

impl Save {
    /// The escape sequence.
    pub fn as_ref(&self) -> (s: &'static str)
        ensures
            s@ == "\x1B[s"@,
    {
        "\x1B[s"
    }

    /// Writes the escape sequence.
    pub fn fmt(&self, f: &mut String)
        ensures
            final(f)@ == old(f)@ + "\x1B[s"@,
    {
        f.append("\x1B[s");
    }
}

/// Change the cursor style to blinking block
#[derive(Copy, Clone)]
pub struct BlinkingBlock;

impl BlinkingBlock {
    /// The escape sequence.
    pub fn as_ref(&self) -> (s: &'static str)
        ensures
            s@ == "\x1B[\x31 q"@,
    {
        "\x1B[\x31 q"
    }

    /// Writes the escape sequence.
    pub fn fmt(&self, f: &mut String)
        ensures
            final(f)@ == old(f)@ + "\x1B[\x31 q"@,
    {
        f.append("\x1B[\x31 q");
    }
}

/// Change the cursor style to steady block
#[derive(Copy, Clone)]
pub struct SteadyBlock;

impl SteadyBlock {
    /// The escape sequence.
    pub fn as_ref(&self) -> (s: &'static str)
        ensures
            s@ == "\x1B[\x32 q"@,
    {
        "\x1B[\x32 q"
    }

    /// Writes the escape sequence.
    pub fn fmt(&self, f: &mut String)
        ensures
            final(f)@ == old(f)@ + "\x1B[\x32 q"@,
    {
        f.append("\x1B[\x32 q");
    }
}

/// Change the cursor style to blinking underline
#[derive(Copy, Clone)]
pub struct BlinkingUnderline;

impl BlinkingUnderline {
    /// The escape sequence.
    pub fn as_ref(&self) -> (s: &'static str)
        ensures
            s@ == "\x1B[\x33 q"@,
    {
        "\x1B[\x33 q"
    }

    /// Writes the escape sequence.
    pub fn fmt(&self, f: &mut String)
        ensures
            final(f)@ == old(f)@ + "\x1B[\x33 q"@,
    {
        f.append("\x1B[\x33 q");
    }
}

/// Change the cursor style to steady underline
#[derive(Copy, Clone)]
pub struct SteadyUnderline;

impl SteadyUnderline {
    /// The escape sequence.
    pub fn as_ref(&self) -> (s: &'static str)
        ensures
            s@ == "\x1B[\x34 q"@,
    {
        "\x1B[\x34 q"
    }

    /// Writes the escape sequence.
    pub fn fmt(&self, f: &mut String)
        ensures
            final(f)@ == old(f)@ + "\x1B[\x34 q"@,
    {
        f.append("\x1B[\x34 q");
    }
}

/// Change the cursor style to blinking bar
#[derive(Copy, Clone)]
pub struct BlinkingBar;

impl BlinkingBar {
    /// The escape sequence.
    pub fn as_ref(&self) -> (s: &'static str)
        ensures
            s@ == "\x1B[\x35 q"@,
    {
        "\x1B[\x35 q"
    }

    /// Writes the escape sequence.
    pub fn fmt(&self, f: &mut String)
        ensures
            final(f)@ == old(f)@ + "\x1B[\x35 q"@,
    {
        f.append("\x1B[\x35 q");
    }
}

/// Change the cursor style to steady bar
#[derive(Copy, Clone)]
pub struct SteadyBar;

impl SteadyBar {
    /// The escape sequence.
    pub fn as_ref(&self) -> (s: &'static str)
        ensures
            s@ == "\x1B[\x36 q"@,
    {
        "\x1B[\x36 q"
    }

    /// Writes the escape sequence.
    pub fn fmt(&self, f: &mut String)
        ensures
            final(f)@ == old(f)@ + "\x1B[\x36 q"@,
    {
        f.append("\x1B[\x36 q");
    }
}

/// Goto some position ((1,1)-based): column first, then row.
#[derive(Copy, Clone, PartialEq, Eq, Structural)]
pub struct Goto(pub u16, pub u16);

impl Goto {
    /// The escape sequence: the row, then the column.
    pub open spec fn code(self) -> Seq<char> {
        "\x1B["@ + decimal_digits(self.1 as nat) + ";"@ + decimal_digits(self.0 as nat) + "H"@
    }

    /// The escape sequence as a string.
    pub fn into_string(self) -> (s: String)
        ensures
            s@ == self.code(),
    {
        let mut s = String::from_str("\x1B[");
        s.append(u16_decimal(self.1).as_str());
        s.append(";");
        s.append(u16_decimal(self.0).as_str());
        s.append("H");
        s
    }

    /// Writes the escape sequence.
    pub fn fmt(&self, f: &mut String)
        ensures
            final(f)@ == old(f)@ + self.code(),
    {
        f.append(self.into_string().as_str());
    }
}

impl Default for Goto {
    fn default() -> (r: Goto)
        ensures
            r == Goto(1, 1),
    {
        Goto(1, 1)
    }
}

/// Move cursor left.
#[derive(Copy, Clone, PartialEq, Eq, Structural)]
pub struct Left(pub u16);

impl Left {
    /// The escape sequence.
    pub open spec fn code(self) -> Seq<char> {
        "\x1B["@ + decimal_digits(self.0 as nat) + "D"@
    }

    /// The escape sequence as a string.
    pub fn into_string(self) -> (s: String)
        ensures
            s@ == self.code(),
    {
        let mut s = String::from_str("\x1B[");
        s.append(u16_decimal(self.0).as_str());
        s.append("D");
        s
    }

    /// Writes the escape sequence.
    pub fn fmt(&self, f: &mut String)
        ensures
            final(f)@ == old(f)@ + self.code(),
    {
        f.append(self.into_string().as_str());
    }
}

/// Move cursor right.
#[derive(Copy, Clone, PartialEq, Eq, Structural)]
pub struct Right(pub u16);

impl Right {
    /// The escape sequence.
    pub open spec fn code(self) -> Seq<char> {
        "\x1B["@ + decimal_digits(self.0 as nat) + "C"@
    }

    /// The escape sequence as a string.
    pub fn into_string(self) -> (s: String)
        ensures
            s@ == self.code(),
    {
        let mut s = String::from_str("\x1B[");
        s.append(u16_decimal(self.0).as_str());
        s.append("C");
        s
    }

    /// Writes the escape sequence.
    pub fn fmt(&self, f: &mut String)
        ensures
            final(f)@ == old(f)@ + self.code(),
    {
        f.append(self.into_string().as_str());
    }
}

/// Move cursor up.
#[derive(Copy, Clone, PartialEq, Eq, Structural)]
pub struct Up(pub u16);

impl Up {
    /// The escape sequence.
    pub open spec fn code(self) -> Seq<char> {
        "\x1B["@ + decimal_digits(self.0 as nat) + "A"@
    }

    /// The escape sequence as a string.
    pub fn into_string(self) -> (s: String)
        ensures
            s@ == self.code(),
    {
        let mut s = String::from_str("\x1B[");
        s.append(u16_decimal(self.0).as_str());
        s.append("A");
        s
    }

    /// Writes the escape sequence.
    pub fn fmt(&self, f: &mut String)
        ensures
            final(f)@ == old(f)@ + self.code(),
    {
        f.append(self.into_string().as_str());
    }
}

/// Move cursor down.
#[derive(Copy, Clone, PartialEq, Eq, Structural)]
pub struct Down(pub u16);

impl Down {
    /// The escape sequence.
    pub open spec fn code(self) -> Seq<char> {
        "\x1B["@ + decimal_digits(self.0 as nat) + "B"@
    }

    /// The escape sequence as a string.
    pub fn into_string(self) -> (s: String)
        ensures
            s@ == self.code(),
    {
        let mut s = String::from_str("\x1B[");
        s.append(u16_decimal(self.0).as_str());
        s.append("B");
        s
    }

    /// Writes the escape sequence.
    pub fn fmt(&self, f: &mut String)
        ensures
            final(f)@ == old(f)@ + self.code(),
    {
        f.append(self.into_string().as_str());
    }
}

/// Hides the cursor in what is written to its output for as long as it
/// holds the output, and shows it again when it gives the output back.
pub struct HideCursor {
    /// The output target.
    output: String,
}

impl HideCursor {
    /// What was written to the output so far.
    pub closed spec fn written(&self) -> Seq<char> {
        self.output@
    }

    /// Takes over `output` and hides the cursor.
    pub fn from(output: String) -> (r: Self)
        ensures
            r.written() == output@ + "\x1B[?25l"@,
    {
        let mut output = output;
        Hide.fmt(&mut output);
        HideCursor { output }
    }

    /// Writes `text` to the output.
    pub fn write(&mut self, text: &str)
        ensures
            final(self).written() == old(self).written() + text@,
    {
        self.output.append(text);
    }

    /// The output so far.
    pub fn deref(&self) -> (r: &String)
        ensures
            r@ == self.written(),
    {
        &self.output
    }

    /// Shows the cursor and gives the output back.
    pub fn drop(self) -> (r: String)
        ensures
            r@ == self.written() + "\x1B[?25h"@,
    {
        let mut output = self.output;
        Show.fmt(&mut output);
        output
    }
}

} // verus!
