//! Terminal colors and the escape sequences that select them.

use crate::text::decimal_digits;
use crate::text::u8_decimal;
use vstd::prelude::*;
use vstd::string::*;

verus! {

/// A terminal color.
pub trait Color {
    /// The escape sequence that makes this color the foreground.
    spec fn fg_code(&self) -> Seq<char>;

    /// The escape sequence that makes this color the background.
    spec fn bg_code(&self) -> Seq<char>;

    /// Write the foreground version of this color.
    fn write_fg(&self, f: &mut String)
        ensures
            final(f)@ == old(f)@ + self.fg_code(),
    ;

    /// Write the background version of this color.
    fn write_bg(&self, f: &mut String)
        ensures
            final(f)@ == old(f)@ + self.bg_code(),
    ;
}

/// Black.
#[derive(Copy, Clone, Debug)]
pub struct Black;

impl Color for Black {
    open spec fn fg_code(&self) -> Seq<char> {
        "\x1B[38;5;0m"@
    }

    open spec fn bg_code(&self) -> Seq<char> {
        "\x1B[48;5;0m"@
    }

    fn write_fg(&self, f: &mut String) {
        f.append(self.fg_str());
    }

    fn write_bg(&self, f: &mut String) {
        f.append(self.bg_str());
    }
}

impl Black {
    /// Returns the ANSI escape sequence as a string.
    pub fn fg_str(&self) -> (s: &'static str)
        ensures
            s@ == self.fg_code(),
    {
        "\x1B[38;5;0m"
    }

    /// Returns the ANSI escape sequence as a string.
    pub fn bg_str(&self) -> (s: &'static str)
        ensures
            s@ == self.bg_code(),
    {
        "\x1B[48;5;0m"
    }
}

/// Red.
#[derive(Copy, Clone, Debug)]
pub struct Red;

impl Color for Red {
    open spec fn fg_code(&self) -> Seq<char> {
        "\x1B[38;5;1m"@
    }

    open spec fn bg_code(&self) -> Seq<char> {
        "\x1B[48;5;1m"@
    }

    fn write_fg(&self, f: &mut String) {
        f.append(self.fg_str());
    }

    fn write_bg(&self, f: &mut String) {
        f.append(self.bg_str());
    }
}

impl Red {
    /// Returns the ANSI escape sequence as a string.
    pub fn fg_str(&self) -> (s: &'static str)
        ensures
            s@ == self.fg_code(),
    {
        "\x1B[38;5;1m"
    }

    /// Returns the ANSI escape sequence as a string.
    pub fn bg_str(&self) -> (s: &'static str)
        ensures
            s@ == self.bg_code(),
    {
        "\x1B[48;5;1m"
    }
}

/// Green.
#[derive(Copy, Clone, Debug)]
pub struct Green;

impl Color for Green {
    open spec fn fg_code(&self) -> Seq<char> {
        "\x1B[38;5;2m"@
    }

    open spec fn bg_code(&self) -> Seq<char> {
        "\x1B[48;5;2m"@
    }

    fn write_fg(&self, f: &mut String) {
        f.append(self.fg_str());
    }

    fn write_bg(&self, f: &mut String) {
        f.append(self.bg_str());
    }
}

impl Green {
    /// Returns the ANSI escape sequence as a string.
    pub fn fg_str(&self) -> (s: &'static str)
        ensures
            s@ == self.fg_code(),
    {
        "\x1B[38;5;2m"
    }

    /// Returns the ANSI escape sequence as a string.
    pub fn bg_str(&self) -> (s: &'static str)
        ensures
            s@ == self.bg_code(),
    {
        "\x1B[48;5;2m"
    }
}

/// Yellow.
#[derive(Copy, Clone, Debug)]
pub struct Yellow;

impl Color for Yellow {
    open spec fn fg_code(&self) -> Seq<char> {
        "\x1B[38;5;3m"@
    }

    open spec fn bg_code(&self) -> Seq<char> {
        "\x1B[48;5;3m"@
    }

    fn write_fg(&self, f: &mut String) {
        f.append(self.fg_str());
    }

    fn write_bg(&self, f: &mut String) {
        f.append(self.bg_str());
    }
}

impl Yellow {
    /// Returns the ANSI escape sequence as a string.
    pub fn fg_str(&self) -> (s: &'static str)
        ensures
            s@ == self.fg_code(),
    {
        "\x1B[38;5;3m"
    }

    /// Returns the ANSI escape sequence as a string.
    pub fn bg_str(&self) -> (s: &'static str)
        ensures
            s@ == self.bg_code(),
    {
        "\x1B[48;5;3m"
    }
}

/// Blue.
#[derive(Copy, Clone, Debug)]
pub struct Blue;

impl Color for Blue {
    open spec fn fg_code(&self) -> Seq<char> {
        "\x1B[38;5;4m"@
    }

    open spec fn bg_code(&self) -> Seq<char> {
        "\x1B[48;5;4m"@
    }

    fn write_fg(&self, f: &mut String) {
        f.append(self.fg_str());
    }

    fn write_bg(&self, f: &mut String) {
        f.append(self.bg_str());
    }
}

impl Blue {
    /// Returns the ANSI escape sequence as a string.
    pub fn fg_str(&self) -> (s: &'static str)
        ensures
            s@ == self.fg_code(),
    {
        "\x1B[38;5;4m"
    }

    /// Returns the ANSI escape sequence as a string.
    pub fn bg_str(&self) -> (s: &'static str)
        ensures
            s@ == self.bg_code(),
    {
        "\x1B[48;5;4m"
    }
}

/// Magenta.
#[derive(Copy, Clone, Debug)]
pub struct Magenta;

impl Color for Magenta {
    open spec fn fg_code(&self) -> Seq<char> {
        "\x1B[38;5;5m"@
    }

    open spec fn bg_code(&self) -> Seq<char> {
        "\x1B[48;5;5m"@
    }

    fn write_fg(&self, f: &mut String) {
        f.append(self.fg_str());
    }

    fn write_bg(&self, f: &mut String) {
        f.append(self.bg_str());
    }
}

impl Magenta {
    /// Returns the ANSI escape sequence as a string.
    pub fn fg_str(&self) -> (s: &'static str)
        ensures
            s@ == self.fg_code(),
    {
        "\x1B[38;5;5m"
    }

    /// Returns the ANSI escape sequence as a string.
    pub fn bg_str(&self) -> (s: &'static str)
        ensures
            s@ == self.bg_code(),
    {
        "\x1B[48;5;5m"
    }
}

/// Cyan.
#[derive(Copy, Clone, Debug)]
pub struct Cyan;

impl Color for Cyan {
    open spec fn fg_code(&self) -> Seq<char> {
        "\x1B[38;5;6m"@
    }

    open spec fn bg_code(&self) -> Seq<char> {
        "\x1B[48;5;6m"@
    }

    fn write_fg(&self, f: &mut String) {
        f.append(self.fg_str());
    }

    fn write_bg(&self, f: &mut String) {
        f.append(self.bg_str());
    }
}

impl Cyan {
    /// Returns the ANSI escape sequence as a string.
    pub fn fg_str(&self) -> (s: &'static str)
        ensures
            s@ == self.fg_code(),
    {
        "\x1B[38;5;6m"
    }

    /// Returns the ANSI escape sequence as a string.
    pub fn bg_str(&self) -> (s: &'static str)
        ensures
            s@ == self.bg_code(),
    {
        "\x1B[48;5;6m"
    }
}

/// White.
#[derive(Copy, Clone, Debug)]
pub struct White;

impl Color for White {
    open spec fn fg_code(&self) -> Seq<char> {
        "\x1B[38;5;7m"@
    }

    open spec fn bg_code(&self) -> Seq<char> {
        "\x1B[48;5;7m"@
    }

    fn write_fg(&self, f: &mut String) {
        f.append(self.fg_str());
    }

    fn write_bg(&self, f: &mut String) {
        f.append(self.bg_str());
    }
}

impl White {
    /// Returns the ANSI escape sequence as a string.
    pub fn fg_str(&self) -> (s: &'static str)
        ensures
            s@ == self.fg_code(),
    {
        "\x1B[38;5;7m"
    }

    /// Returns the ANSI escape sequence as a string.
    pub fn bg_str(&self) -> (s: &'static str)
        ensures
            s@ == self.bg_code(),
    {
        "\x1B[48;5;7m"
    }
}

/// High-intensity light black.
#[derive(Copy, Clone, Debug)]
pub struct LightBlack;

impl Color for LightBlack {
    open spec fn fg_code(&self) -> Seq<char> {
        "\x1B[38;5;8m"@
    }

    open spec fn bg_code(&self) -> Seq<char> {
        "\x1B[48;5;8m"@
    }

    fn write_fg(&self, f: &mut String) {
        f.append(self.fg_str());
    }

    fn write_bg(&self, f: &mut String) {
        f.append(self.bg_str());
    }
}

impl LightBlack {
    /// Returns the ANSI escape sequence as a string.
    pub fn fg_str(&self) -> (s: &'static str)
        ensures
            s@ == self.fg_code(),
    {
        "\x1B[38;5;8m"
    }

    /// Returns the ANSI escape sequence as a string.
    pub fn bg_str(&self) -> (s: &'static str)
        ensures
            s@ == self.bg_code(),
    {
        "\x1B[48;5;8m"
    }
}

/// High-intensity light red.
#[derive(Copy, Clone, Debug)]
pub struct LightRed;

impl Color for LightRed {
    open spec fn fg_code(&self) -> Seq<char> {
        "\x1B[38;5;9m"@
    }

    open spec fn bg_code(&self) -> Seq<char> {
        "\x1B[48;5;9m"@
    }

    fn write_fg(&self, f: &mut String) {
        f.append(self.fg_str());
    }

    fn write_bg(&self, f: &mut String) {
        f.append(self.bg_str());
    }
}

impl LightRed {
    /// Returns the ANSI escape sequence as a string.
    pub fn fg_str(&self) -> (s: &'static str)
        ensures
            s@ == self.fg_code(),
    {
        "\x1B[38;5;9m"
    }

    /// Returns the ANSI escape sequence as a string.
    pub fn bg_str(&self) -> (s: &'static str)
        ensures
            s@ == self.bg_code(),
    {
        "\x1B[48;5;9m"
    }
}

/// High-intensity light green.
#[derive(Copy, Clone, Debug)]
pub struct LightGreen;

impl Color for LightGreen {
    open spec fn fg_code(&self) -> Seq<char> {
        "\x1B[38;5;10m"@
    }

    open spec fn bg_code(&self) -> Seq<char> {
        "\x1B[48;5;10m"@
    }

    fn write_fg(&self, f: &mut String) {
        f.append(self.fg_str());
    }

    fn write_bg(&self, f: &mut String) {
        f.append(self.bg_str());
    }
}

impl LightGreen {
    /// Returns the ANSI escape sequence as a string.
    pub fn fg_str(&self) -> (s: &'static str)
        ensures
            s@ == self.fg_code(),
    {
        "\x1B[38;5;10m"
    }

    /// Returns the ANSI escape sequence as a string.
    pub fn bg_str(&self) -> (s: &'static str)
        ensures
            s@ == self.bg_code(),
    {
        "\x1B[48;5;10m"
    }
}

/// High-intensity light yellow.
#[derive(Copy, Clone, Debug)]
pub struct LightYellow;

impl Color for LightYellow {
    open spec fn fg_code(&self) -> Seq<char> {
        "\x1B[38;5;11m"@
    }

    open spec fn bg_code(&self) -> Seq<char> {
        "\x1B[48;5;11m"@
    }

    fn write_fg(&self, f: &mut String) {
        f.append(self.fg_str());
    }

    fn write_bg(&self, f: &mut String) {
        f.append(self.bg_str());
    }
}

impl LightYellow {
    /// Returns the ANSI escape sequence as a string.
    pub fn fg_str(&self) -> (s: &'static str)
        ensures
            s@ == self.fg_code(),
    {
        "\x1B[38;5;11m"
    }

    /// Returns the ANSI escape sequence as a string.
    pub fn bg_str(&self) -> (s: &'static str)
        ensures
            s@ == self.bg_code(),
    {
        "\x1B[48;5;11m"
    }
}

/// High-intensity light blue.
#[derive(Copy, Clone, Debug)]
pub struct LightBlue;

impl Color for LightBlue {
    open spec fn fg_code(&self) -> Seq<char> {
        "\x1B[38;5;12m"@
    }

    open spec fn bg_code(&self) -> Seq<char> {
        "\x1B[48;5;12m"@
    }

    fn write_fg(&self, f: &mut String) {
        f.append(self.fg_str());
    }

    fn write_bg(&self, f: &mut String) {
        f.append(self.bg_str());
    }
}

impl LightBlue {
    /// Returns the ANSI escape sequence as a string.
    pub fn fg_str(&self) -> (s: &'static str)
        ensures
            s@ == self.fg_code(),
    {
        "\x1B[38;5;12m"
    }

    /// Returns the ANSI escape sequence as a string.
    pub fn bg_str(&self) -> (s: &'static str)
        ensures
            s@ == self.bg_code(),
    {
        "\x1B[48;5;12m"
    }
}

/// High-intensity light magenta.
#[derive(Copy, Clone, Debug)]
pub struct LightMagenta;

impl Color for LightMagenta {
    open spec fn fg_code(&self) -> Seq<char> {
        "\x1B[38;5;13m"@
    }

    open spec fn bg_code(&self) -> Seq<char> {
        "\x1B[48;5;13m"@
    }

    fn write_fg(&self, f: &mut String) {
        f.append(self.fg_str());
    }

    fn write_bg(&self, f: &mut String) {
        f.append(self.bg_str());
    }
}

impl LightMagenta {
    /// Returns the ANSI escape sequence as a string.
    pub fn fg_str(&self) -> (s: &'static str)
        ensures
            s@ == self.fg_code(),
    {
        "\x1B[38;5;13m"
    }

    /// Returns the ANSI escape sequence as a string.
    pub fn bg_str(&self) -> (s: &'static str)
        ensures
            s@ == self.bg_code(),
    {
        "\x1B[48;5;13m"
    }
}

/// High-intensity light cyan.
#[derive(Copy, Clone, Debug)]
pub struct LightCyan;

impl Color for LightCyan {
    open spec fn fg_code(&self) -> Seq<char> {
        "\x1B[38;5;14m"@
    }

    open spec fn bg_code(&self) -> Seq<char> {
        "\x1B[48;5;14m"@
    }

    fn write_fg(&self, f: &mut String) {
        f.append(self.fg_str());
    }

    fn write_bg(&self, f: &mut String) {
        f.append(self.bg_str());
    }
}

impl LightCyan {
    /// Returns the ANSI escape sequence as a string.
    pub fn fg_str(&self) -> (s: &'static str)
        ensures
            s@ == self.fg_code(),
    {
        "\x1B[38;5;14m"
    }

    /// Returns the ANSI escape sequence as a string.
    pub fn bg_str(&self) -> (s: &'static str)
        ensures
            s@ == self.bg_code(),
    {
        "\x1B[48;5;14m"
    }
}

/// High-intensity light white.
#[derive(Copy, Clone, Debug)]
pub struct LightWhite;

impl Color for LightWhite {
    open spec fn fg_code(&self) -> Seq<char> {
        "\x1B[38;5;15m"@
    }

    open spec fn bg_code(&self) -> Seq<char> {
        "\x1B[48;5;15m"@
    }

    fn write_fg(&self, f: &mut String) {
        f.append(self.fg_str());
    }

    fn write_bg(&self, f: &mut String) {
        f.append(self.bg_str());
    }
}

impl LightWhite {
    /// Returns the ANSI escape sequence as a string.
    pub fn fg_str(&self) -> (s: &'static str)
        ensures
            s@ == self.fg_code(),
    {
        "\x1B[38;5;15m"
    }

    /// Returns the ANSI escape sequence as a string.
    pub fn bg_str(&self) -> (s: &'static str)
        ensures
            s@ == self.bg_code(),
    {
        "\x1B[48;5;15m"
    }
}

/// An arbitrary ANSI color value.
#[derive(Clone, Copy, Debug)]
pub struct AnsiValue(pub u8);

impl AnsiValue {
    /// Returns the ANSI sequence as a string.
    pub fn fg_string(self) -> (s: String)
        ensures
            s@ == self.fg_code(),
    {
        let mut s = String::from_str("\x1B[38;5;");
        s.append(u8_decimal(self.0).as_str());
        s.append("m");
        s
    }

    /// Returns the ANSI sequence as a string.
    pub fn bg_string(self) -> (s: String)
        ensures
            s@ == self.bg_code(),
    {
        let mut s = String::from_str("\x1B[48;5;");
        s.append(u8_decimal(self.0).as_str());
        s.append("m");
        s
    }
}

impl Color for AnsiValue {
    open spec fn fg_code(&self) -> Seq<char> {
        "\x1B[38;5;"@ + decimal_digits(self.0 as nat) + "m"@
    }

    open spec fn bg_code(&self) -> Seq<char> {
        "\x1B[48;5;"@ + decimal_digits(self.0 as nat) + "m"@
    }

    fn write_fg(&self, f: &mut String) {
        f.append(self.fg_string().as_str());
    }

    fn write_bg(&self, f: &mut String) {
        f.append(self.bg_string().as_str());
    }
}

/// A truecolor RGB.
#[derive(Debug, Clone, Copy, PartialEq, Eq, Structural)]
pub struct Rgb(pub u8, pub u8, pub u8);

impl Rgb {
    /// Returns the ANSI sequence as a string.
    pub fn fg_string(self) -> (s: String)
        ensures
            s@ == self.fg_code(),
    {
        let mut s = String::from_str("\x1B[38;2;");
        s.append(u8_decimal(self.0).as_str());
        s.append(";");
        s.append(u8_decimal(self.1).as_str());
        s.append(";");
        s.append(u8_decimal(self.2).as_str());
        s.append("m");
        s
    }

    /// Returns the ANSI sequence as a string.
    pub fn bg_string(self) -> (s: String)
        ensures
            s@ == self.bg_code(),
    {
        let mut s = String::from_str("\x1B[48;2;");
        s.append(u8_decimal(self.0).as_str());
        s.append(";");
        s.append(u8_decimal(self.1).as_str());
        s.append(";");
        s.append(u8_decimal(self.2).as_str());
        s.append("m");
        s
    }
}

impl Color for Rgb {
    open spec fn fg_code(&self) -> Seq<char> {
        "\x1B[38;2;"@ + decimal_digits(self.0 as nat) + ";"@ + decimal_digits(self.1 as nat) + ";"@
            + decimal_digits(self.2 as nat) + "m"@
    }

    open spec fn bg_code(&self) -> Seq<char> {
        "\x1B[48;2;"@ + decimal_digits(self.0 as nat) + ";"@ + decimal_digits(self.1 as nat) + ";"@
            + decimal_digits(self.2 as nat) + "m"@
    }

    fn write_fg(&self, f: &mut String) {
        f.append(self.fg_string().as_str());
    }

    fn write_bg(&self, f: &mut String) {
        f.append(self.bg_string().as_str());
    }
}

/// Reset colors to defaults.
#[derive(Debug, Clone, Copy)]
pub struct Reset;

impl Color for Reset {
    open spec fn fg_code(&self) -> Seq<char> {
        "\x1B[39m"@
    }

    open spec fn bg_code(&self) -> Seq<char> {
        "\x1B[49m"@
    }

    fn write_fg(&self, f: &mut String) {
        f.append("\x1B[39m");
    }

    fn write_bg(&self, f: &mut String) {
        f.append("\x1B[49m");
    }
}

/// A foreground color.
#[derive(Debug, Clone, Copy)]
pub struct Fg<C: Color>(pub C);

impl<C: Color> Fg<C> {
    /// Writes the escape sequence that makes the color the foreground.
    pub fn fmt(&self, f: &mut String)
        ensures
            final(f)@ == old(f)@ + self.0.fg_code(),
    {
        self.0.write_fg(f)
    }
}

/// A background color.
#[derive(Debug, Clone, Copy)]
pub struct Bg<C: Color>(pub C);

impl<C: Color> Bg<C> {
    /// Writes the escape sequence that makes the color the background.
    pub fn fmt(&self, f: &mut String)
        ensures
            final(f)@ == old(f)@ + self.0.bg_code(),
    {
        self.0.write_bg(f)
    }
}

} // verus!
