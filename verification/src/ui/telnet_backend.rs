//! The terminal of a client: its size, and the escape sequences that put
//! styled cells on it.

use crate::ui::termion::clear;
use crate::ui::termion::color;
use crate::ui::termion::color::Color as TerminalColor;
use crate::ui::termion::cursor;
use crate::ui::termion::cursor::Goto;
use crate::ui::termion::style;
use vstd::prelude::*;
use vstd::string::*;

verus! {

/// The size of a client's window, in character cells. There is one record
/// of it per client, which is lent to whoever needs to read it.
#[derive(Debug, PartialEq, Eq, Structural)]
pub struct WindowSize {
    width: u16,
    height: u16,
}

impl WindowSize {
    /// Width and height, in this order.
    pub closed spec fn size(&self) -> (u16, u16) {
        (self.width, self.height)
    }

    /// A window of which nothing is known yet: zero by zero.
    pub fn new() -> (r: Self)
        ensures
            r.size() == (0u16, 0u16),
    {
        Self { width: 0, height: 0 }
    }

    /// Records the size that the peer reported.
    pub fn set(&mut self, width: u16, height: u16)
        ensures
            final(self).size() == (width, height),
    {
        self.width = width;
        self.height = height;
    }

    /// Width and height, in this order.
    pub fn get(&self) -> (r: (u16, u16))
        ensures
            r == self.size(),
    {
        (self.width, self.height)
    }
}

/// A rectangle of character cells.
#[derive(Clone, Copy, Debug, PartialEq, Eq, Structural)]
pub struct Rect {
    pub x: u16,
    pub y: u16,
    pub width: u16,
    pub height: u16,
}

/// The color of a cell.
#[derive(Clone, Copy, Debug, PartialEq, Eq, Structural)]
pub enum Color {
    Reset,
    Black,
    Red,
    Green,
    Yellow,
    Blue,
    Magenta,
    Cyan,
    Gray,
    DarkGray,
    LightRed,
    LightGreen,
    LightYellow,
    LightBlue,
    LightMagenta,
    LightCyan,
    White,
    Rgb(u8, u8, u8),
    Indexed(u8),
}

pub const BOLD: u16 = 0x001;

pub const DIM: u16 = 0x002;

pub const ITALIC: u16 = 0x004;

pub const UNDERLINED: u16 = 0x008;

pub const SLOW_BLINK: u16 = 0x010;

pub const RAPID_BLINK: u16 = 0x020;

pub const REVERSED: u16 = 0x040;

pub const HIDDEN: u16 = 0x080;

pub const CROSSED_OUT: u16 = 0x100;

/// The ways in which the text of a cell is set off, one bit each.
#[derive(Clone, Copy, Debug, PartialEq, Eq, Structural)]
pub struct Modifier(pub u16);

impl Modifier {
    /// No modifier at all.
    pub fn empty() -> (r: Self)
        ensures
            r == Modifier(0),
    {
        Modifier(0)
    }

    /// Whether every bit of `flag` is set.
    pub open spec fn has(self, flag: u16) -> bool {
        self.0 & flag == flag
    }

    /// Whether every bit of `flag` is set.
    pub fn contains(self, flag: u16) -> (r: bool)
        ensures
            r == self.has(flag),
    {
        self.0 & flag == flag
    }

    /// The bits that are set here and not in `other`.
    pub open spec fn without(self, other: Modifier) -> Modifier {
        Modifier(self.0 & !other.0)
    }

    /// The bits that are set here and not in `other`.
    pub fn difference(self, other: Modifier) -> (r: Modifier)
        ensures
            r == self.without(other),
    {
        Modifier(self.0 & !other.0)
    }
}

/// One cell of the screen.
pub struct Cell {
    pub symbol: String,
    pub fg: Color,
    pub bg: Color,
    pub modifier: Modifier,
}

/// The escape sequence that makes `c` the foreground color.
pub open spec fn fg_code(c: Color) -> Seq<char> {
    match c {
        Color::Reset => color::Reset.fg_code(),
        Color::Black => color::Black.fg_code(),
        Color::Red => color::Red.fg_code(),
        Color::Green => color::Green.fg_code(),
        Color::Yellow => color::Yellow.fg_code(),
        Color::Blue => color::Blue.fg_code(),
        Color::Magenta => color::Magenta.fg_code(),
        Color::Cyan => color::Cyan.fg_code(),
        Color::Gray => color::White.fg_code(),
        Color::DarkGray => color::LightBlack.fg_code(),
        Color::LightRed => color::LightRed.fg_code(),
        Color::LightGreen => color::LightGreen.fg_code(),
        Color::LightYellow => color::LightYellow.fg_code(),
        Color::LightBlue => color::LightBlue.fg_code(),
        Color::LightMagenta => color::LightMagenta.fg_code(),
        Color::LightCyan => color::LightCyan.fg_code(),
        Color::White => color::LightWhite.fg_code(),
        Color::Indexed(i) => color::AnsiValue(i).fg_code(),
        Color::Rgb(r, g, b) => color::Rgb(r, g, b).fg_code(),
    }
}

/// The escape sequence that makes `c` the background color.
pub open spec fn bg_code(c: Color) -> Seq<char> {
    match c {
        Color::Reset => color::Reset.bg_code(),
        Color::Black => color::Black.bg_code(),
        Color::Red => color::Red.bg_code(),
        Color::Green => color::Green.bg_code(),
        Color::Yellow => color::Yellow.bg_code(),
        Color::Blue => color::Blue.bg_code(),
        Color::Magenta => color::Magenta.bg_code(),
        Color::Cyan => color::Cyan.bg_code(),
        Color::Gray => color::White.bg_code(),
        Color::DarkGray => color::LightBlack.bg_code(),
        Color::LightRed => color::LightRed.bg_code(),
        Color::LightGreen => color::LightGreen.bg_code(),
        Color::LightYellow => color::LightYellow.bg_code(),
        Color::LightBlue => color::LightBlue.bg_code(),
        Color::LightMagenta => color::LightMagenta.bg_code(),
        Color::LightCyan => color::LightCyan.bg_code(),
        Color::White => color::LightWhite.bg_code(),
        Color::Indexed(i) => color::AnsiValue(i).bg_code(),
        Color::Rgb(r, g, b) => color::Rgb(r, g, b).bg_code(),
    }
}

/// A foreground color of a cell.
pub struct Fg(pub Color);

impl Fg {
    /// Writes the escape sequence that selects the color.
    pub fn fmt(&self, f: &mut String)
        ensures
            final(f)@ == old(f)@ + fg_code(self.0),
    {
        match self.0 {
            Color::Reset => color::Reset.write_fg(f),
            Color::Black => color::Black.write_fg(f),
            Color::Red => color::Red.write_fg(f),
            Color::Green => color::Green.write_fg(f),
            Color::Yellow => color::Yellow.write_fg(f),
            Color::Blue => color::Blue.write_fg(f),
            Color::Magenta => color::Magenta.write_fg(f),
            Color::Cyan => color::Cyan.write_fg(f),
            Color::Gray => color::White.write_fg(f),
            Color::DarkGray => color::LightBlack.write_fg(f),
            Color::LightRed => color::LightRed.write_fg(f),
            Color::LightGreen => color::LightGreen.write_fg(f),
            Color::LightYellow => color::LightYellow.write_fg(f),
            Color::LightBlue => color::LightBlue.write_fg(f),
            Color::LightMagenta => color::LightMagenta.write_fg(f),
            Color::LightCyan => color::LightCyan.write_fg(f),
            Color::White => color::LightWhite.write_fg(f),
            Color::Indexed(i) => color::AnsiValue(i).write_fg(f),
            Color::Rgb(r, g, b) => color::Rgb(r, g, b).write_fg(f),
        }
    }
}

/// A background color of a cell.
pub struct Bg(pub Color);

impl Bg {
    /// Writes the escape sequence that selects the color.
    pub fn fmt(&self, f: &mut String)
        ensures
            final(f)@ == old(f)@ + bg_code(self.0),
    {
        match self.0 {
            Color::Reset => color::Reset.write_bg(f),
            Color::Black => color::Black.write_bg(f),
            Color::Red => color::Red.write_bg(f),
            Color::Green => color::Green.write_bg(f),
            Color::Yellow => color::Yellow.write_bg(f),
            Color::Blue => color::Blue.write_bg(f),
            Color::Magenta => color::Magenta.write_bg(f),
            Color::Cyan => color::Cyan.write_bg(f),
            Color::Gray => color::White.write_bg(f),
            Color::DarkGray => color::LightBlack.write_bg(f),
            Color::LightRed => color::LightRed.write_bg(f),
            Color::LightGreen => color::LightGreen.write_bg(f),
            Color::LightYellow => color::LightYellow.write_bg(f),
            Color::LightBlue => color::LightBlue.write_bg(f),
            Color::LightMagenta => color::LightMagenta.write_bg(f),
            Color::LightCyan => color::LightCyan.write_bg(f),
            Color::White => color::LightWhite.write_bg(f),
            Color::Indexed(i) => color::AnsiValue(i).write_bg(f),
            Color::Rgb(r, g, b) => color::Rgb(r, g, b).write_bg(f),
        }
    }
}

/// What is written after `code` was added to `written`, if `on`.
pub open spec fn put(written: Seq<char>, on: bool, code: Seq<char>) -> Seq<char> {
    if on {
        written + code
    } else {
        written
    }
}

/// Adds `code` to `f`, if `on`.
fn put_code(f: &mut String, on: bool, code: &str)
    ensures
        final(f)@ == put(old(f)@, on, code@),
{
    if on {
        f.append(code);
    }
}

/// What is written after the modifiers of `from` that `to` lacks were
/// switched off. Switching off bold or dim switches off both, so the one
/// that `to` has is switched on again.
pub open spec fn switched_off(written: Seq<char>, from: Modifier, to: Modifier) -> Seq<char> {
    let remove = from.without(to);
    let a = put(written, remove.has(REVERSED), "\x1B[27m"@);
    let b = put(a, remove.has(BOLD), "\x1B[22m"@);
    let c = put(b, remove.has(BOLD) && to.has(DIM), "\x1B[2m"@);
    let d = put(c, remove.has(ITALIC), "\x1B[23m"@);
    let e = put(d, remove.has(UNDERLINED), "\x1B[24m"@);
    let f = put(e, remove.has(DIM), "\x1B[22m"@);
    let g = put(f, remove.has(DIM) && to.has(BOLD), "\x1B[1m"@);
    let h = put(g, remove.has(CROSSED_OUT), "\x1B[29m"@);
    put(h, remove.has(SLOW_BLINK) || remove.has(RAPID_BLINK), "\x1B[25m"@)
}

/// What is written after the modifiers of `to` that `from` lacks were
/// switched on.
pub open spec fn switched_on(written: Seq<char>, from: Modifier, to: Modifier) -> Seq<char> {
    let add = to.without(from);
    let a = put(written, add.has(REVERSED), "\x1B[7m"@);
    let b = put(a, add.has(BOLD), "\x1B[1m"@);
    let c = put(b, add.has(ITALIC), "\x1B[3m"@);
    let d = put(c, add.has(UNDERLINED), "\x1B[4m"@);
    let e = put(d, add.has(DIM), "\x1B[2m"@);
    let f = put(e, add.has(CROSSED_OUT), "\x1B[9m"@);
    put(f, add.has(SLOW_BLINK) || add.has(RAPID_BLINK), "\x1B[5m"@)
}

/// What is written after the terminal was taken from the modifiers `from` to
/// the modifiers `to`: first what is no longer wanted is switched off, then
/// what is new is switched on.
pub open spec fn modifiers_changed(written: Seq<char>, from: Modifier, to: Modifier) -> Seq<char> {
    switched_on(switched_off(written, from, to), from, to)
}

/// A change of modifiers.
pub struct ModifierDiff {
    pub from: Modifier,
    pub to: Modifier,
}

impl ModifierDiff {
    /// Writes the escape sequences that make the change.
    pub fn fmt(&self, f: &mut String)
        ensures
            final(f)@ == modifiers_changed(old(f)@, self.from, self.to),
    {
        self.switch_off(f);
        self.switch_on(f);
    }

    fn switch_off(&self, f: &mut String)
        ensures
            final(f)@ == switched_off(old(f)@, self.from, self.to),
    {
        let remove = self.from.difference(self.to);
        put_code(f, remove.contains(REVERSED), style::NoInvert.as_ref());
        put_code(f, remove.contains(BOLD), style::NoFaint.as_ref());
        put_code(f, remove.contains(BOLD) && self.to.contains(DIM), style::Faint.as_ref());
        put_code(f, remove.contains(ITALIC), style::NoItalic.as_ref());
        put_code(f, remove.contains(UNDERLINED), style::NoUnderline.as_ref());
        put_code(f, remove.contains(DIM), style::NoFaint.as_ref());
        put_code(f, remove.contains(DIM) && self.to.contains(BOLD), style::Bold.as_ref());
        put_code(f, remove.contains(CROSSED_OUT), style::NoCrossedOut.as_ref());
        put_code(
            f,
            remove.contains(SLOW_BLINK) || remove.contains(RAPID_BLINK),
            style::NoBlink.as_ref(),
        );
    }

    fn switch_on(&self, f: &mut String)
        ensures
            final(f)@ == switched_on(old(f)@, self.from, self.to),
    {
        let add = self.to.difference(self.from);
        put_code(f, add.contains(REVERSED), style::Invert.as_ref());
        put_code(f, add.contains(BOLD), style::Bold.as_ref());
        put_code(f, add.contains(ITALIC), style::Italic.as_ref());
        put_code(f, add.contains(UNDERLINED), style::Underline.as_ref());
        put_code(f, add.contains(DIM), style::Faint.as_ref());
        put_code(f, add.contains(CROSSED_OUT), style::CrossedOut.as_ref());
        put_code(f, add.contains(SLOW_BLINK) || add.contains(RAPID_BLINK), style::Blink.as_ref());
    }
}

/// A cell and the column and row at which it stands, counted from zero.
pub struct Placed {
    pub x: u16,
    pub y: u16,
    pub cell: Cell,
}

/// What is known while cells are drawn: what was written, the colors and
/// modifiers that the terminal is in, and where the last cell stood.
pub struct Pen {
    pub written: Seq<char>,
    pub fg: Color,
    pub bg: Color,
    pub modifier: Modifier,
    pub last: Option<(u16, u16)>,
}

impl Pen {
    /// The pen before the first cell.
    pub open spec fn start() -> Pen {
        Pen {
            written: Seq::empty(),
            fg: Color::Reset,
            bg: Color::Reset,
            modifier: Modifier(0),
            last: None,
        }
    }

    /// Whether a cell at `x`, `y` stands right of the last one, so that the
    /// cursor is there already.
    pub open spec fn follows(self, x: u16, y: u16) -> bool {
        self.last matches Some(p) && x == p.0 + 1 && y == p.1
    }

    /// The pen after one more cell: the cursor is moved unless it is in
    /// place, modifiers and colors are changed where they differ, and the
    /// cell's symbol is written.
    pub open spec fn draw(self, p: Placed) -> Pen {
        let moved = put(
            self.written,
            !self.follows(p.x, p.y),
            Goto((p.x + 1) as u16, (p.y + 1) as u16).code(),
        );
        let styled = if p.cell.modifier != self.modifier {
            modifiers_changed(moved, self.modifier, p.cell.modifier)
        } else {
            moved
        };
        let inked = put(styled, p.cell.fg != self.fg, fg_code(p.cell.fg));
        let filled = put(inked, p.cell.bg != self.bg, bg_code(p.cell.bg));
        Pen {
            written: filled + p.cell.symbol@,
            fg: p.cell.fg,
            bg: p.cell.bg,
            modifier: p.cell.modifier,
            last: Some((p.x, p.y)),
        }
    }

    /// The pen after `cells`, drawn in their order.
    pub open spec fn draw_all(self, cells: Seq<Placed>) -> Pen
        decreases cells.len(),
    {
        if cells.len() == 0 {
            self
        } else {
            self.draw_all(cells.drop_last()).draw(cells.last())
        }
    }
}

/// What drawing `cells` sends to the terminal: the cells, and then the reset
/// of colors and style.
pub open spec fn drawing(cells: Seq<Placed>) -> Seq<char> {
    Pen::start().draw_all(cells).written + "\x1B[39m"@ + "\x1B[49m"@ + "\x1B[m"@
}

/// A terminal at the other end of a connection. It produces what is to be
/// sent; sending is up to the caller. It draws for the size that it was last
/// given with `resize`.
pub struct TelnetBackend {
    area: Rect,
}

impl TelnetBackend {
    /// The backend for a window, and what is sent first: the cursor goes to
    /// the top left.
    pub fn new(window_size: &WindowSize) -> (r: (Self, String))
        ensures
            r.0.size() == (Rect {
                x: 0,
                y: 0,
                width: window_size.size().0,
                height: window_size.size().1,
            }),
            r.1@ == "\x1B[0;0H"@,
    {
        let (width, height) = window_size.get();
        // Start at top left always
        (Self { area: Rect { x: 0, y: 0, width, height } }, "\x1B[0;0H".to_string())
    }

    /// The window that the backend draws for: a rectangle at the origin.
    pub closed spec fn size(&self) -> Rect {
        self.area
    }

    /// Takes over the size that `window_size` records.
    pub fn resize(&mut self, window_size: &WindowSize)
        ensures
            final(self).size() == (Rect {
                x: 0,
                y: 0,
                width: window_size.size().0,
                height: window_size.size().1,
            }),
    {
        let (width, height) = window_size.get();
        self.area = Rect { x: 0, y: 0, width, height };
    }

    /// What is sent to put `content` on the screen.
    pub fn draw(&self, content: &Vec<Placed>) -> (sent: String)
        requires
            forall|i: int|
                0 <= i < content@.len() ==> (#[trigger] content@[i]).x < u16::MAX && content@[i].y
                    < u16::MAX,
        ensures
            sent@ == drawing(content@),
    {
        let mut string = String::new();
        let mut fg = Color::Reset;
        let mut bg = Color::Reset;
        let mut modifier = Modifier::empty();
        let mut last_pos: Option<(u16, u16)> = None;
        let mut i: usize = 0;
        while i < content.len()
            invariant
                i <= content@.len(),
                forall|i: int|
                    0 <= i < content@.len() ==> (#[trigger] content@[i]).x < u16::MAX
                        && content@[i].y < u16::MAX,
                (Pen { written: string@, fg, bg, modifier, last: last_pos })
                    == Pen::start().draw_all(content@.take(i as int)),
            decreases content@.len() - i,
        {
            let placed = &content[i];
            proof {
                assert(content@.take(i + 1).drop_last() =~= content@.take(i as int));
                assert(content@.take(i + 1).last() == content@[i as int]);
            }
            Self::draw_cell(&mut string, &mut fg, &mut bg, &mut modifier, &mut last_pos, placed);
            i = i + 1;
        }
        assert(content@.take(i as int) =~= content@);
        Fg(Color::Reset).fmt(&mut string);
        Bg(Color::Reset).fmt(&mut string);
        style::Reset.fmt(&mut string);
        string
    }

    /// Draws one cell with the pen that the arguments make up.
    fn draw_cell(
        string: &mut String,
        fg: &mut Color,
        bg: &mut Color,
        modifier: &mut Modifier,
        last_pos: &mut Option<(u16, u16)>,
        placed: &Placed,
    )
        requires
            placed.x < u16::MAX,
            placed.y < u16::MAX,
        ensures
            (Pen {
                written: final(string)@,
                fg: *final(fg),
                bg: *final(bg),
                modifier: *final(modifier),
                last: *final(last_pos),
            }) == (Pen {
                written: old(string)@,
                fg: *old(fg),
                bg: *old(bg),
                modifier: *old(modifier),
                last: *old(last_pos),
            }).draw(*placed),
    {
        // Move the cursor if the previous location was not (x - 1, y)
        let in_place = match *last_pos {
            Some(p) => p.0 < u16::MAX && placed.x == p.0 + 1 && placed.y == p.1,
            None => false,
        };
        if !in_place {
            Goto(placed.x + 1, placed.y + 1).fmt(string);
        }
        *last_pos = Some((placed.x, placed.y));
        if placed.cell.modifier != *modifier {
            ModifierDiff { from: *modifier, to: placed.cell.modifier }.fmt(string);
            *modifier = placed.cell.modifier;
        }
        if placed.cell.fg != *fg {
            Fg(placed.cell.fg).fmt(string);
            *fg = placed.cell.fg;
        }
        if placed.cell.bg != *bg {
            Bg(placed.cell.bg).fmt(string);
            *bg = placed.cell.bg;
        }
        string.append(placed.cell.symbol.as_str());
    }

    /// What is sent to hide the cursor.
    pub fn hide_cursor(&self) -> (sent: String)
        ensures
            sent@ == "\x1B[?25l"@,
    {
        cursor::Hide.as_ref().to_string()
    }

    /// What is sent to show the cursor.
    pub fn show_cursor(&self) -> (sent: String)
        ensures
            sent@ == "\x1B[?25h"@,
    {
        cursor::Show.as_ref().to_string()
    }

    /// Where the cursor is taken to be: at the top left.
    pub fn get_cursor(&self) -> (r: (u16, u16))
        ensures
            r == (0u16, 0u16),
    {
        (0, 0)
    }

    /// What is sent to put the cursor at column `x` and row `y`, counted from
    /// zero.
    pub fn set_cursor(&self, x: u16, y: u16) -> (sent: String)
        requires
            x < u16::MAX,
            y < u16::MAX,
        ensures
            sent@ == Goto((x + 1) as u16, (y + 1) as u16).code(),
    {
        Goto(x + 1, y + 1).into_string()
    }

    /// What is sent to clear the screen: the clearing itself, and the cursor
    /// to the top left.
    pub fn clear(&self) -> (sent: String)
        ensures
            sent@ == "\x1B[2J"@ + Goto(1, 1).code(),
    {
        let mut sent = String::new();
        clear::All.fmt(&mut sent);
        Goto(1, 1).fmt(&mut sent);
        assert(sent@ =~= "\x1B[2J"@ + Goto(1, 1).code());
        sent
    }

    /// The window as a rectangle at the origin.
    pub fn get_size(&self) -> (r: Rect)
        ensures
            r == self.size(),
    {
        self.area
    }
}

} // verus!
