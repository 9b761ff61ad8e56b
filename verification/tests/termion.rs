use telnet_chat::ui::termion::clear;
use telnet_chat::ui::termion::color;
use telnet_chat::ui::termion::color::Color;
use telnet_chat::ui::termion::cursor;
use telnet_chat::ui::termion::style;

fn fg<C: Color>(c: C) -> String {
    let mut out = String::from(">");
    color::Fg(c).fmt(&mut out);
    out
}

fn bg<C: Color>(c: C) -> String {
    let mut out = String::from(">");
    color::Bg(c).fmt(&mut out);
    out
}

#[test]
fn ansi_values_are_written_in_decimal() {
    assert_eq!(color::AnsiValue(0).fg_string(), "\x1b[38;5;0m");
    assert_eq!(color::AnsiValue(7).fg_string(), "\x1b[38;5;7m");
    assert_eq!(color::AnsiValue(42).fg_string(), "\x1b[38;5;42m");
    assert_eq!(color::AnsiValue(100).fg_string(), "\x1b[38;5;100m");
    assert_eq!(color::AnsiValue(255).fg_string(), "\x1b[38;5;255m");
    assert_eq!(color::AnsiValue(0).bg_string(), "\x1b[48;5;0m");
    assert_eq!(color::AnsiValue(199).bg_string(), "\x1b[48;5;199m");
}

#[test]
fn every_ansi_value_is_written_as_its_number() {
    for value in 0..=255u8 {
        assert_eq!(color::AnsiValue(value).fg_string(), format!("\x1b[38;5;{}m", value));
        assert_eq!(color::AnsiValue(value).bg_string(), format!("\x1b[48;5;{}m", value));
    }
}

#[test]
fn rgb_is_written_as_three_numbers() {
    assert_eq!(color::Rgb(0, 0, 0).fg_string(), "\x1b[38;2;0;0;0m");
    assert_eq!(color::Rgb(1, 22, 255).fg_string(), "\x1b[38;2;1;22;255m");
    assert_eq!(color::Rgb(255, 128, 9).bg_string(), "\x1b[48;2;255;128;9m");
}

#[test]
fn named_colors() {
    assert_eq!(color::Black.fg_str(), "\x1b[38;5;0m");
    assert_eq!(color::Red.fg_str(), "\x1b[38;5;1m");
    assert_eq!(color::Green.bg_str(), "\x1b[48;5;2m");
    assert_eq!(color::Yellow.fg_str(), "\x1b[38;5;3m");
    assert_eq!(color::Blue.bg_str(), "\x1b[48;5;4m");
    assert_eq!(color::Magenta.fg_str(), "\x1b[38;5;5m");
    assert_eq!(color::Cyan.bg_str(), "\x1b[48;5;6m");
    assert_eq!(color::White.fg_str(), "\x1b[38;5;7m");
    assert_eq!(color::LightBlack.bg_str(), "\x1b[48;5;8m");
    assert_eq!(color::LightRed.fg_str(), "\x1b[38;5;9m");
    assert_eq!(color::LightGreen.bg_str(), "\x1b[48;5;10m");
    assert_eq!(color::LightYellow.fg_str(), "\x1b[38;5;11m");
    assert_eq!(color::LightBlue.bg_str(), "\x1b[48;5;12m");
    assert_eq!(color::LightMagenta.fg_str(), "\x1b[38;5;13m");
    assert_eq!(color::LightCyan.bg_str(), "\x1b[48;5;14m");
    assert_eq!(color::LightWhite.fg_str(), "\x1b[38;5;15m");
}

#[test]
fn colors_are_written_behind_what_is_there() {
    assert_eq!(fg(color::Red), ">\x1b[38;5;1m");
    assert_eq!(bg(color::LightWhite), ">\x1b[48;5;15m");
    assert_eq!(fg(color::AnsiValue(200)), ">\x1b[38;5;200m");
    assert_eq!(bg(color::Rgb(1, 2, 3)), ">\x1b[48;2;1;2;3m");
    assert_eq!(fg(color::Reset), ">\x1b[39m");
    assert_eq!(bg(color::Reset), ">\x1b[49m");
}

#[test]
fn goto_names_the_row_first() {
    assert_eq!(cursor::Goto(5, 3).into_string(), "\x1b[3;5H");
    assert_eq!(cursor::Goto(1, 1).into_string(), "\x1b[1;1H");
    assert_eq!(cursor::Goto(65535, 10000).into_string(), "\x1b[10000;65535H");
    assert_eq!(cursor::Goto(0, 0).into_string(), "\x1b[0;0H");
    let mut out = String::from("x");
    cursor::Goto(12, 345).fmt(&mut out);
    assert_eq!(out, "x\x1b[345;12H");
}

#[test]
fn goto_goes_to_the_top_left_by_default() {
    assert!(cursor::Goto::default() == cursor::Goto(1, 1));
}

#[test]
fn cursor_moves() {
    assert_eq!(cursor::Left(1).into_string(), "\x1b[1D");
    assert_eq!(cursor::Right(20).into_string(), "\x1b[20C");
    assert_eq!(cursor::Up(300).into_string(), "\x1b[300A");
    assert_eq!(cursor::Down(65535).into_string(), "\x1b[65535B");
    assert_eq!(cursor::Left(0).into_string(), "\x1b[0D");
    assert_eq!(cursor::Up(9999).into_string(), "\x1b[9999A");
    assert_eq!(cursor::Up(10000).into_string(), "\x1b[10000A");
    let mut out = String::new();
    cursor::Left(2).fmt(&mut out);
    cursor::Right(3).fmt(&mut out);
    cursor::Up(4).fmt(&mut out);
    cursor::Down(5).fmt(&mut out);
    assert_eq!(out, "\x1b[2D\x1b[3C\x1b[4A\x1b[5B");
}

#[test]
fn every_number_of_sixteen_bits_is_written_as_it_is() {
    for n in 0..=65535u16 {
        assert_eq!(cursor::Down(n).into_string(), format!("\x1b[{}B", n));
    }
}

#[test]
fn cursor_sequences() {
    assert_eq!(cursor::Hide.as_ref(), "\x1b[?25l");
    assert_eq!(cursor::Show.as_ref(), "\x1b[?25h");
    assert_eq!(cursor::Restore.as_ref(), "\x1b[u");
    assert_eq!(cursor::Save.as_ref(), "\x1b[s");
    assert_eq!(cursor::BlinkingBlock.as_ref(), "\x1b[1 q");
    assert_eq!(cursor::SteadyBlock.as_ref(), "\x1b[2 q");
    assert_eq!(cursor::BlinkingUnderline.as_ref(), "\x1b[3 q");
    assert_eq!(cursor::SteadyUnderline.as_ref(), "\x1b[4 q");
    assert_eq!(cursor::BlinkingBar.as_ref(), "\x1b[5 q");
    assert_eq!(cursor::SteadyBar.as_ref(), "\x1b[6 q");
}

#[test]
fn clear_sequences() {
    assert_eq!(clear::All.as_ref(), "\x1b[2J");
    assert_eq!(clear::AfterCursor.as_ref(), "\x1b[J");
    assert_eq!(clear::BeforeCursor.as_ref(), "\x1b[1J");
    assert_eq!(clear::CurrentLine.as_ref(), "\x1b[2K");
    assert_eq!(clear::UntilNewline.as_ref(), "\x1b[K");
    let mut out = String::from("x");
    clear::All.fmt(&mut out);
    assert_eq!(out, "x\x1b[2J");
}

#[test]
fn style_sequences() {
    assert_eq!(style::Reset.as_ref(), "\x1b[m");
    assert_eq!(style::Bold.as_ref(), "\x1b[1m");
    assert_eq!(style::Faint.as_ref(), "\x1b[2m");
    assert_eq!(style::Italic.as_ref(), "\x1b[3m");
    assert_eq!(style::Underline.as_ref(), "\x1b[4m");
    assert_eq!(style::Blink.as_ref(), "\x1b[5m");
    assert_eq!(style::Invert.as_ref(), "\x1b[7m");
    assert_eq!(style::CrossedOut.as_ref(), "\x1b[9m");
    assert_eq!(style::NoBold.as_ref(), "\x1b[21m");
    assert_eq!(style::NoFaint.as_ref(), "\x1b[22m");
    assert_eq!(style::NoItalic.as_ref(), "\x1b[23m");
    assert_eq!(style::NoUnderline.as_ref(), "\x1b[24m");
    assert_eq!(style::NoBlink.as_ref(), "\x1b[25m");
    assert_eq!(style::NoInvert.as_ref(), "\x1b[27m");
    assert_eq!(style::NoCrossedOut.as_ref(), "\x1b[29m");
    assert_eq!(style::Framed.as_ref(), "\x1b[51m");
}

#[test]
fn the_cursor_is_hidden_while_the_output_is_held() {
    let mut hidden = cursor::HideCursor::from(String::from("a"));
    assert_eq!(hidden.deref(), "a\x1b[?25l");
    hidden.write("bc");
    assert_eq!(hidden.deref(), "a\x1b[?25lbc");
    assert_eq!(hidden.drop(), "a\x1b[?25lbc\x1b[?25h");
}
