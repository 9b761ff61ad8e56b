use telnet_chat::ui::telnet_backend::Bg;
use telnet_chat::ui::telnet_backend::Cell;
use telnet_chat::ui::telnet_backend::Color;
use telnet_chat::ui::telnet_backend::Fg;
use telnet_chat::ui::telnet_backend::Modifier;
use telnet_chat::ui::telnet_backend::ModifierDiff;
use telnet_chat::ui::telnet_backend::Placed;
use telnet_chat::ui::telnet_backend::Rect;
use telnet_chat::ui::telnet_backend::TelnetBackend;
use telnet_chat::ui::telnet_backend::WindowSize;
use telnet_chat::ui::telnet_backend::BOLD;
use telnet_chat::ui::telnet_backend::CROSSED_OUT;
use telnet_chat::ui::telnet_backend::DIM;
use telnet_chat::ui::telnet_backend::HIDDEN;
use telnet_chat::ui::telnet_backend::ITALIC;
use telnet_chat::ui::telnet_backend::RAPID_BLINK;
use telnet_chat::ui::telnet_backend::REVERSED;
use telnet_chat::ui::telnet_backend::SLOW_BLINK;
use telnet_chat::ui::telnet_backend::UNDERLINED;

const END: &str = "\x1b[39m\x1b[49m\x1b[m";

fn backend() -> TelnetBackend {
    let mut size = WindowSize::new();
    size.set(80, 24);
    TelnetBackend::new(&size).0
}

fn cell(x: u16, y: u16, symbol: &str) -> Placed {
    Placed {
        x,
        y,
        cell: Cell {
            symbol: symbol.to_string(),
            fg: Color::Reset,
            bg: Color::Reset,
            modifier: Modifier::empty(),
        },
    }
}

fn styled(x: u16, y: u16, symbol: &str, fg: Color, bg: Color, modifier: u16) -> Placed {
    Placed { x, y, cell: Cell { symbol: symbol.to_string(), fg, bg, modifier: Modifier(modifier) } }
}

fn change(from: u16, to: u16) -> String {
    let mut out = String::new();
    ModifierDiff { from: Modifier(from), to: Modifier(to) }.fmt(&mut out);
    out
}

fn fg(color: Color) -> String {
    let mut out = String::new();
    Fg(color).fmt(&mut out);
    out
}

fn bg(color: Color) -> String {
    let mut out = String::new();
    Bg(color).fmt(&mut out);
    out
}

#[test]
fn the_backend_starts_at_the_top_left() {
    let mut size = WindowSize::new();
    size.set(100, 30);
    let (backend, first) = TelnetBackend::new(&size);
    assert_eq!(first, "\x1b[0;0H");
    assert_eq!(backend.get_size(), Rect { x: 0, y: 0, width: 100, height: 30 });
    assert_eq!(backend.get_cursor(), (0, 0));
}

#[test]
fn the_backend_follows_the_window() {
    let mut backend = backend();
    let mut size = WindowSize::new();
    size.set(132, 43);
    backend.resize(&size);
    assert_eq!(backend.get_size(), Rect { x: 0, y: 0, width: 132, height: 43 });
    size.set(90, 30);
    backend.resize(&size);
    assert_eq!(backend.get_size(), Rect { x: 0, y: 0, width: 90, height: 30 });
}

#[test]
fn cursor_commands() {
    let backend = backend();
    assert_eq!(backend.hide_cursor(), "\x1b[?25l");
    assert_eq!(backend.show_cursor(), "\x1b[?25h");
    assert_eq!(backend.set_cursor(0, 0), "\x1b[1;1H");
    assert_eq!(backend.set_cursor(9, 2), "\x1b[3;10H");
    assert_eq!(backend.set_cursor(65534, 65534), "\x1b[65535;65535H");
    assert_eq!(backend.clear(), "\x1b[2J\x1b[1;1H");
}

#[test]
fn drawing_nothing_resets_the_style() {
    assert_eq!(backend().draw(&Vec::new()), END);
}

#[test]
fn cells_side_by_side_need_one_move() {
    let sent = backend().draw(&vec![cell(0, 0, "a"), cell(1, 0, "b"), cell(2, 0, "c")]);
    assert_eq!(sent, format!("\x1b[1;1Habc{}", END));
}

#[test]
fn cells_apart_need_a_move_each() {
    let sent = backend().draw(&vec![cell(0, 0, "a"), cell(2, 0, "b"), cell(3, 1, "c"), cell(0, 1, "d")]);
    assert_eq!(sent, format!("\x1b[1;1Ha\x1b[1;3Hb\x1b[2;4Hc\x1b[2;1Hd{}", END));
}

#[test]
fn a_cell_behind_the_last_column_needs_a_move() {
    let sent = backend().draw(&vec![cell(65534, 0, "a"), cell(0, 0, "b")]);
    assert_eq!(sent, format!("\x1b[1;65535Ha\x1b[1;1Hb{}", END));
}

#[test]
fn colors_and_modifiers_are_changed_where_they_differ() {
    let sent = backend().draw(&vec![
        styled(4, 2, "a", Color::Yellow, Color::Reset, BOLD),
        styled(5, 2, "b", Color::Yellow, Color::Blue, BOLD),
        styled(6, 2, "c", Color::Reset, Color::Blue, 0),
        cell(7, 2, "d"),
    ]);
    assert_eq!(
        sent,
        format!(
            "\x1b[3;5H\x1b[1m\x1b[38;5;3ma\x1b[48;5;4mb\x1b[22m\x1b[39mc\x1b[49md{}",
            END
        )
    );
}

#[test]
fn symbols_may_be_longer_than_a_character() {
    let sent = backend().draw(&vec![cell(0, 0, "\u{4e2d}"), cell(2, 0, ""), cell(3, 0, "ab")]);
    assert_eq!(sent, format!("\x1b[1;1H\u{4e2d}\x1b[1;3H{}ab{}", "", END));
}

#[test]
fn colors_of_cells() {
    assert_eq!(fg(Color::Reset), "\x1b[39m");
    assert_eq!(fg(Color::Black), "\x1b[38;5;0m");
    assert_eq!(fg(Color::Red), "\x1b[38;5;1m");
    assert_eq!(fg(Color::Green), "\x1b[38;5;2m");
    assert_eq!(fg(Color::Yellow), "\x1b[38;5;3m");
    assert_eq!(fg(Color::Blue), "\x1b[38;5;4m");
    assert_eq!(fg(Color::Magenta), "\x1b[38;5;5m");
    assert_eq!(fg(Color::Cyan), "\x1b[38;5;6m");
    assert_eq!(fg(Color::Gray), "\x1b[38;5;7m");
    assert_eq!(fg(Color::DarkGray), "\x1b[38;5;8m");
    assert_eq!(fg(Color::LightRed), "\x1b[38;5;9m");
    assert_eq!(fg(Color::LightGreen), "\x1b[38;5;10m");
    assert_eq!(fg(Color::LightYellow), "\x1b[38;5;11m");
    assert_eq!(fg(Color::LightBlue), "\x1b[38;5;12m");
    assert_eq!(fg(Color::LightMagenta), "\x1b[38;5;13m");
    assert_eq!(fg(Color::LightCyan), "\x1b[38;5;14m");
    assert_eq!(fg(Color::White), "\x1b[38;5;15m");
    assert_eq!(fg(Color::Indexed(77)), "\x1b[38;5;77m");
    assert_eq!(fg(Color::Rgb(1, 2, 3)), "\x1b[38;2;1;2;3m");
    assert_eq!(bg(Color::Reset), "\x1b[49m");
    assert_eq!(bg(Color::Gray), "\x1b[48;5;7m");
    assert_eq!(bg(Color::DarkGray), "\x1b[48;5;8m");
    assert_eq!(bg(Color::White), "\x1b[48;5;15m");
    assert_eq!(bg(Color::Indexed(200)), "\x1b[48;5;200m");
    assert_eq!(bg(Color::Rgb(255, 0, 10)), "\x1b[48;2;255;0;10m");
}

#[test]
fn modifiers_are_switched_on() {
    assert_eq!(change(0, 0), "");
    assert_eq!(change(0, REVERSED), "\x1b[7m");
    assert_eq!(change(0, BOLD), "\x1b[1m");
    assert_eq!(change(0, ITALIC), "\x1b[3m");
    assert_eq!(change(0, UNDERLINED), "\x1b[4m");
    assert_eq!(change(0, DIM), "\x1b[2m");
    assert_eq!(change(0, CROSSED_OUT), "\x1b[9m");
    assert_eq!(change(0, SLOW_BLINK), "\x1b[5m");
    assert_eq!(change(0, RAPID_BLINK), "\x1b[5m");
    assert_eq!(change(0, SLOW_BLINK | RAPID_BLINK), "\x1b[5m");
    assert_eq!(change(0, HIDDEN), "");
    assert_eq!(
        change(0, 0x1ff),
        "\x1b[7m\x1b[1m\x1b[3m\x1b[4m\x1b[2m\x1b[9m\x1b[5m"
    );
}

#[test]
fn modifiers_are_switched_off() {
    assert_eq!(change(REVERSED, 0), "\x1b[27m");
    assert_eq!(change(BOLD, 0), "\x1b[22m");
    assert_eq!(change(ITALIC, 0), "\x1b[23m");
    assert_eq!(change(UNDERLINED, 0), "\x1b[24m");
    assert_eq!(change(DIM, 0), "\x1b[22m");
    assert_eq!(change(CROSSED_OUT, 0), "\x1b[29m");
    assert_eq!(change(SLOW_BLINK, 0), "\x1b[25m");
    assert_eq!(change(RAPID_BLINK, 0), "\x1b[25m");
    assert_eq!(change(HIDDEN, 0), "");
    assert_eq!(
        change(0x1ff, 0),
        "\x1b[27m\x1b[22m\x1b[23m\x1b[24m\x1b[22m\x1b[29m\x1b[25m"
    );
}

#[test]
fn bold_and_dim_are_switched_off_together() {
    // what stays on is switched on again
    assert_eq!(change(BOLD | DIM, DIM), "\x1b[22m\x1b[2m");
    assert_eq!(change(BOLD | DIM, BOLD), "\x1b[22m\x1b[1m");
    assert_eq!(change(BOLD, DIM), "\x1b[22m\x1b[2m\x1b[2m");
    assert_eq!(change(DIM, BOLD), "\x1b[22m\x1b[1m\x1b[1m");
}

#[test]
fn modifiers_that_stay_are_left_alone() {
    assert_eq!(change(BOLD | ITALIC, BOLD | UNDERLINED), "\x1b[23m\x1b[4m");
    assert_eq!(change(0x1ff, 0x1ff), "");
    assert_eq!(change(SLOW_BLINK, RAPID_BLINK), "\x1b[25m\x1b[5m");
}

#[test]
fn modifier_sets() {
    assert!(Modifier(BOLD | ITALIC).contains(BOLD));
    assert!(!Modifier(BOLD | ITALIC).contains(DIM));
    assert!(Modifier(BOLD | ITALIC).contains(BOLD | ITALIC));
    assert!(!Modifier(BOLD).contains(BOLD | ITALIC));
    assert!(Modifier(0).contains(0));
    assert!(Modifier(BOLD | ITALIC).difference(Modifier(ITALIC | DIM)) == Modifier(BOLD));
    assert!(Modifier::empty() == Modifier(0));
}
