use telnet_chat::client::ClientAction;
use telnet_chat::client::ClientProcess;
use telnet_chat::client::Line;
use telnet_chat::coordinator::Info;
use telnet_chat::telnet::TelnetMessage;
use telnet_chat::ui::TabType;

fn text(s: &str) -> String {
    s.to_string()
}

fn client() -> ClientProcess {
    ClientProcess::init(
        7,
        Info { username: text("user_1"), total_clients: 1 },
        text("Welcome, user_1!"),
    )
}

fn typed(client: &mut ClientProcess, line: &str) {
    for byte in line.bytes() {
        assert_eq!(
            client.process_at(TelnetMessage::Char(byte), text("[00:00 UTC] ")),
            ClientAction::Redraw
        );
    }
}

fn entered(client: &mut ClientProcess, line: &str) -> ClientAction {
    typed(client, line);
    client.process_at(TelnetMessage::Enter, text("[12:34 UTC] "))
}

fn in_channel(name: &str) -> ClientProcess {
    let mut client = client();
    assert_eq!(
        entered(&mut client, &format!("/join {}", name)),
        ClientAction::JoinChannel(text(name))
    );
    client.channel_joined(text(name), Vec::new());
    client
}

fn shown(client: &ClientProcess) -> Vec<(String, String, String)> {
    match client.tabs().get_selected().get_type() {
        TabType::Channel(messages) => messages,
        TabType::Info(_) => panic!("the selected tab shows no channel"),
    }
}

#[test]
fn a_new_session_has_the_welcome_tab() {
    let client = client();
    assert_eq!(client.this(), 7);
    assert_eq!(client.username(), "user_1");
    assert_eq!(client.window_size().get(), (0, 0));
    assert_eq!(client.tabs().names(), vec![text("Welcome")]);
    assert_eq!(client.tabs().selected(), 0);
    let tab = client.tabs().get_selected();
    assert_eq!(tab.get_type(), TabType::Info(text("Welcome, user_1!")));
    assert_eq!(tab.get_input(), "");
}

#[test]
fn lines_are_taken_apart() {
    let plain = Line::parse("  hello there  ");
    assert_eq!(plain.body, "hello there");
    assert_eq!(plain.command, None);
    assert_eq!(plain.argument, "");
    let command = Line::parse(" /nick   bob  and more ");
    assert_eq!(command.body, "/nick   bob  and more");
    assert_eq!(command.command, Some(text("/nick")));
    assert_eq!(command.argument, "bob");
    let bare = Line::parse("/join");
    assert_eq!(bare.command, Some(text("/join")));
    assert_eq!(bare.argument, "");
    let tabbed = Line::parse("\t/join\t#a\r\n");
    assert_eq!(tabbed.command, Some(text("/join")));
    assert_eq!(tabbed.argument, "#a");
    let empty = Line::parse(" \t ");
    assert_eq!(empty.body, "");
    assert_eq!(empty.command, None);
}

#[test]
fn interrupt_and_error_end_the_session() {
    let mut client = client();
    assert_eq!(client.process_at(TelnetMessage::CtrlC, text("")), ClientAction::Exit);
    assert_eq!(client.process_at(TelnetMessage::Error, text("")), ClientAction::Exit);
}

#[test]
fn events_without_meaning_do_nothing() {
    let mut client = client();
    typed(&mut client, "abc");
    for event in [
        TelnetMessage::IacWillLinemode,
        TelnetMessage::IacWontLinemode,
        TelnetMessage::IacDoEcho,
        TelnetMessage::IacDontEcho,
        TelnetMessage::IacWillNaws,
        TelnetMessage::IacWontNaws,
        TelnetMessage::IacOther,
        TelnetMessage::Esc,
        TelnetMessage::Up,
        TelnetMessage::Down,
        TelnetMessage::Left,
        TelnetMessage::Right,
        TelnetMessage::Ignore,
    ] {
        assert_eq!(client.process_at(event, text("")), ClientAction::Nothing);
    }
    assert_eq!(client.tabs().get_selected().get_input(), "abc");
    assert_eq!(client.tabs().len(), 1);
}

#[test]
fn characters_are_typed_and_deleted() {
    let mut client = client();
    typed(&mut client, "hey");
    assert_eq!(client.tabs().get_selected().get_input(), "hey");
    assert_eq!(client.process_at(TelnetMessage::Backspace, text("")), ClientAction::Redraw);
    assert_eq!(client.tabs().get_selected().get_input(), "he");
    for _ in 0..5 {
        assert_eq!(client.process_at(TelnetMessage::Backspace, text("")), ClientAction::Redraw);
    }
    assert_eq!(client.tabs().get_selected().get_input(), "");
}

#[test]
fn a_byte_above_127_is_one_character() {
    let mut client = client();
    client.process_at(TelnetMessage::Char(233), text(""));
    assert_eq!(client.tabs().get_selected().get_input(), "\u{e9}");
}

#[test]
fn the_window_size_is_recorded() {
    let mut client = client();
    assert_eq!(client.process_at(TelnetMessage::Naws(120, 40), text("")), ClientAction::Redraw);
    assert_eq!(client.window_size().get(), (120, 40));
}

#[test]
fn help_and_list_ask_for_a_text() {
    let mut client = client();
    assert_eq!(entered(&mut client, "/help"), ClientAction::Help);
    assert_eq!(client.tabs().get_selected().get_input(), "");
    client.show_help(text("type /join #channel"));
    assert_eq!(client.tabs().names(), vec![text("Welcome"), text("Help")]);
    assert_eq!(client.tabs().selected(), 1);
    assert_eq!(entered(&mut client, "/list"), ClientAction::ListChannels);
    client.show_channels(text("#a 1"));
    assert_eq!(client.tabs().names(), vec![text("Welcome"), text("Help"), text("Channels")]);
    assert_eq!(client.tabs().selected(), 2);
    assert_eq!(client.tabs().get_selected().get_type(), TabType::Info(text("#a 1")));
}

#[test]
fn a_text_that_is_shown_again_is_brought_up_to_date() {
    let mut client = client();
    client.show_channels(text("#a 1"));
    client.show_help(text("help"));
    client.show_channels(text("#a 2"));
    assert_eq!(client.tabs().names(), vec![text("Welcome"), text("Channels"), text("Help")]);
    assert_eq!(client.tabs().selected(), 1);
    assert_eq!(client.tabs().get_selected().get_type(), TabType::Info(text("#a 2")));
}

#[test]
fn nick_asks_for_the_name() {
    let mut client = client();
    assert_eq!(entered(&mut client, "/nick bob"), ClientAction::ChangeName(text("bob")));
    assert_eq!(client.username(), "user_1");
    client.name_changed(text("bob"));
    assert_eq!(client.username(), "bob");
    assert_eq!(entered(&mut client, "  /nick   carol  dave "), ClientAction::ChangeName(text("carol")));
}

#[test]
fn nick_without_a_name_does_nothing() {
    let mut client = client();
    assert_eq!(entered(&mut client, "/nick"), ClientAction::Redraw);
    assert_eq!(entered(&mut client, "/nick   "), ClientAction::Redraw);
    assert_eq!(client.username(), "user_1");
}

#[test]
fn join_asks_for_a_channel() {
    let mut client = client();
    assert_eq!(entered(&mut client, "/join #general"), ClientAction::JoinChannel(text("#general")));
    assert_eq!(client.tabs().len(), 1);
    client.channel_joined(
        text("#general"),
        vec![(text("[10:00 UTC] "), text("bob"), text("hi"))],
    );
    assert_eq!(client.tabs().names(), vec![text("Welcome"), text("#general")]);
    assert_eq!(client.tabs().selected(), 1);
    assert_eq!(shown(&client), vec![(text("[10:00 UTC] "), text("bob"), text("hi"))]);
}

#[test]
fn join_refuses_a_name_without_hash() {
    let mut client = client();
    assert_eq!(entered(&mut client, "/join general"), ClientAction::Redraw);
    assert_eq!(client.tabs().len(), 1);
}

#[test]
fn join_without_a_name_does_nothing_at_all() {
    let mut client = client();
    assert_eq!(entered(&mut client, "/join"), ClientAction::Nothing);
    assert_eq!(client.tabs().get_selected().get_input(), "");
}

#[test]
fn exit_ends_the_session() {
    let mut client = client();
    assert_eq!(entered(&mut client, "/exit"), ClientAction::Exit);
}

#[test]
fn unknown_commands_are_ignored() {
    let mut client = client();
    assert_eq!(entered(&mut client, "/dance"), ClientAction::Redraw);
    assert_eq!(entered(&mut client, "/"), ClientAction::Redraw);
    assert_eq!(entered(&mut client, "/helpme"), ClientAction::Redraw);
    assert_eq!(entered(&mut client, "/HELP"), ClientAction::Redraw);
    assert_eq!(client.tabs().len(), 1);
}

#[test]
fn a_message_goes_to_the_channel_of_the_tab() {
    let mut client = in_channel("#general");
    assert_eq!(
        entered(&mut client, "  hello world "),
        ClientAction::Send(text("#general"), text("[12:34 UTC] "), text("user_1"), text("hello world"))
    );
    assert_eq!(client.tabs().get_selected().get_input(), "");
    // it is shown only when the channel sends it back
    assert!(shown(&client).is_empty());
}

#[test]
fn a_message_in_a_tab_without_channel_goes_nowhere() {
    let mut client = client();
    assert_eq!(entered(&mut client, "hello"), ClientAction::Redraw);
    assert_eq!(client.tabs().get_selected().get_input(), "");
}

#[test]
fn an_empty_message_is_not_sent() {
    let mut client = in_channel("#general");
    assert_eq!(entered(&mut client, ""), ClientAction::Redraw);
    assert_eq!(entered(&mut client, "    "), ClientAction::Redraw);
}

#[test]
fn a_message_of_300_characters_is_not_sent() {
    let mut client = in_channel("#general");
    let long = "x".repeat(300);
    assert_eq!(entered(&mut client, &long), ClientAction::Redraw);
    let fits = "x".repeat(299);
    assert_eq!(
        entered(&mut client, &fits),
        ClientAction::Send(text("#general"), text("[12:34 UTC] "), text("user_1"), fits.clone())
    );
    // the blanks at the ends do not count
    let padded = format!("  {}  ", fits);
    assert_eq!(
        entered(&mut client, &padded),
        ClientAction::Send(text("#general"), text("[12:34 UTC] "), text("user_1"), fits)
    );
}

#[test]
fn the_length_of_a_message_is_counted_in_characters() {
    let mut client = in_channel("#general");
    for _ in 0..299 {
        client.process_at(TelnetMessage::Char(233), text(""));
    }
    match client.process_at(TelnetMessage::Enter, text("[12:34 UTC] ")) {
        ClientAction::Send(_, _, _, body) => assert_eq!(body.chars().count(), 299),
        other => panic!("not sent: {:?}", other),
    }
}

#[test]
fn a_message_is_sent_under_the_new_name() {
    let mut client = in_channel("#general");
    client.name_changed(text("bob"));
    assert_eq!(
        entered(&mut client, "hi"),
        ClientAction::Send(text("#general"), text("[12:34 UTC] "), text("bob"), text("hi"))
    );
}

#[test]
fn the_clock_stamps_a_message() {
    let mut client = in_channel("#general");
    typed(&mut client, "hi");
    match client.process(TelnetMessage::Enter) {
        ClientAction::Send(channel, timestamp, author, body) => {
            assert_eq!(channel, "#general");
            assert_eq!(author, "user_1");
            assert_eq!(body, "hi");
            let stamp: Vec<char> = timestamp.chars().collect();
            assert_eq!(stamp.len(), 12);
            assert_eq!(stamp[0], '[');
            assert!(stamp[1].is_ascii_digit() && stamp[2].is_ascii_digit());
            assert_eq!(stamp[3], ':');
            assert!(stamp[4].is_ascii_digit() && stamp[5].is_ascii_digit());
            assert_eq!(&timestamp[6..], " UTC] ");
        }
        other => panic!("not sent: {:?}", other),
    }
}

#[test]
fn process_needs_no_clock_for_other_events() {
    let mut client = client();
    assert_eq!(client.process(TelnetMessage::Char(97)), ClientAction::Redraw);
    assert_eq!(client.process(TelnetMessage::Tab), ClientAction::Redraw);
    assert_eq!(client.process(TelnetMessage::Up), ClientAction::Nothing);
    assert_eq!(client.process(TelnetMessage::CtrlC), ClientAction::Exit);
    assert_eq!(client.tabs().get_selected().get_input(), "a");
}

#[test]
fn drop_leaves_the_channel_and_closes_the_tab() {
    let mut client = in_channel("#general");
    assert_eq!(entered(&mut client, "/drop"), ClientAction::LeaveChannel(text("#general")));
    assert_eq!(client.tabs().names(), vec![text("Welcome")]);
    assert_eq!(client.tabs().selected(), 0);
}

#[test]
fn drop_closes_a_text_without_telling_anybody() {
    let mut client = client();
    client.show_help(text("help"));
    assert_eq!(entered(&mut client, "/drop"), ClientAction::Redraw);
    assert_eq!(client.tabs().names(), vec![text("Welcome")]);
}

#[test]
fn the_first_tab_is_never_dropped() {
    let mut client = in_channel("#general");
    assert_eq!(client.process_at(TelnetMessage::Tab, text("")), ClientAction::Redraw);
    assert_eq!(client.tabs().selected(), 0);
    assert_eq!(entered(&mut client, "/drop"), ClientAction::Redraw);
    assert_eq!(client.tabs().names(), vec![text("Welcome"), text("#general")]);
    assert_eq!(client.tabs().selected(), 0);
}

#[test]
fn tab_goes_round() {
    let mut client = in_channel("#a");
    client.channel_joined(text("#b"), Vec::new());
    assert_eq!(client.tabs().selected(), 2);
    client.process_at(TelnetMessage::Tab, text(""));
    assert_eq!(client.tabs().selected(), 0);
    client.process_at(TelnetMessage::Tab, text(""));
    assert_eq!(client.tabs().selected(), 1);
    client.process_at(TelnetMessage::Tab, text(""));
    assert_eq!(client.tabs().selected(), 2);
}

#[test]
fn each_tab_has_its_own_input() {
    let mut client = in_channel("#a");
    typed(&mut client, "half a mess");
    client.process_at(TelnetMessage::Tab, text(""));
    assert_eq!(client.tabs().get_selected().get_input(), "");
    typed(&mut client, "/help");
    client.process_at(TelnetMessage::Tab, text(""));
    assert_eq!(client.tabs().get_selected().get_input(), "half a mess");
}

#[test]
fn a_message_that_comes_in_is_shown_in_its_tab() {
    let mut client = in_channel("#a");
    client.channel_joined(text("#b"), Vec::new());
    client.receive_message(text("#a"), text("[10:00 UTC] "), text("bob"), text("hi"));
    assert!(shown(&client).is_empty());
    client.process_at(TelnetMessage::Tab, text(""));
    client.process_at(TelnetMessage::Tab, text(""));
    assert_eq!(client.tabs().selected(), 1);
    assert_eq!(shown(&client), vec![(text("[10:00 UTC] "), text("bob"), text("hi"))]);
}

#[test]
fn a_message_for_a_channel_without_tab_is_dropped() {
    let mut client = in_channel("#a");
    client.receive_message(text("#zzz"), text("[10:00 UTC] "), text("bob"), text("hi"));
    client.receive_message(text("Welcome"), text("[10:00 UTC] "), text("bob"), text("hi"));
    assert!(shown(&client).is_empty());
    assert_eq!(client.tabs().names(), vec![text("Welcome"), text("#a")]);
}

#[test]
fn a_tab_keeps_a_hundred_messages_and_then_drops_fifty() {
    let mut client = in_channel("#a");
    for i in 0..100 {
        client.receive_message(text("#a"), text("[10:00 UTC] "), text("bob"), format!("m{}", i));
        assert_eq!(shown(&client).len(), i + 1);
    }
    client.receive_message(text("#a"), text("[10:00 UTC] "), text("bob"), text("m100"));
    let kept = shown(&client);
    assert_eq!(kept.len(), 51);
    assert_eq!(kept[0].2, "m50");
    assert_eq!(kept[50].2, "m100");
}

#[test]
fn joining_again_shows_the_channel_as_it_is_now() {
    let mut client = in_channel("#a");
    client.receive_message(text("#a"), text("[10:00 UTC] "), text("bob"), text("old"));
    client.show_help(text("help"));
    client.channel_joined(text("#a"), vec![(text("[10:05 UTC] "), text("bob"), text("new"))]);
    assert_eq!(client.tabs().names(), vec![text("Welcome"), text("#a"), text("Help")]);
    assert_eq!(client.tabs().selected(), 1);
    assert_eq!(shown(&client), vec![(text("[10:05 UTC] "), text("bob"), text("new"))]);
}
