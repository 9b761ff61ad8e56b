use telnet_chat::channel::ChannelProcess;
use telnet_chat::client::ClientAction;
use telnet_chat::client::ClientProcess;
use telnet_chat::coordinator::CoordinatorProcess;
use telnet_chat::coordinator::LeaveOutcome;
use telnet_chat::telnet::Telnet;
use telnet_chat::telnet::TelnetMessage;
use telnet_chat::ui::TabType;

fn text(s: &str) -> String {
    s.to_string()
}

/// A server with one channel at most, as the actors around the library run it.
struct Server {
    coordinator: CoordinatorProcess,
    general: Option<ChannelProcess>,
    clients: Vec<ClientProcess>,
}

impl Server {
    fn new() -> Server {
        Server { coordinator: CoordinatorProcess::init(), general: None, clients: Vec::new() }
    }

    fn connect(&mut self, id: u64) -> usize {
        let info = self.coordinator.join_server(id);
        let welcome = format!("{} of {}", info.username, info.total_clients);
        self.clients.push(ClientProcess::init(id, info, welcome));
        self.clients.len() - 1
    }

    /// The client at `at` sends `line` over its connection, followed by enter.
    fn send_line(&mut self, at: usize, line: &str) -> ClientAction {
        let mut bytes = line.as_bytes().to_vec();
        bytes.extend_from_slice(&[13, 0]);
        let mut telnet = Telnet::new();
        assert_eq!(telnet.refill(&bytes), bytes.len());
        let mut last = ClientAction::Nothing;
        while let Ok(event) = telnet.next() {
            last = self.clients[at].process_at(event, text("[09:15 UTC] "));
            self.perform(at, last.clone());
        }
        last
    }

    fn perform(&mut self, at: usize, action: ClientAction) {
        let id = self.clients[at].this();
        match action {
            ClientAction::JoinChannel(name) => {
                assert_eq!(name, "#general");
                if self.coordinator.join_channel(id, name.clone()) {
                    assert!(self.general.is_none());
                    self.general = Some(ChannelProcess::init(name.clone()));
                }
                let channel = self.general.as_mut().unwrap();
                channel.join(id);
                let history = channel.get_last_messages();
                self.clients[at].channel_joined(name, history);
            }
            ClientAction::LeaveChannel(name) => {
                let outcome = self.coordinator.leave_channel(id, name);
                self.left(id, outcome);
            }
            ClientAction::ChangeName(name) => {
                let name = self.coordinator.change_name(id, name);
                self.clients[at].name_changed(name);
            }
            ClientAction::Send(channel, timestamp, author, body) => {
                let sent = self.general.as_mut().unwrap().broadcast_message(channel, timestamp, author, body);
                for recipient in &sent.recipients {
                    for client in self.clients.iter_mut() {
                        if client.this() == *recipient {
                            client.receive_message(
                                sent.channel.clone(),
                                sent.timestamp.clone(),
                                sent.name.clone(),
                                sent.message.clone(),
                            );
                        }
                    }
                }
            }
            ClientAction::ListChannels => {
                let mut list = self.coordinator.list_channels();
                list.sort();
                self.clients[at].show_channels(format!("{:?}", list));
            }
            _ => {}
        }
    }

    fn left(&mut self, id: u64, outcome: LeaveOutcome) {
        match outcome {
            LeaveOutcome::Unknown => {}
            LeaveOutcome::Left => self.general.as_mut().unwrap().leave(id),
            LeaveOutcome::Closed => self.general = None,
        }
    }

    /// The connection of the client `id` failed.
    fn crash(&mut self, id: u64) {
        for (name, outcome) in self.coordinator.leave_server(id) {
            assert_eq!(name, "#general");
            self.left(id, outcome);
        }
        self.clients.retain(|client| client.this() != id);
    }

    fn shown(&self, at: usize) -> TabType {
        self.clients[at].tabs().get_selected().get_type()
    }
}

#[test]
fn the_first_join_makes_the_channel_and_finds_it_empty() {
    let mut server = Server::new();
    let a = server.connect(1);
    assert_eq!(
        server.send_line(a, "/join #general"),
        ClientAction::JoinChannel(text("#general"))
    );
    assert_eq!(server.coordinator.member_count("#general"), Some(1));
    assert_eq!(server.general.as_ref().unwrap().member_count(), 1);
    assert_eq!(server.shown(a), TabType::Channel(Vec::new()));
    assert_eq!(server.clients[a].tabs().get_selected().get_name(), "#general");
}

#[test]
fn the_second_join_counts_two_and_finds_no_history() {
    let mut server = Server::new();
    let a = server.connect(1);
    let b = server.connect(2);
    server.send_line(a, "/join #general");
    server.send_line(b, "/join #general");
    assert_eq!(server.coordinator.member_count("#general"), Some(2));
    assert_eq!(server.general.as_ref().unwrap().member_count(), 2);
    assert!(server.general.as_ref().unwrap().get_last_messages().is_empty());
    assert_eq!(server.shown(b), TabType::Channel(Vec::new()));
}

#[test]
fn a_message_is_stored_and_reaches_both_members() {
    let mut server = Server::new();
    let a = server.connect(1);
    let b = server.connect(2);
    server.send_line(a, "/join #general");
    server.send_line(b, "/join #general");
    server.send_line(a, "/nick A");
    assert_eq!(
        server.send_line(a, "hello"),
        ClientAction::Send(text("#general"), text("[09:15 UTC] "), text("A"), text("hello"))
    );
    let triple = (text("[09:15 UTC] "), text("A"), text("hello"));
    assert_eq!(server.general.as_ref().unwrap().get_last_messages(), vec![triple.clone()]);
    assert_eq!(server.shown(a), TabType::Channel(vec![triple.clone()]));
    assert_eq!(server.shown(b), TabType::Channel(vec![triple]));
}

#[test]
fn the_eleventh_message_trims_the_history_to_six() {
    let mut server = Server::new();
    let a = server.connect(1);
    server.send_line(a, "/join #general");
    for i in 1..=10 {
        server.send_line(a, &format!("message {}", i));
        assert_eq!(server.general.as_ref().unwrap().get_last_messages().len(), i);
    }
    server.send_line(a, "message 11");
    let kept = server.general.as_ref().unwrap().get_last_messages();
    assert_eq!(kept.len(), 6);
    assert_eq!(kept[0].2, "message 6");
    assert_eq!(kept[5].2, "message 11");
    // a newcomer is shown these six
    let b = server.connect(2);
    server.send_line(b, "/join #general");
    assert_eq!(server.shown(b), TabType::Channel(kept));
}

#[test]
fn a_crash_is_cleaned_up_and_the_other_member_stays() {
    let mut server = Server::new();
    let a = server.connect(1);
    let b = server.connect(2);
    server.send_line(a, "/join #general");
    server.send_line(b, "/join #general");
    server.crash(1);
    assert_eq!(server.coordinator.member_count("#general"), Some(1));
    assert_eq!(server.coordinator.total_clients(), 1);
    assert!(!server.general.as_ref().unwrap().is_member(1));
    assert!(server.general.as_ref().unwrap().is_member(2));
    assert_eq!(server.coordinator.list_channels(), vec![(text("#general"), 1)]);
    // client B is now the first of the clients that are left
    assert_eq!(server.send_line(0, "/list"), ClientAction::ListChannels);
    assert_eq!(server.shown(0), TabType::Info(text("[(\"#general\", 1)]")));
}

#[test]
fn the_crash_of_the_last_member_closes_the_channel() {
    let mut server = Server::new();
    let a = server.connect(1);
    server.send_line(a, "/join #general");
    server.crash(1);
    assert!(server.general.is_none());
    assert!(server.coordinator.list_channels().is_empty());
    assert_eq!(server.coordinator.total_clients(), 0);
}

#[test]
fn a_taken_name_is_not_given_to_another_client() {
    let mut server = Server::new();
    let a = server.connect(1);
    let b = server.connect(2);
    assert_eq!(server.send_line(b, "/nick bob"), ClientAction::ChangeName(text("bob")));
    assert_eq!(server.clients[b].username(), "bob");
    assert_eq!(server.send_line(a, "/nick bob"), ClientAction::ChangeName(text("bob")));
    assert_eq!(server.clients[a].username(), "user_1");
    assert_eq!(server.coordinator.username_of(1), Some(text("user_1")));
    assert_eq!(server.coordinator.username_of(2), Some(text("bob")));
}

#[test]
fn dropping_the_tab_of_the_last_member_closes_the_channel() {
    let mut server = Server::new();
    let a = server.connect(1);
    server.send_line(a, "/join #general");
    assert_eq!(server.send_line(a, "/drop"), ClientAction::LeaveChannel(text("#general")));
    assert!(server.general.is_none());
    assert_eq!(server.coordinator.member_count("#general"), None);
    assert_eq!(server.clients[a].tabs().len(), 1);
    // nothing is left to clean up
    server.crash(1);
    assert!(server.coordinator.list_channels().is_empty());
}

#[test]
fn a_window_report_in_the_stream_sets_the_size() {
    let mut server = Server::new();
    let a = server.connect(1);
    let mut telnet = Telnet::new();
    assert_eq!(telnet.refill(&[255, 250, 31, 0, 100, 0, 255, 255, 255, 240]), 10);
    let event = telnet.next().unwrap();
    assert_eq!(event, TelnetMessage::Naws(100, 255));
    assert_eq!(server.clients[a].process_at(event, text("")), ClientAction::Redraw);
    assert_eq!(server.clients[a].window_size().get(), (100, 255));
}
