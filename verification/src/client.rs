//! The session of one connected client: it tracks the name, the tabs and the
//! window, and decides for each input event what changes and what is to be
//! done about it.

use crate::channel::Message;
use crate::coordinator::Info;
use crate::telnet::TelnetMessage;
use crate::text::after_first_word;
use crate::text::chars_of;
use crate::text::first_word;
use crate::text::lemma_leading_blanks;
use crate::text::lemma_trailing_blanks;
use crate::text::lemma_word_len;
use crate::text::skip_blanks;
use crate::text::skip_blanks_back;
use crate::text::skip_word;
use crate::text::str_eq;
use crate::text::string_of;
use crate::text::trimmed;
use crate::ui::telnet_backend::WindowSize;
use crate::ui::Tab;
use crate::ui::TabContent;
use crate::ui::TabType;
use crate::ui::TabView;
use crate::ui::UiTabs;
use crate::ui::UiTabsView;
use vstd::prelude::*;
use vstd::string::*;

verus! {

/// A message of this length or longer is not sent.
pub const MESSAGE_LIMIT: usize = 300;

/// What is to be done after an input event was handled. Every action but
/// `Nothing` and `Exit` ends with a redraw of the screen.
#[derive(Clone, Debug, PartialEq)]
pub enum ClientAction {
    /// Nothing at all.
    Nothing,
    /// Redraw the screen.
    Redraw,
    /// Tell the coordinator that the client leaves the server, and end the
    /// session.
    Exit,
    /// Render the instructions and show them with `show_help`.
    Help,
    /// Ask the coordinator for the channels, render the list and show it
    /// with `show_channels`.
    ListChannels,
    /// Ask the coordinator for this name, and report the name that the
    /// client has from then on with `name_changed`.
    ChangeName(String),
    /// Join this channel through the coordinator, fetch the channel's recent
    /// messages and show them with `channel_joined`.
    JoinChannel(String),
    /// Tell the coordinator that the client left this channel.
    LeaveChannel(String),
    /// Hand the channel of this name a message: time stamp, author, body.
    Send(String, String, String, String),
}

/// An action, as texts.
pub enum ActionView {
    Nothing,
    Redraw,
    Exit,
    Help,
    ListChannels,
    ChangeName(Seq<char>),
    JoinChannel(Seq<char>),
    LeaveChannel(Seq<char>),
    Send(Seq<char>, Seq<char>, Seq<char>, Seq<char>),
}

impl View for ClientAction {
    type V = ActionView;

    open spec fn view(&self) -> ActionView {
        match self {
            ClientAction::Nothing => ActionView::Nothing,
            ClientAction::Redraw => ActionView::Redraw,
            ClientAction::Exit => ActionView::Exit,
            ClientAction::Help => ActionView::Help,
            ClientAction::ListChannels => ActionView::ListChannels,
            ClientAction::ChangeName(name) => ActionView::ChangeName(name@),
            ClientAction::JoinChannel(channel) => ActionView::JoinChannel(channel@),
            ClientAction::LeaveChannel(channel) => ActionView::LeaveChannel(channel@),
            ClientAction::Send(channel, timestamp, author, body) => ActionView::Send(
                channel@,
                timestamp@,
                author@,
                body@,
            ),
        }
    }
}

/// The session of a client, as texts.
pub struct ClientView {
    pub this: u64,
    pub username: Seq<char>,
    pub tabs: UiTabsView,
    pub window: (u16, u16),
}

/// The time stamp that stands before a message sent at the time of day that
/// `clock` shows.
pub open spec fn stamp(clock: Seq<char>) -> Seq<char> {
    "["@ + clock + "] "@
}

/// Whether `name` is the name of a channel: it begins with `#`.
pub open spec fn is_channel_name(name: Seq<char>) -> bool {
    name.len() > 0 && name[0] == '#'
}

/// Whether the trimmed input `input` is a command: it begins with `/`.
pub open spec fn is_command(input: Seq<char>) -> bool {
    input.len() > 0 && input[0] == '/'
}

/// Whether `name` begins with `#`.
pub fn starts_with_hash(name: &str) -> (r: bool)
    ensures
        r == is_channel_name(name@),
{
    name.unicode_len() > 0 && name.get_char(0) == '#'
}

/// A line of input, taken apart.
pub struct Line {
    /// The line without the blanks at its ends.
    pub body: String,
    /// The first word, if the line is a command.
    pub command: Option<String>,
    /// The second word of a command; empty if it has none, or if the line is
    /// no command.
    pub argument: String,
}

impl Line {
    /// Takes `raw` apart.
    pub fn parse(raw: &str) -> (line: Line)
        ensures
            line.body@ == trimmed(raw@),
            line.command is Some <==> is_command(trimmed(raw@)),
            line.command matches Some(command) ==> command@ == first_word(trimmed(raw@))
                && line.argument@ == first_word(after_first_word(trimmed(raw@))),
            line.command is None ==> line.argument@.len() == 0,
    {
        let chars = chars_of(raw);
        let end = chars.len();
        let from = skip_blanks(&chars, 0, end);
        let to = skip_blanks_back(&chars, from, end);
        let ghost input = trimmed(raw@);
        proof {
            lemma_leading_blanks(raw@);
            assert(chars@.subrange(0, end as int) =~= raw@);
            assert(chars@.subrange(from as int, end as int) =~= raw@.skip(from as int));
            lemma_trailing_blanks(raw@.skip(from as int));
            assert(input =~= chars@.subrange(from as int, to as int));
        }
        let body = string_of(&chars, from, to);
        if from < to && chars[from] == '/' {
            let stop = skip_word(&chars, from, to);
            let next = skip_blanks(&chars, stop, to);
            let last = skip_word(&chars, next, to);
            proof {
                lemma_word_len(input);
                assert(first_word(input) =~= chars@.subrange(from as int, stop as int));
                assert(input.skip(stop - from) =~= chars@.subrange(stop as int, to as int));
                lemma_leading_blanks(input.skip(stop - from));
                assert(after_first_word(input) =~= chars@.subrange(next as int, to as int));
                lemma_word_len(after_first_word(input));
                assert(first_word(after_first_word(input)) =~= chars@.subrange(
                    next as int,
                    last as int,
                ));
            }
            Line {
                body,
                command: Some(string_of(&chars, from, stop)),
                argument: string_of(&chars, next, last),
            }
        } else {
            Line { body, command: None, argument: String::new() }
        }
    }
}

impl ClientView {
    /// The session with `tabs` in place of its tabs.
    pub open spec fn with_tabs(self, tabs: UiTabsView) -> ClientView {
        ClientView { tabs, ..self }
    }

    /// What the event `event` does to the session, and what is to be done
    /// then. `timestamp` is the stamp put on a message that is sent.
    pub open spec fn process(self, event: TelnetMessage, timestamp: Seq<char>) -> (
        ClientView,
        ActionView,
    ) {
        match event {
            TelnetMessage::CtrlC | TelnetMessage::Error => (self, ActionView::Exit),
            TelnetMessage::Tab => (self.with_tabs(self.tabs.next()), ActionView::Redraw),
            TelnetMessage::Backspace => (
                self.with_tabs(self.tabs.with_current(self.tabs.current().erased())),
                ActionView::Redraw,
            ),
            TelnetMessage::Char(ch) => (
                self.with_tabs(self.tabs.with_current(self.tabs.current().typed(ch as char))),
                ActionView::Redraw,
            ),
            TelnetMessage::Enter => self.submit(timestamp),
            TelnetMessage::Naws(width, height) => (
                ClientView { window: (width, height), ..self },
                ActionView::Redraw,
            ),
            _ => (self, ActionView::Nothing),
        }
    }

    /// What submitting the input of the selected tab does. The input is taken
    /// out of the tab and trimmed. If it begins with a slash, its first word
    /// is a command, and the word after that the command's argument. Any
    /// other input is a message for the channel that the tab shows, and is
    /// sent unless it is empty or too long, or the tab shows no channel.
    pub open spec fn submit(self, timestamp: Seq<char>) -> (ClientView, ActionView) {
        let input = trimmed(self.tabs.current().input);
        let tabs = self.tabs.with_current(self.tabs.current().cleared());
        let cleared = self.with_tabs(tabs);
        if is_command(input) {
            cleared.run(first_word(input), first_word(after_first_word(input)))
        } else if 0 < input.len() < MESSAGE_LIMIT && tabs.current().is_channel() {
            (cleared, ActionView::Send(tabs.current().name, timestamp, self.username, input))
        } else {
            (cleared, ActionView::Redraw)
        }
    }

    /// What the command `command` with the argument `argument` does; the
    /// argument is empty where none was given.
    pub open spec fn run(self, command: Seq<char>, argument: Seq<char>) -> (
        ClientView,
        ActionView,
    ) {
        if command == "/help"@ {
            (self, ActionView::Help)
        } else if command == "/nick"@ {
            if argument.len() > 0 {
                (self, ActionView::ChangeName(argument))
            } else {
                (self, ActionView::Redraw)
            }
        } else if command == "/list"@ {
            (self, ActionView::ListChannels)
        } else if command == "/drop"@ {
            let name = self.tabs.current().name;
            if is_channel_name(name) {
                (self.with_tabs(self.tabs.drop()), ActionView::LeaveChannel(name))
            } else {
                (self.with_tabs(self.tabs.drop()), ActionView::Redraw)
            }
        } else if command == "/join"@ {
            if argument.len() == 0 {
                (self, ActionView::Nothing)
            } else if is_channel_name(argument) {
                (self, ActionView::JoinChannel(argument))
            } else {
                (self, ActionView::Redraw)
            }
        } else if command == "/exit"@ {
            (self, ActionView::Exit)
        } else {
            (self, ActionView::Redraw)
        }
    }

    /// The session after a message came in from `channel`.
    pub open spec fn receive_message(self, channel: Seq<char>, message: Message) -> ClientView {
        self.with_tabs(self.tabs.add_message(channel, message))
    }

    /// The session after `tab` was opened or brought up to date.
    pub open spec fn show(self, tab: TabView) -> ClientView {
        self.with_tabs(self.tabs.add_or_switch(tab))
    }
}

/// Wraps `chrono::Local::now` and `chrono::DateTime::format` with the given
/// pattern, and writes what they give into a text. Nothing is said of the
/// text: it depends on the clock and the time zone of the machine.
#[verifier::external_body]
fn clock_text(pattern: &str) -> (text: String)
    requires
        pattern@ == "%H:%M UTC"@,
{
    chrono::Local::now().format(pattern).to_string()
}

/// The client process is started for each new connection to the server. It
/// changes what the client sees in answer to the input events of the
/// connection and to what the coordinator and the channels tell it.
pub struct ClientProcess {
    this: u64,
    username: String,
    tabs: UiTabs,
    window_size: WindowSize,
}

impl View for ClientProcess {
    type V = ClientView;

    closed spec fn view(&self) -> ClientView {
        ClientView {
            this: self.this,
            username: self.username@,
            tabs: self.tabs@,
            window: self.window_size.size(),
        }
    }
}

impl ClientProcess {
    /// One of the tabs is selected.
    pub open spec fn wf(&self) -> bool {
        self@.tabs.wf()
    }

    /// The session of the client `this` that has just joined the server: it
    /// goes by the name that the coordinator gave it, and has the welcome
    /// text in its one tab.
    pub fn init(this: u64, info: Info, welcome: String) -> (client: Self)
        ensures
            client.wf(),
            client@ == (ClientView {
                this,
                username: info.username@,
                tabs: UiTabsView {
                    tabs: seq![
                        TabView {
                            name: "Welcome"@,
                            content: TabContent::Info(welcome@),
                            input: Seq::empty(),
                        },
                    ],
                    selected: 0,
                },
                window: (0u16, 0u16),
            }),
    {
        let tab = Tab::new("Welcome".to_string(), TabType::Info(welcome));
        let tabs = UiTabs::new(tab);
        ClientProcess { this, username: info.username, tabs, window_size: WindowSize::new() }
    }

    /// The client's identity.
    pub fn this(&self) -> (r: u64)
        ensures
            r == self@.this,
    {
        self.this
    }

    /// The name that the client goes by.
    pub fn username(&self) -> (r: &String)
        ensures
            r@ == self@.username,
    {
        &self.username
    }

    /// The client's tabs.
    pub fn tabs(&self) -> (r: &UiTabs)
        ensures
            r@ == self@.tabs,
    {
        &self.tabs
    }

    /// The size of the client's window.
    pub fn window_size(&self) -> (r: &WindowSize)
        ensures
            r.size() == self@.window,
    {
        &self.window_size
    }

    /// Handles an input event of the connection, with the time of day taken
    /// from the clock where a message is sent.
    pub fn process(&mut self, command: TelnetMessage) -> (action: ClientAction)
        requires
            old(self).wf(),
        ensures
            final(self).wf(),
            exists|clock: Seq<char>|
                (final(self)@, action@) == #[trigger] old(self)@.process(command, stamp(clock)),
    {
        let mut timestamp = String::from_str("[");
        match command {
            TelnetMessage::Enter => {
                let clock = clock_text("%H:%M UTC");
                timestamp.append(clock.as_str());
                timestamp.append("] ");
                assert(timestamp@ == stamp(clock@));
            },
            _ => {
                timestamp.append("] ");
                assert(timestamp@ == stamp(Seq::<char>::empty()));
            },
        }
        self.process_at(command, timestamp)
    }

    /// Handles an input event of the connection. `timestamp` is put on the
    /// message, if one is sent.
    pub fn process_at(&mut self, command: TelnetMessage, timestamp: String) -> (action:
        ClientAction)
        requires
            old(self).wf(),
        ensures
            final(self).wf(),
            (final(self)@, action@) == old(self)@.process(command, timestamp@),
    {
        match command {
            TelnetMessage::CtrlC | TelnetMessage::Error => ClientAction::Exit,
            TelnetMessage::Tab => {
                self.tabs.next();
                ClientAction::Redraw
            },
            TelnetMessage::Backspace => {
                self.tabs.input_del_char();
                ClientAction::Redraw
            },
            TelnetMessage::Char(ch) => {
                self.tabs.input_add_char(ch as char);
                ClientAction::Redraw
            },
            TelnetMessage::Enter => self.submit(timestamp),
            TelnetMessage::Naws(width, height) => {
                self.window_size.set(width, height);
                ClientAction::Redraw
            },
            _ => ClientAction::Nothing,
        }
    }

    /// Takes the input out of the selected tab and does what it asks for.
    fn submit(&mut self, timestamp: String) -> (action: ClientAction)
        requires
            old(self).wf(),
        ensures
            final(self).wf(),
            (final(self)@, action@) == old(self)@.submit(timestamp@),
    {
        let raw = self.tabs.clear();
        let line = Line::parse(raw.as_str());
        let Line { body, command, argument } = line;
        match command {
            Some(command) => self.run(command, argument),
            None => {
                // Send to channel
                let length = chars_of(body.as_str()).len();
                if 0 < length && length < MESSAGE_LIMIT {
                    match self.tabs.get_selected().message(timestamp, self.username.clone(), body) {
                        Some(sent) => ClientAction::Send(sent.0, sent.1, sent.2, sent.3),
                        None => ClientAction::Redraw,
                    }
                } else {
                    ClientAction::Redraw
                }
            },
        }
    }

    /// Does what the command `command` with the argument `argument` asks for.
    fn run(&mut self, command: String, argument: String) -> (action: ClientAction)
        requires
            old(self).wf(),
        ensures
            final(self).wf(),
            (final(self)@, action@) == old(self)@.run(command@, argument@),
    {
        if str_eq(command.as_str(), "/help") {
            ClientAction::Help
        } else if str_eq(command.as_str(), "/nick") {
            if argument.as_str().unicode_len() > 0 {
                ClientAction::ChangeName(argument)
            } else {
                ClientAction::Redraw
            }
        } else if str_eq(command.as_str(), "/list") {
            ClientAction::ListChannels
        } else if str_eq(command.as_str(), "/drop") {
            let current = self.tabs.get_selected().get_name();
            self.tabs.drop();
            // If the tab is a channel the coordinator has to know that we are leaving.
            if starts_with_hash(current.as_str()) {
                ClientAction::LeaveChannel(current)
            } else {
                ClientAction::Redraw
            }
        } else if str_eq(command.as_str(), "/join") {
            if argument.as_str().unicode_len() == 0 {
                ClientAction::Nothing
            } else if starts_with_hash(argument.as_str()) {
                ClientAction::JoinChannel(argument)
            } else {
                // Incorrect channel name
                ClientAction::Redraw
            }
        } else if str_eq(command.as_str(), "/exit") {
            ClientAction::Exit
        } else {
            ClientAction::Redraw
        }
    }

    /// Handle messages sent by a channel to us: the first tab of the
    /// channel's name shows the message.
    pub fn receive_message(
        &mut self,
        channel: String,
        timestamp: String,
        name: String,
        message: String,
    )
        requires
            old(self).wf(),
        ensures
            final(self).wf(),
            final(self)@ == old(self)@.receive_message(channel@, (timestamp@, name@, message@)),
    {
        self.tabs.add_message(channel, timestamp, name, message);
    }

    /// The coordinator's answer to a request for a new name: the client goes
    /// by `username` from now on.
    pub fn name_changed(&mut self, username: String)
        ensures
            final(self)@ == (ClientView { username: username@, ..old(self)@ }),
    {
        self.username = username;
    }

    /// Shows the instructions in the tab named `Help`, which is opened if it
    /// is not open, and selects it.
    pub fn show_help(&mut self, text: String)
        requires
            old(self).wf(),
        ensures
            final(self).wf(),
            final(self)@ == old(self)@.show(
                TabView { name: "Help"@, content: TabContent::Info(text@), input: Seq::empty() },
            ),
    {
        let tab = Tab::new("Help".to_string(), TabType::Info(text));
        self.tabs.add_or_switch(tab);
    }

    /// Shows the list of channels in the tab named `Channels`, which is
    /// opened if it is not open, and selects it.
    pub fn show_channels(&mut self, text: String)
        requires
            old(self).wf(),
        ensures
            final(self).wf(),
            final(self)@ == old(self)@.show(
                TabView {
                    name: "Channels"@,
                    content: TabContent::Info(text@),
                    input: Seq::empty(),
                },
            ),
    {
        let tab = Tab::new("Channels".to_string(), TabType::Info(text));
        self.tabs.add_or_switch(tab);
    }

    /// The client has joined `channel`, whose recent messages are `history`:
    /// the tab of that name shows them, is opened if it is not open, and is
    /// selected.
    pub fn channel_joined(&mut self, channel: String, history: Vec<(String, String, String)>)
        requires
            old(self).wf(),
        ensures
            final(self).wf(),
            final(self)@ == old(self)@.show(
                TabView {
                    name: channel@,
                    content: TabContent::Channel(crate::channel::message_texts(history@)),
                    input: Seq::empty(),
                },
            ),
    {
        let tab = Tab::new(channel, TabType::Channel(history));
        self.tabs.add_or_switch(tab);
    }
}

} // verus!
