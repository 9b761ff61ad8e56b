//! A server that keeps its books in one place: how many clients there are,
//! which names are in use, and how many clients each channel has. It handles
//! one message at a time.

use crate::names::NameMap;
use crate::text::decimal_digits;
use crate::text::push_decimal;
use vstd::prelude::*;
use vstd::string::*;

verus! {

/// What a client learns when it joins.
#[derive(Clone, Debug, PartialEq)]
pub struct ServerInfo {
    pub username: String,
    pub clients: usize,
}

/// What clients tell the server.
#[derive(Clone, Debug, PartialEq)]
pub enum ServerMessage {
    /// Client wants to receive server information.
    Joined,
    /// Clients notify the server that they left and send all the channels to drop.
    Left(Vec<String>),
    /// Clients notify the server that they want to join a channel.
    Channel(String),
    /// Clients notify the server that they want to drop out of a channel.
    DropChannel(String),
    /// Clients requests a name change: from, to.
    ChangeName(String, String),
}

/// What the server answers.
#[derive(Clone, Debug, PartialEq)]
pub enum ServerReply {
    /// Nothing is answered.
    Silence,
    /// The answer to `Joined`.
    Info(ServerInfo),
    /// The answer to `Channel`: whether the channel is new, so that it has to
    /// be started.
    Channel(bool),
    /// The answer to `ChangeName`. The server confirms with `false`, whether
    /// it changed the name or found it in use; which of the two happened
    /// shows in the names that are in use afterwards.
    NameChange(bool),
}

/// A message, as texts.
pub enum MessageView {
    Joined,
    Left(Seq<Seq<char>>),
    Channel(Seq<char>),
    DropChannel(Seq<char>),
    ChangeName(Seq<char>, Seq<char>),
}

/// A reply, as texts.
pub enum ReplyView {
    Silence,
    Info(Seq<char>, usize),
    Channel(bool),
    NameChange(bool),
}

impl View for ServerMessage {
    type V = MessageView;

    open spec fn view(&self) -> MessageView {
        match self {
            ServerMessage::Joined => MessageView::Joined,
            ServerMessage::Left(channels) => MessageView::Left(crate::names::texts(channels@)),
            ServerMessage::Channel(name) => MessageView::Channel(name@),
            ServerMessage::DropChannel(name) => MessageView::DropChannel(name@),
            ServerMessage::ChangeName(from, to) => MessageView::ChangeName(from@, to@),
        }
    }
}

impl View for ServerReply {
    type V = ReplyView;

    open spec fn view(&self) -> ReplyView {
        match self {
            ServerReply::Silence => ReplyView::Silence,
            ServerReply::Info(info) => ReplyView::Info(info.username@, info.clients),
            ServerReply::Channel(created) => ReplyView::Channel(*created),
            ServerReply::NameChange(changed) => ReplyView::NameChange(*changed),
        }
    }
}

/// The books of the server.
pub struct ServerView {
    /// How many clients are connected.
    pub clients: nat,
    /// How many clients each channel has.
    pub channels: Map<Seq<char>, usize>,
    /// How many names were generated.
    pub generated: nat,
    /// The names in use.
    pub usernames: Set<Seq<char>>,
}

/// The name generated for the `n`-th client.
pub open spec fn generated_username(n: nat) -> Seq<char> {
    "User_"@ + decimal_digits(n)
}

/// The channels after one client less is counted for `name`, if there is
/// such a channel. The channel stays, also with nobody in it.
pub open spec fn one_less(channels: Map<Seq<char>, usize>, name: Seq<char>) -> Map<
    Seq<char>,
    usize,
> {
    if channels.contains_key(name) {
        channels.insert(name, (channels[name] - 1) as usize)
    } else {
        channels
    }
}

/// The channels after one client less is counted for each of `names`, in
/// their order.
pub open spec fn one_less_each(channels: Map<Seq<char>, usize>, names: Seq<Seq<char>>) -> Map<
    Seq<char>,
    usize,
>
    decreases names.len(),
{
    if names.len() == 0 {
        channels
    } else {
        one_less(one_less_each(channels, names.drop_last()), names.last())
    }
}

/// Whether one client less can be counted for each of `names`, in their
/// order: none of the channels is empty when its turn comes.
pub open spec fn can_leave_each(channels: Map<Seq<char>, usize>, names: Seq<Seq<char>>) -> bool
    decreases names.len(),
{
    if names.len() == 0 {
        true
    } else {
        let before = one_less_each(channels, names.drop_last());
        &&& can_leave_each(channels, names.drop_last())
        &&& before.contains_key(names.last()) ==> before[names.last()] >= 1
    }
}

impl ServerView {
    /// Whether `message` can be handled: no count leaves its range.
    pub open spec fn accepts(self, message: MessageView) -> bool {
        match message {
            MessageView::Joined => self.clients < usize::MAX && self.generated < i64::MAX,
            MessageView::Left(names) => self.clients >= 1 && can_leave_each(self.channels, names),
            MessageView::Channel(name) => self.channels.contains_key(name) ==> self.channels[name]
                < usize::MAX,
            MessageView::DropChannel(name) => self.channels.contains_key(name)
                ==> self.channels[name] >= 1,
            MessageView::ChangeName(_, _) => true,
        }
    }

    /// The books after `message` was handled, and the answer to it.
    pub open spec fn handle(self, message: MessageView) -> (ServerView, ReplyView) {
        match message {
            MessageView::Joined => {
                let username = generated_username(self.generated + 1);
                (
                    ServerView {
                        clients: self.clients + 1,
                        generated: self.generated + 1,
                        usernames: self.usernames.insert(username),
                        ..self
                    },
                    ReplyView::Info(username, (self.clients + 1) as usize),
                )
            },
            MessageView::ChangeName(from, to) => {
                if self.usernames.contains(to) {
                    (self, ReplyView::NameChange(false))
                } else {
                    (
                        ServerView { usernames: self.usernames.remove(from).insert(to), ..self },
                        ReplyView::NameChange(false),
                    )
                }
            },
            MessageView::Left(names) => (
                ServerView {
                    clients: (self.clients - 1) as nat,
                    channels: one_less_each(self.channels, names),
                    ..self
                },
                ReplyView::Silence,
            ),
            MessageView::DropChannel(name) => (
                ServerView {
                    channels: if self.channels.contains_key(name) && self.channels[name] == 1 {
                        self.channels.remove(name)
                    } else {
                        one_less(self.channels, name)
                    },
                    ..self
                },
                ReplyView::Silence,
            ),
            MessageView::Channel(name) => (
                ServerView {
                    channels: if self.channels.contains_key(name) {
                        self.channels.insert(name, (self.channels[name] + 1) as usize)
                    } else {
                        self.channels.insert(name, 1)
                    },
                    ..self
                },
                ReplyView::Channel(!self.channels.contains_key(name)),
            ),
        }
    }
}

/// The server's state between two messages.
pub struct ServerState {
    clients: usize,
    channels: NameMap<usize>,
    username_generator: i64,
    all_usernames: NameMap<()>,
}

impl View for ServerState {
    type V = ServerView;

    closed spec fn view(&self) -> ServerView {
        ServerView {
            clients: self.clients as nat,
            channels: self.channels@,
            generated: self.username_generator as nat,
            usernames: self.all_usernames@.dom(),
        }
    }
}

impl ServerState {
    pub closed spec fn wf(&self) -> bool {
        &&& self.channels.wf()
        &&& self.all_usernames.wf()
        &&& self.username_generator >= 0
    }

    /// A server without clients, channels and names.
    pub fn new() -> (state: Self)
        ensures
            state.wf(),
            state@ == (ServerView {
                clients: 0,
                channels: Map::empty(),
                generated: 0,
                usernames: Set::empty(),
            }),
    {
        let state = ServerState {
            clients: 0,
            channels: NameMap::new(),
            username_generator: 0,
            all_usernames: NameMap::new(),
        };
        assert(state@.usernames =~= Set::<Seq<char>>::empty());
        state
    }

    /// How many clients are connected.
    pub fn clients(&self) -> (n: usize)
        ensures
            n == self@.clients,
    {
        self.clients
    }

    /// How many clients `channel` has, if there is such a channel.
    pub fn channel_clients(&self, channel: &str) -> (r: Option<usize>)
        requires
            self.wf(),
        ensures
            match r {
                Some(n) => self@.channels.contains_key(channel@) && n == self@.channels[channel@],
                None => !self@.channels.contains_key(channel@),
            },
    {
        match self.channels.get(channel) {
            Some(n) => Some(*n),
            None => None,
        }
    }

    /// Whether `name` is in use.
    pub fn is_username(&self, name: &str) -> (r: bool)
        requires
            self.wf(),
        ensures
            r == self@.usernames.contains(name@),
    {
        self.all_usernames.contains_key(name)
    }

    /// Whether `message` can be handled.
    pub fn accepts(&self, message: &ServerMessage) -> (r: bool)
        requires
            self.wf(),
        ensures
            r == self@.accepts(message@),
    {
        match message {
            ServerMessage::Joined => self.clients < usize::MAX && self.username_generator
                < i64::MAX,
            ServerMessage::Left(names) => {
                if self.clients == 0 {
                    return false;
                }
                let mut left: NameMap<usize> = NameMap::new();
                let mut i: usize = 0;
                while i < names.len()
                    invariant
                        self.wf(),
                        left.wf(),
                        self.clients >= 1,
                        message@ == MessageView::Left(crate::names::texts(names@)),
                        i <= names@.len(),
                        can_leave_each(self@.channels, crate::names::texts(names@).take(i as int)),
                        forall|k: Seq<char>| #[trigger]
                            left@.contains_key(k) ==> self@.channels.contains_key(k)
                                && left@[k] <= self@.channels[k],
                        forall|k: Seq<char>| #[trigger]
                            self@.channels.contains_key(k) ==> one_less_each(
                                self@.channels,
                                crate::names::texts(names@).take(i as int),
                            ).contains_key(k) && one_less_each(
                                self@.channels,
                                crate::names::texts(names@).take(i as int),
                            )[k] == self@.channels[k] - (if left@.contains_key(k) {
                                left@[k] as int
                            } else {
                                0
                            }),
                    decreases names@.len() - i,
                {
                    let ghost all = crate::names::texts(names@);
                    proof {
                        assert(all.take(i + 1).drop_last() =~= all.take(i as int));
                        assert(all.take(i + 1).last() == names@[i as int]@);
                        lemma_one_less_each_dom(self@.channels, all.take(i as int));
                    }
                    let name = &names[i];
                    match self.channels.get(name.as_str()) {
                        Some(count) => {
                            let gone: usize = match left.get(name.as_str()) {
                                Some(n) => *n,
                                None => 0,
                            };
                            if gone >= *count {
                                proof {
                                    assert(!can_leave_each(self@.channels, all.take(i + 1)));
                                    if can_leave_each(self@.channels, all) {
                                        lemma_can_leave_prefix(self@.channels, all, i + 1);
                                    }
                                }
                                return false;
                            }
                            left.insert(name.clone(), gone + 1);
                        },
                        None => {},
                    }
                    i = i + 1;
                }
                assert(crate::names::texts(names@).take(i as int) =~= crate::names::texts(names@));
                true
            },
            ServerMessage::Channel(name) => match self.channels.get(name.as_str()) {
                Some(count) => *count < usize::MAX,
                None => true,
            },
            ServerMessage::DropChannel(name) => match self.channels.get(name.as_str()) {
                Some(count) => *count >= 1,
                None => true,
            },
            ServerMessage::ChangeName(_, _) => true,
        }
    }
}

/// Counting clients down adds and removes no channel.
pub proof fn lemma_one_less_each_dom(channels: Map<Seq<char>, usize>, names: Seq<Seq<char>>)
    ensures
        one_less_each(channels, names).dom() == channels.dom(),
    decreases names.len(),
{
    if names.len() > 0 {
        lemma_one_less_each_dom(channels, names.drop_last());
        assert(one_less_each(channels, names).dom() =~= channels.dom());
    }
}

/// Handles one message: the server is the main coordinator between all the
/// clients. It keeps track of connected clients and active channels, and is
/// in charge of assigning unique usernames to new clients.
pub fn server_process(state: &mut ServerState, message: ServerMessage) -> (reply: ServerReply)
    requires
        old(state).wf(),
        old(state)@.accepts(message@),
    ensures
        final(state).wf(),
        (final(state)@, reply@) == old(state)@.handle(message@),
{
    match message {
        ServerMessage::Joined => {
            // Increase the number of active users
            state.clients = state.clients + 1;
            // Generate a new username
            state.username_generator = state.username_generator + 1;
            let mut username = String::from_str("User_");
            push_decimal(&mut username, state.username_generator as u64);
            state.all_usernames.insert(username.clone(), ());
            assert(state@.usernames =~= old(state)@.usernames.insert(username@));
            // Client specific state
            ServerReply::Info(ServerInfo { clients: state.clients, username })
        },
        ServerMessage::ChangeName(from, to) => {
            if state.all_usernames.contains_key(to.as_str()) {
                // Notify client that the name is taken
                ServerReply::NameChange(false)
            } else {
                state.all_usernames.remove(from.as_str());
                state.all_usernames.insert(to, ());
                assert(state@.usernames =~= old(state)@.usernames.remove(from@).insert(to@));
                ServerReply::NameChange(false)
            }
        },
        ServerMessage::Left(channels) => {
            state.clients = state.clients - 1;
            let ghost names = crate::names::texts(channels@);
            let mut i: usize = 0;
            while i < channels.len()
                invariant
                    state.wf(),
                    names == crate::names::texts(channels@),
                    i <= channels@.len(),
                    can_leave_each(old(state)@.channels, names),
                    state.clients == old(state).clients - 1,
                    state.username_generator == old(state).username_generator,
                    state.all_usernames == old(state).all_usernames,
                    state@.channels == one_less_each(old(state)@.channels, names.take(i as int)),
                decreases channels@.len() - i,
            {
                proof {
                    assert(names.take(i + 1).drop_last() =~= names.take(i as int));
                    assert(names.take(i + 1).last() == channels@[i as int]@);
                    lemma_can_leave_prefix(old(state)@.channels, names, i + 1);
                }
                let name = &channels[i];
                match state.channels.get(name.as_str()) {
                    Some(count) => {
                        let fewer: usize = *count - 1;
                        state.channels.insert(name.clone(), fewer);
                    },
                    None => {},
                }
                i = i + 1;
            }
            assert(names.take(i as int) =~= names);
            ServerReply::Silence
        },
        ServerMessage::DropChannel(name) => {
            match state.channels.get(name.as_str()) {
                Some(count) => {
                    let fewer: usize = *count - 1;
                    // Remove channel if last client left
                    if fewer == 0 {
                        state.channels.remove(name.as_str());
                    } else {
                        state.channels.insert(name, fewer);
                    }
                },
                None => {},
            }
            ServerReply::Silence
        },
        ServerMessage::Channel(channel_name) => {
            match state.channels.get(channel_name.as_str()) {
                Some(count) => {
                    // Channel already exists
                    let more: usize = *count + 1;
                    state.channels.insert(channel_name, more);
                    ServerReply::Channel(false)
                },
                None => {
                    // A new channel has to be started
                    state.channels.insert(channel_name, 1);
                    ServerReply::Channel(true)
                },
            }
        },
    }
}

/// If every one of `names` can be left in turn, so can the first `n` of them.
pub proof fn lemma_can_leave_prefix(channels: Map<Seq<char>, usize>, names: Seq<Seq<char>>, n: int)
    requires
        can_leave_each(channels, names),
        0 <= n <= names.len(),
    ensures
        can_leave_each(channels, names.take(n)),
    decreases names.len(),
{
    if n == names.len() {
        assert(names.take(n) =~= names);
    } else {
        lemma_can_leave_prefix(channels, names.drop_last(), n);
        assert(names.drop_last().take(n) =~= names.take(n));
    }
}

} // verus!
