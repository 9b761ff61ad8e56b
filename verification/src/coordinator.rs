//! The coordinator: the one place that knows every connected client and every
//! active channel. It names newcomers, keeps names apart, and counts the
//! members of each channel, which lives exactly as long as its count is not
//! zero.

use crate::names::NameMap;
use crate::text::decimal_digits;
use crate::text::lemma_decimal_digits_apart;
use crate::text::push_decimal;
use std::collections::HashMap;
use vstd::prelude::*;
use vstd::std_specs::hash::*;
use vstd::std_specs::iter::IteratorSpec;
use vstd::string::*;

verus! {

/// What a client learns when it joins the server.
#[derive(Clone, PartialEq, Debug)]
pub struct Info {
    pub username: String,
    pub total_clients: usize,
}

/// Supervises the one coordinator of a server.
pub struct CoordinatorSup;

impl CoordinatorSup {
    /// What the coordinator is started with: no argument of its own, and the
    /// name under which every client finds it.
    pub fn init(name: String) -> (r: ((), Option<String>))
        ensures
            r.1 == Some(name),
    {
        ((), Some(name))
    }
}

/// What became of a channel when somebody left it.
#[derive(Clone, Copy, Debug, PartialEq, Eq, Structural)]
pub enum LeaveOutcome {
    /// No channel has that name: nothing was done.
    Unknown,
    /// The channel has one member less and lives on.
    Left,
    /// The last member left: the channel is gone from the directory and has to
    /// be shut down.
    Closed,
}

/// A session as the coordinator sees it.
pub struct SessionView {
    pub username: Seq<char>,
    pub channels: Set<Seq<char>>,
}

/// The coordinator's knowledge: the counter behind the names it hands out,
/// the sessions by client, and the member count of each channel.
pub struct CoordinatorView {
    pub next_id: nat,
    pub sessions: Map<u64, SessionView>,
    pub channels: Map<Seq<char>, usize>,
}

/// The generated name with the number `n`.
pub open spec fn generated_name(n: nat) -> Seq<char> {
    "user_"@ + decimal_digits(n)
}

/// Whether one of `sessions` goes by `name`.
pub open spec fn name_held(sessions: Map<u64, SessionView>, name: Seq<char>) -> bool {
    exists|id: u64| #[trigger] sessions.contains_key(id) && sessions[id].username == name
}

/// Generated names with different numbers differ.
pub proof fn lemma_generated_names_apart(a: nat, b: nat)
    requires
        generated_name(a) == generated_name(b),
    ensures
        a == b,
{
    let prefix = "user_"@;
    assert(generated_name(a).skip(prefix.len() as int) =~= decimal_digits(a));
    assert(generated_name(b).skip(prefix.len() as int) =~= decimal_digits(b));
    lemma_decimal_digits_apart(a, b);
}

/// Among more generated names in a row than there are sessions, one is held
/// by no session.
pub proof fn lemma_free_name_within(sessions: Map<u64, SessionView>, lo: nat, count: nat)
    requires
        sessions.dom().finite(),
        count > sessions.dom().len(),
    ensures
        exists|j: nat| lo < j <= lo + count && !name_held(sessions, #[trigger] generated_name(j)),
    decreases sessions.dom().len(),
{
    let first = generated_name(lo + 1);
    if name_held(sessions, first) {
        let holder = choose|id: u64| #[trigger]
            sessions.contains_key(id) && sessions[id].username == first;
        let others = sessions.remove(holder);
        assert(others.dom() =~= sessions.dom().remove(holder));
        lemma_free_name_within(others, lo + 1, (count - 1) as nat);
        let j = choose|j: nat|
            lo + 1 < j <= lo + 1 + (count - 1) && !name_held(others, #[trigger] generated_name(j));
        if name_held(sessions, generated_name(j)) {
            let id = choose|id: u64| #[trigger]
                sessions.contains_key(id) && sessions[id].username == generated_name(j);
            if id == holder {
                lemma_generated_names_apart(j, lo + 1);
            } else {
                assert(others.contains_key(id) && others[id].username == generated_name(j));
            }
        }
        assert(lo < j <= lo + count && !name_held(sessions, generated_name(j)));
    } else {
        assert(lo < lo + 1 <= lo + count && !name_held(sessions, generated_name(lo + 1)));
    }
}

/// The directory after one more join to `name`.
pub open spec fn directory_joined(channels: Map<Seq<char>, usize>, name: Seq<char>) -> Map<
    Seq<char>,
    usize,
> {
    if channels.contains_key(name) {
        channels.insert(name, (channels[name] + 1) as usize)
    } else {
        channels.insert(name, 1)
    }
}

/// What a leave from `name` does to the channel.
pub open spec fn leave_outcome(channels: Map<Seq<char>, usize>, name: Seq<char>) -> LeaveOutcome {
    if !channels.contains_key(name) {
        LeaveOutcome::Unknown
    } else if channels[name] <= 1 {
        LeaveOutcome::Closed
    } else {
        LeaveOutcome::Left
    }
}

/// The directory after one leave from `name`.
pub open spec fn directory_left(channels: Map<Seq<char>, usize>, name: Seq<char>) -> Map<
    Seq<char>,
    usize,
> {
    match leave_outcome(channels, name) {
        LeaveOutcome::Unknown => channels,
        LeaveOutcome::Closed => channels.remove(name),
        LeaveOutcome::Left => channels.insert(name, (channels[name] - 1) as usize),
    }
}

/// The directory after one leave from each of `names`.
pub open spec fn directory_left_all(channels: Map<Seq<char>, usize>, names: Set<Seq<char>>) -> Map<
    Seq<char>,
    usize,
> {
    Map::new(
        |n: Seq<char>| channels.contains_key(n) && !(names.contains(n) && channels[n] <= 1),
        |n: Seq<char>|
            if names.contains(n) {
                (channels[n] - 1) as usize
            } else {
                channels[n]
            },
    )
}

/// The directory after `times` joins to `name`.
pub open spec fn directory_joined_times(
    channels: Map<Seq<char>, usize>,
    name: Seq<char>,
    times: nat,
) -> Map<Seq<char>, usize>
    decreases times,
{
    if times == 0 {
        channels
    } else {
        directory_joined(directory_joined_times(channels, name, (times - 1) as nat), name)
    }
}

/// The directory after `times` leaves from `name`.
pub open spec fn directory_left_times(
    channels: Map<Seq<char>, usize>,
    name: Seq<char>,
    times: nat,
) -> Map<Seq<char>, usize>
    decreases times,
{
    if times == 0 {
        channels
    } else {
        directory_left(directory_left_times(channels, name, (times - 1) as nat), name)
    }
}

/// A leave undoes a join: the directory is as it was before the two.
pub proof fn lemma_leave_undoes_join(channels: Map<Seq<char>, usize>, name: Seq<char>)
    requires
        channels.contains_key(name) ==> 1 <= channels[name] < usize::MAX,
    ensures
        directory_left(directory_joined(channels, name), name) == channels,
{
    assert(directory_left(directory_joined(channels, name), name) =~= channels);
}

/// Every join counts, whoever makes it: after `times` joins a channel has
/// `times` members more than before, or `times` members if it is new.
pub proof fn lemma_each_join_counts(channels: Map<Seq<char>, usize>, name: Seq<char>, times: nat)
    requires
        times >= 1,
        (if channels.contains_key(name) {
            channels[name] as nat
        } else {
            0nat
        }) + times <= usize::MAX,
    ensures
        directory_joined_times(channels, name, times).contains_key(name),
        directory_joined_times(channels, name, times)[name] == (if channels.contains_key(name) {
            channels[name] as nat
        } else {
            0nat
        }) + times,
        directory_joined_times(channels, name, times).remove(name) == channels.remove(name),
    decreases times,
{
    let before = directory_joined_times(channels, name, (times - 1) as nat);
    if times > 1 {
        lemma_each_join_counts(channels, name, (times - 1) as nat);
    } else {
        assert(before == channels);
    }
    assert(directory_joined_times(channels, name, times) == directory_joined(before, name));
    assert(directory_joined(before, name).remove(name) =~= before.remove(name));
}

/// A channel that counts `count` members is still in the directory after
/// fewer leaves than that, and is gone after exactly `count` of them.
pub proof fn lemma_closed_at_zero(channels: Map<Seq<char>, usize>, name: Seq<char>, times: nat)
    requires
        channels.contains_key(name),
        1 <= channels[name],
        times <= channels[name],
    ensures
        times < channels[name] ==> directory_left_times(channels, name, times).contains_key(name)
            && directory_left_times(channels, name, times)[name] == channels[name] - times,
        times == channels[name] ==> directory_left_times(channels, name, times) == channels.remove(
            name,
        ),
        directory_left_times(channels, name, times).remove(name) == channels.remove(name),
    decreases times,
{
    if times > 0 {
        let before = directory_left_times(channels, name, (times - 1) as nat);
        lemma_closed_at_zero(channels, name, (times - 1) as nat);
        assert(directory_left_times(channels, name, times) == directory_left(before, name));
        assert(directory_left(before, name).remove(name) =~= before.remove(name));
        if times == channels[name] {
            assert(directory_left(before, name) =~= channels.remove(name));
        }
    } else {
        assert(directory_left_times(channels, name, times) == channels);
    }
}

/// A new channel that was joined `times` times, by whomever, is gone again
/// after as many leaves, and not before.
pub proof fn lemma_joins_then_leaves(channels: Map<Seq<char>, usize>, name: Seq<char>, times: nat)
    requires
        !channels.contains_key(name),
        1 <= times <= usize::MAX,
    ensures
        directory_left_times(directory_joined_times(channels, name, times), name, times)
            == channels,
        forall|fewer: nat|
            fewer < times ==> (#[trigger] directory_left_times(
                directory_joined_times(channels, name, times),
                name,
                fewer,
            )).contains_key(name),
{
    let full = directory_joined_times(channels, name, times);
    lemma_each_join_counts(channels, name, times);
    lemma_closed_at_zero(full, name, times);
    assert(channels.remove(name) =~= channels);
    assert forall|fewer: nat| fewer < times implies (#[trigger] directory_left_times(
        full,
        name,
        fewer,
    )).contains_key(name) by {
        lemma_closed_at_zero(full, name, fewer);
    }
}

impl CoordinatorView {
    /// There are finitely many sessions and channels, every session has
    /// joined finitely many channels, no two sessions go by the same name,
    /// and no channel of the directory is empty.
    pub open spec fn wf(self) -> bool {
        &&& self.sessions.dom().finite()
        &&& self.channels.dom().finite()
        &&& forall|id: u64|
            self.sessions.contains_key(id) ==> (#[trigger] self.sessions[id]).channels.finite()
        &&& self.names_apart()
        &&& forall|n: Seq<char>| self.channels.contains_key(n) ==> #[trigger] self.channels[n] >= 1
    }

    /// Whether no two sessions go by the same name.
    pub open spec fn names_apart(self) -> bool {
        forall|a: u64, b: u64|
            self.sessions.contains_key(a) && self.sessions.contains_key(b) && a != b ==> (
            #[trigger] self.sessions[a]).username != (#[trigger] self.sessions[b]).username
    }

    /// Whether some session goes by `name`.
    pub open spec fn name_taken(self, name: Seq<char>) -> bool {
        name_held(self.sessions, name)
    }

    /// Whether `k` is the number of the name that the next newcomer gets: the
    /// least number above the counter whose generated name no session holds.
    pub open spec fn is_next_free(self, k: nat) -> bool {
        &&& k > self.next_id
        &&& !self.name_taken(generated_name(k))
        &&& forall|j: nat| self.next_id < j < k ==> self.name_taken(#[trigger] generated_name(j))
    }

    /// The number of the name that the next newcomer gets.
    pub open spec fn next_free(self) -> nat {
        choose|k: nat| self.is_next_free(k)
    }

    /// The coordinator after `client` joined the server: it has a session of
    /// its own under the next generated name that nobody holds, and the
    /// counter stands at that name's number.
    pub open spec fn join_server(self, client: u64) -> CoordinatorView {
        CoordinatorView {
            next_id: self.next_free(),
            sessions: self.sessions.insert(
                client,
                SessionView {
                    username: generated_name(self.next_free()),
                    channels: Set::empty(),
                },
            ),
            channels: self.channels,
        }
    }

    pub open spec fn change_name(self, client: u64, name: Seq<char>) -> CoordinatorView {
        if self.name_taken(name) {
            self
        } else {
            CoordinatorView {
                sessions: self.sessions.insert(
                    client,
                    SessionView { username: name, channels: self.sessions[client].channels },
                ),
                ..self
            }
        }
    }

    pub open spec fn join_channel(self, client: u64, name: Seq<char>) -> CoordinatorView {
        CoordinatorView {
            sessions: if self.sessions.contains_key(client) {
                self.sessions.insert(
                    client,
                    SessionView {
                        username: self.sessions[client].username,
                        channels: self.sessions[client].channels.insert(name),
                    },
                )
            } else {
                self.sessions
            },
            channels: directory_joined(self.channels, name),
            ..self
        }
    }

    /// The coordinator after `client` left the channel `name`. Nothing
    /// changes if the directory has no such channel.
    pub open spec fn leave_channel(self, client: u64, name: Seq<char>) -> CoordinatorView {
        if !self.channels.contains_key(name) {
            self
        } else {
            CoordinatorView {
                sessions: if self.sessions.contains_key(client) {
                    self.sessions.insert(
                        client,
                        SessionView {
                            username: self.sessions[client].username,
                            channels: self.sessions[client].channels.remove(name),
                        },
                    )
                } else {
                    self.sessions
                },
                channels: directory_left(self.channels, name),
                ..self
            }
        }
    }

    pub open spec fn leave_server(self, client: u64) -> CoordinatorView {
        if self.sessions.contains_key(client) {
            CoordinatorView {
                sessions: self.sessions.remove(client),
                channels: directory_left_all(self.channels, self.sessions[client].channels),
                ..self
            }
        } else {
            self
        }
    }
}

/// A request for a name that is taken changes nothing, however often it is
/// made: the coordinator is as it was, and with it the name that the client
/// goes by.
pub proof fn lemma_refused_rename_changes_nothing(
    coordinator: CoordinatorView,
    client: u64,
    name: Seq<char>,
)
    requires
        coordinator.name_taken(name),
    ensures
        coordinator.change_name(client, name) == coordinator,
        coordinator.change_name(client, name).change_name(client, name) == coordinator,
{
}

/// A name that was given to a client is taken from then on: a second request
/// for it, by whomever, is refused.
pub proof fn lemma_granted_name_is_taken(
    coordinator: CoordinatorView,
    client: u64,
    other: u64,
    name: Seq<char>,
)
    requires
        !coordinator.name_taken(name),
    ensures
        coordinator.change_name(client, name).name_taken(name),
        coordinator.change_name(client, name).change_name(other, name) == coordinator.change_name(
            client,
            name,
        ),
{
    let after = coordinator.change_name(client, name);
    assert(after.sessions.contains_key(client) && after.sessions[client].username == name);
}

/// A search upwards from `start`, below which every name above the counter is
/// held, comes to the next free number no later than at `free`, whose name
/// nobody holds.
proof fn lemma_next_free_found(coordinator: CoordinatorView, start: nat, free: nat)
    requires
        coordinator.next_id < start <= free,
        forall|j: nat|
            coordinator.next_id < j < start ==> coordinator.name_taken(
                #[trigger] generated_name(j),
            ),
        !coordinator.name_taken(generated_name(free)),
    ensures
        exists|k: nat| k <= free && coordinator.is_next_free(k),
    decreases free - start,
{
    if coordinator.name_taken(generated_name(start)) {
        lemma_next_free_found(coordinator, start + 1, free);
    } else {
        assert(coordinator.is_next_free(start));
    }
}

/// The number of the next name is but one: the least above the counter
/// whose name nobody holds.
pub proof fn lemma_next_free_is(coordinator: CoordinatorView, k: nat)
    requires
        coordinator.is_next_free(k),
    ensures
        coordinator.next_free() == k,
{
    let other = coordinator.next_free();
    assert(coordinator.is_next_free(other));
    if other < k {
        assert(coordinator.name_taken(generated_name(other)));
    }
    if k < other {
        assert(coordinator.name_taken(generated_name(k)));
    }
}

/// There is always a next name, and its number is no further above the
/// counter than there are sessions, and one.
pub proof fn lemma_next_free(coordinator: CoordinatorView)
    requires
        coordinator.sessions.dom().finite(),
    ensures
        coordinator.is_next_free(coordinator.next_free()),
        coordinator.next_id < coordinator.next_free() <= coordinator.next_id
            + coordinator.sessions.dom().len() + 1,
{
    let count = coordinator.sessions.dom().len() + 1;
    lemma_free_name_within(coordinator.sessions, coordinator.next_id, count);
    let free = choose|j: nat|
        coordinator.next_id < j <= coordinator.next_id + count && !name_held(
            coordinator.sessions,
            #[trigger] generated_name(j),
        );
    lemma_next_free_found(coordinator, coordinator.next_id + 1, free);
    let k = choose|k: nat| k <= free && coordinator.is_next_free(k);
    lemma_next_free_is(coordinator, k);
}

/// A change of name never makes two sessions go by the same name.
pub proof fn lemma_rename_keeps_names_apart(coordinator: CoordinatorView, client: u64, name: Seq<char>)
    requires
        coordinator.names_apart(),
        coordinator.sessions.contains_key(client),
    ensures
        coordinator.change_name(client, name).names_apart(),
{
    let after = coordinator.change_name(client, name);
    if !coordinator.name_taken(name) {
        assert forall|a: u64, b: u64|
            after.sessions.contains_key(a) && after.sessions.contains_key(b) && a != b implies (
            #[trigger] after.sessions[a]).username != (#[trigger] after.sessions[b]).username by {
            if a != client {
                assert(coordinator.sessions.contains_key(a));
            }
            if b != client {
                assert(coordinator.sessions.contains_key(b));
            }
        }
    }
}

/// A newcomer gets a name that nobody holds: no two sessions go by the same
/// name after it joined, if none did before.
pub proof fn lemma_join_keeps_names_apart(coordinator: CoordinatorView, client: u64)
    requires
        coordinator.sessions.dom().finite(),
        coordinator.names_apart(),
    ensures
        !coordinator.name_taken(generated_name(coordinator.next_free())),
        coordinator.join_server(client).names_apart(),
{
    lemma_next_free(coordinator);
    let after = coordinator.join_server(client);
    assert forall|a: u64, b: u64|
        after.sessions.contains_key(a) && after.sessions.contains_key(b) && a != b implies (
        #[trigger] after.sessions[a]).username != (#[trigger] after.sessions[b]).username by {
        if a != client {
            assert(coordinator.sessions.contains_key(a));
        }
        if b != client {
            assert(coordinator.sessions.contains_key(b));
        }
    }
}

/// Leaving and joining channels, and leaving the server, change no name.
pub proof fn lemma_channels_keep_names_apart(
    coordinator: CoordinatorView,
    client: u64,
    channel: Seq<char>,
)
    requires
        coordinator.names_apart(),
    ensures
        coordinator.join_channel(client, channel).names_apart(),
        coordinator.leave_channel(client, channel).names_apart(),
        coordinator.leave_server(client).names_apart(),
{
    let joined = coordinator.join_channel(client, channel);
    assert forall|a: u64, b: u64|
        joined.sessions.contains_key(a) && joined.sessions.contains_key(b) && a != b implies (
        #[trigger] joined.sessions[a]).username != (#[trigger] joined.sessions[b]).username by {
        assert(coordinator.sessions.contains_key(a) && coordinator.sessions.contains_key(b));
        assert(joined.sessions[a].username == coordinator.sessions[a].username);
        assert(joined.sessions[b].username == coordinator.sessions[b].username);
    }
    let left = coordinator.leave_channel(client, channel);
    assert forall|a: u64, b: u64|
        left.sessions.contains_key(a) && left.sessions.contains_key(b) && a != b implies (
        #[trigger] left.sessions[a]).username != (#[trigger] left.sessions[b]).username by {
        assert(coordinator.sessions.contains_key(a) && coordinator.sessions.contains_key(b));
        assert(left.sessions[a].username == coordinator.sessions[a].username);
        assert(left.sessions[b].username == coordinator.sessions[b].username);
    }
    let gone = coordinator.leave_server(client);
    assert forall|a: u64, b: u64|
        gone.sessions.contains_key(a) && gone.sessions.contains_key(b) && a != b implies (
        #[trigger] gone.sessions[a]).username != (#[trigger] gone.sessions[b]).username by {
        assert(coordinator.sessions.contains_key(a) && coordinator.sessions.contains_key(b));
    }
}

/// A client that joined the server.
struct Client {
    username: String,
    // All channels that the client joined
    channels: NameMap<()>,
}

/// The coordinator is in charge of keeping track of all connected clients and
/// active channels.
pub struct CoordinatorProcess {
    next_id: u64,
    clients: HashMap<u64, Client>,
    channels: NameMap<usize>,
}

impl View for CoordinatorProcess {
    type V = CoordinatorView;

    closed spec fn view(&self) -> CoordinatorView {
        CoordinatorView {
            next_id: self.next_id as nat,
            sessions: Map::new(
                |id: u64| self.clients@.contains_key(id),
                |id: u64|
                    SessionView {
                        username: self.clients@[id].username@,
                        channels: self.clients@[id].channels@.dom(),
                    },
            ),
            channels: self.channels@,
        }
    }
}

impl CoordinatorProcess {
    pub closed spec fn wf(&self) -> bool {
        &&& self.channels.wf()
        &&& forall|id: u64| self.clients@.contains_key(id) ==> (#[trigger] self.clients@[id]).channels.wf()
        &&& self@.wf()
    }

    /// A well-formed coordinator has a well-formed view.
    pub proof fn lemma_wf(&self)
        requires
            self.wf(),
        ensures
            self@.wf(),
    {
    }

    /// A coordinator that knows nobody and no channel.
    pub fn init() -> (c: Self)
        ensures
            c.wf(),
            c@.next_id == 0,
            c@.sessions == Map::<u64, SessionView>::empty(),
            c@.channels == Map::<Seq<char>, usize>::empty(),
    {
        broadcast use group_hash_axioms;

        let c = CoordinatorProcess { next_id: 0, clients: HashMap::new(), channels: NameMap::new() };
        assert(c@.sessions =~= Map::<u64, SessionView>::empty());
        assert(c@.sessions.dom() =~= Set::<u64>::empty());
        c
    }

    /// Connect to the server: the client gets the next generated name that
    /// nobody goes by, and an empty set of channels, and learns how many
    /// clients there are now. The counter behind the names moves on to the
    /// number of that name. A client that joins again starts afresh.
    pub fn join_server(&mut self, client: u64) -> (info: Info)
        requires
            old(self).wf(),
            old(self)@.next_id + old(self)@.sessions.dom().len() < u64::MAX,
        ensures
            final(self).wf(),
            final(self)@ == old(self)@.join_server(client),
            old(self)@.is_next_free(final(self)@.next_id),
            final(self)@.next_id <= old(self)@.next_id + old(self)@.sessions.dom().len() + 1,
            info.username@ == generated_name(final(self)@.next_id),
            !old(self)@.name_taken(info.username@),
            info.total_clients == final(self)@.sessions.dom().len(),
    {
        broadcast use group_hash_axioms;

        proof {
            lemma_next_free(self@);
        }
        let ghost goal = self@.next_free();
        let mut number: u64 = self.next_id + 1;
        let mut username = Self::name_of(number);
        while self.is_taken(&username)
            invariant
                self.wf(),
                self@ == old(self)@,
                self.next_id == old(self).next_id,
                self.clients == old(self).clients,
                self.channels == old(self).channels,
                goal == self@.next_free(),
                self@.is_next_free(goal),
                goal <= u64::MAX,
                self@.next_id < number <= goal,
                username@ == generated_name(number as nat),
                forall|j: nat|
                    self@.next_id < j < number ==> self@.name_taken(#[trigger] generated_name(j)),
            decreases goal - number,
        {
            number = number + 1;
            username = Self::name_of(number);
        }
        proof {
            assert(self@.is_next_free(number as nat));
            lemma_next_free_is(self@, number as nat);
        }
        self.next_id = number;
        self.clients.insert(client, Client { username: username.clone(), channels: NameMap::new() });
        proof {
            assert(self@.sessions =~= old(self)@.join_server(client).sessions);
            assert(self@.sessions.dom() =~= self.clients@.dom());
            assert(self@.sessions.dom() =~= old(self)@.sessions.dom().insert(client));
        }
        Info { username, total_clients: self.clients.len() }
    }

    /// The generated name with the number `number`.
    fn name_of(number: u64) -> (name: String)
        ensures
            name@ == generated_name(number as nat),
    {
        let mut name = String::from_str("user_");
        push_decimal(&mut name, number);
        name
    }

    /// Whether some client goes by `name`.
    fn is_taken(&self, name: &String) -> (r: bool)
        ensures
            r == self@.name_taken(name@),
    {
        broadcast use group_hash_axioms;

        let mut found = false;
        for entry in it: self.clients.iter()
            invariant
                it.seq() == spec_hash_map_iter(&self.clients).remaining(),
                found == exists|j: int|
                    0 <= j < it.index() && (#[trigger] it.seq().unref()[j]).1.username@ == name@,
        {
            if entry.1.username == *name {
                found = true;
            }
        }
        proof {
            let v = spec_hash_map_iter(&self.clients).remaining();
            if found {
                let j = choose|j: int|
                    0 <= j < v.len() && (#[trigger] v.unref()[j]).1.username@ == name@;
                assert(self.clients@.contains_key(*v[j].0));
                assert(*v[j].1 == v.unref()[j].1);
                assert(self@.sessions.contains_key(*v[j].0));
                assert(self@.name_taken(name@));
            }
            if self@.name_taken(name@) {
                let id = choose|id: u64| #[trigger]
                    self@.sessions.contains_key(id) && self@.sessions[id].username == name@;
                assert(self.clients@.contains_key(id));
                assert(v.contains((&id, &self.clients@[id])));
                let i = choose|i: int| 0 <= i < v.len() && v[i] == (&id, &self.clients@[id]);
                assert(v.unref()[i].1.username@ == name@);
                assert(found);
            }
        }
        found
    }

    /// How many names the coordinator has handed out.
    pub fn next_id(&self) -> (r: u64)
        ensures
            r == self@.next_id,
    {
        self.next_id
    }

    /// Whether `client` has joined the server and not left it.
    pub fn is_registered(&self, client: u64) -> (r: bool)
        ensures
            r == self@.sessions.contains_key(client),
    {
        broadcast use group_hash_axioms;

        self.clients.contains_key(&client)
    }

    /// Request for a name change by the client. If some client, the asking one
    /// included, goes by the new name, nothing changes and the result is the
    /// name that the client has; otherwise it takes the new name, which is the
    /// result.
    pub fn change_name(&mut self, client: u64, new_name: String) -> (name: String)
        requires
            old(self).wf(),
            old(self)@.sessions.contains_key(client),
        ensures
            final(self).wf(),
            final(self)@ == old(self)@.change_name(client, new_name@),
            name@ == final(self)@.sessions[client].username,
            old(self)@.name_taken(new_name@) ==> name@ == old(self)@.sessions[client].username
                && final(self)@ == old(self)@,
            !old(self)@.name_taken(new_name@) ==> name@ == new_name@,
    {
        broadcast use group_hash_axioms;

        if self.is_taken(&new_name) {
            // Don't change name if it's taken
            self.clients.get(&client).unwrap().username.clone()
        } else {
            let session = self.clients.remove(&client).unwrap();
            self.clients.insert(
                client,
                Client { username: new_name.clone(), channels: session.channels },
            );
            proof {
                assert(self@.sessions =~= old(self)@.change_name(client, new_name@).sessions);
                assert(self@.sessions.dom() =~= old(self)@.sessions.dom());
            }
            new_name
        }
    }

    /// The name that `client` goes by, if it is registered.
    pub fn username_of(&self, client: u64) -> (r: Option<String>)
        ensures
            match r {
                Some(name) => self@.sessions.contains_key(client) && name@
                    == self@.sessions[client].username,
                None => !self@.sessions.contains_key(client),
            },
    {
        broadcast use group_hash_axioms;

        match self.clients.get(&client) {
            Some(session) => Some(session.username.clone()),
            None => None,
        }
    }

    /// How many clients are registered.
    pub fn total_clients(&self) -> (n: usize)
        ensures
            n == self@.sessions.dom().len(),
    {
        broadcast use group_hash_axioms;

        assert(self@.sessions.dom() =~= self.clients@.dom());
        self.clients.len()
    }

    /// How many members the directory counts for `channel`, if it has it.
    pub fn member_count(&self, channel: &str) -> (r: Option<usize>)
        requires
            self.wf(),
        ensures
            match r {
                Some(n) => self@.channels.contains_key(channel@) && n == self@.channels[channel@],
                None => !self@.channels.contains_key(channel@),
            },
    {
        match self.channels.get(channel) {
            Some(n) => Some(*n),
            None => None,
        }
    }

    /// The directory: every channel once with its member count, in no
    /// particular order.
    pub fn list_channels(&self) -> (list: Vec<(String, usize)>)
        requires
            self.wf(),
        ensures
            list@.len() == self@.channels.dom().len(),
            forall|i: int|
                0 <= i < list@.len() ==> self@.channels.contains_key((#[trigger] list@[i]).0@)
                    && self@.channels[list@[i].0@] == list@[i].1,
            forall|i: int, j: int|
                0 <= i < list@.len() && 0 <= j < list@.len() && i != j ==> (#[trigger] list@[i]).0@
                    != (#[trigger] list@[j]).0@,
    {
        proof {
            self.channels.lemma_keys();
        }
        let n = self.channels.len();
        let mut list: Vec<(String, usize)> = Vec::new();
        let mut i: usize = 0;
        while i < n
            invariant
                self.channels.wf(),
                n == self.channels.keys().len(),
                i <= n,
                list@.len() == i,
                forall|j: int|
                    0 <= j < i ==> (#[trigger] list@[j]).0@ == self.channels.keys()[j] && list@[j].1
                        == self.channels.values()[j],
            decreases n - i,
        {
            list.push((self.channels.name_at(i).clone(), *self.channels.value_at(i)));
            i = i + 1;
        }
        list
    }

    /// `client` joins `channel`. The directory counts one member more for it,
    /// whoever joins and however often; a channel that it did not have is
    /// entered with one member. The result says whether the channel is new, in
    /// which case it has to be started before the join is handed on to it.
    pub fn join_channel(&mut self, client: u64, channel: String) -> (created: bool)
        requires
            old(self).wf(),
            old(self)@.channels.contains_key(channel@) ==> old(self)@.channels[channel@]
                < usize::MAX,
        ensures
            final(self).wf(),
            final(self)@ == old(self)@.join_channel(client, channel@),
            created == !old(self)@.channels.contains_key(channel@),
    {
        broadcast use group_hash_axioms;

        let created = match self.channels.get(channel.as_str()) {
            Some(count) => {
                // Channel already exists
                let more: usize = *count + 1;
                self.channels.insert(channel.clone(), more);
                false
            },
            None => {
                self.channels.insert(channel.clone(), 1);
                true
            },
        };
        match self.clients.remove(&client) {
            Some(session) => {
                let Client { username, channels } = session;
                let mut channels = channels;
                channels.insert(channel, ());
                self.clients.insert(client, Client { username, channels });
            },
            None => {},
        }
        proof {
            assert(self@.sessions =~= old(self)@.join_channel(client, channel@).sessions);
            assert(self@.sessions.dom() =~= old(self)@.sessions.dom());
        }
        created
    }

    /// One leave from `channel` in the directory.
    fn leave_directory(&mut self, channel: &str) -> (outcome: LeaveOutcome)
        requires
            old(self).wf(),
        ensures
            final(self).wf(),
            final(self).clients == old(self).clients,
            final(self).next_id == old(self).next_id,
            final(self)@.channels == directory_left(old(self)@.channels, channel@),
            outcome == leave_outcome(old(self)@.channels, channel@),
    {
        match self.channels.get(channel) {
            Some(count) => {
                let left: usize = *count - 1;
                // If this was the last client, remove the channel.
                if left == 0 {
                    self.channels.remove(channel);
                    LeaveOutcome::Closed
                } else {
                    self.channels.insert(channel.to_owned(), left);
                    LeaveOutcome::Left
                }
            },
            None => {
                // If the channel doesn't exist, leaving it has no effect
                LeaveOutcome::Unknown
            },
        }
    }

    /// `client` leaves `channel`. The directory counts one member less for it,
    /// and drops it when nobody is left; the channel is no longer among those
    /// that the client has joined. If the directory has no such channel,
    /// nothing changes at all. The result says which of these happened.
    pub fn leave_channel(&mut self, client: u64, channel: String) -> (outcome: LeaveOutcome)
        requires
            old(self).wf(),
        ensures
            final(self).wf(),
            final(self)@ == old(self)@.leave_channel(client, channel@),
            outcome == leave_outcome(old(self)@.channels, channel@),
    {
        broadcast use group_hash_axioms;

        let outcome = self.leave_directory(channel.as_str());
        if outcome != LeaveOutcome::Unknown {
            match self.clients.remove(&client) {
                Some(session) => {
                    let Client { username, channels } = session;
                    let mut channels = channels;
                    channels.remove(channel.as_str());
                    self.clients.insert(client, Client { username, channels });
                },
                None => {},
            }
        }
        proof {
            assert(self@.sessions =~= old(self)@.leave_channel(client, channel@).sessions);
            assert(self@.sessions.dom() =~= old(self)@.sessions.dom());
        }
        outcome
    }

    /// `client` leaves the server, by its own wish or because its connection
    /// failed. It leaves every channel that it joined and did not leave, each
    /// once, and its session is removed. The result names every one of these
    /// channels, each once, with what became of it. Nothing happens for a
    /// client that is not registered.
    pub fn leave_server(&mut self, client: u64) -> (left: Vec<(String, LeaveOutcome)>)
        requires
            old(self).wf(),
        ensures
            final(self).wf(),
            final(self)@ == old(self)@.leave_server(client),
            !old(self)@.sessions.contains_key(client) ==> left@.len() == 0,
            old(self)@.sessions.contains_key(client) ==> {
                &&& left@.len() == old(self)@.sessions[client].channels.len()
                &&& forall|i: int|
                    0 <= i < left@.len() ==> old(self)@.sessions[client].channels.contains(
                        (#[trigger] left@[i]).0@,
                    ) && left@[i].1 == leave_outcome(old(self)@.channels, left@[i].0@)
                &&& forall|i: int, j: int|
                    0 <= i < left@.len() && 0 <= j < left@.len() && i != j ==> (
                    #[trigger] left@[i]).0@ != (#[trigger] left@[j]).0@
                &&& forall|n: Seq<char>|
                    old(self)@.sessions[client].channels.contains(n) ==> exists|i: int|
                        0 <= i < left@.len() && (#[trigger] left@[i]).0@ == n
            },
    {
        broadcast use group_hash_axioms;

        let mut left: Vec<(String, LeaveOutcome)> = Vec::new();
        match self.clients.remove(&client) {
            Some(session) => {
                let ghost before = old(self)@.channels;
                let ghost joined = session.channels@.dom();
                proof {
                    session.channels.lemma_keys();
                    assert(self@.sessions =~= old(self)@.sessions.remove(client));
                    assert(self@.sessions.dom() =~= old(self)@.sessions.dom().remove(client));
                    assert(directory_left_all(before, Set::<Seq<char>>::empty()) =~= before);
                    assert(session.channels.keys().take(0).to_set() =~= Set::<Seq<char>>::empty());
                }
                let n = session.channels.len();
                let mut i: usize = 0;
                while i < n
                    invariant
                        self.wf(),
                        session.channels.wf(),
                        session.channels.keys().no_duplicates(),
                        old(self)@.wf(),
                        before == old(self)@.channels,
                        n == session.channels.keys().len(),
                        i <= n,
                        self@.sessions == old(self)@.sessions.remove(client),
                        self@.next_id == old(self)@.next_id,
                        self@.channels == directory_left_all(
                            before,
                            session.channels.keys().take(i as int).to_set(),
                        ),
                        left@.len() == i,
                        forall|j: int|
                            0 <= j < i ==> (#[trigger] left@[j]).0@ == session.channels.keys()[j]
                                && left@[j].1 == leave_outcome(before, left@[j].0@),
                    decreases n - i,
                {
                    let name = session.channels.name_at(i).clone();
                    let ghost keys = session.channels.keys();
                    let ghost done = keys.take(i as int).to_set();
                    proof {
                        let head = keys.take(i as int);
                        let more = keys.take(i + 1);
                        assert(!done.contains(name@)) by {
                            if head.contains(name@) {
                                let j = choose|j: int| 0 <= j < head.len() && head[j] == name@;
                                assert(keys[j] == keys[i as int]);
                            }
                        }
                        assert(more.to_set() =~= done.insert(name@)) by {
                            assert forall|k: Seq<char>|
                                more.to_set().contains(k) <==> done.insert(name@).contains(k) by {
                                if more.contains(k) {
                                    let j = choose|j: int| 0 <= j < more.len() && more[j] == k;
                                    if j < i {
                                        assert(head[j] == k);
                                    }
                                }
                                if head.contains(k) {
                                    let j = choose|j: int| 0 <= j < head.len() && head[j] == k;
                                    assert(more[j] == k);
                                }
                                if k == name@ {
                                    assert(more[i as int] == k);
                                }
                            }
                        }
                        assert(directory_left(directory_left_all(before, done), name@)
                            =~= directory_left_all(before, done.insert(name@)));
                    }
                    let outcome = self.leave_directory(name.as_str());
                    left.push((name, outcome));
                    i = i + 1;
                }
                proof {
                    let keys = session.channels.keys();
                    assert(keys.take(n as int) =~= keys);
                    assert(keys.to_set() == joined);
                    assert forall|j: int| 0 <= j < left@.len() implies joined.contains(
                        (#[trigger] left@[j]).0@,
                    ) by {
                        assert(keys.contains(keys[j]));
                    }
                    assert forall|n: Seq<char>| joined.contains(n) implies exists|i: int|
                        0 <= i < left@.len() && (#[trigger] left@[i]).0@ == n by {
                        assert(keys.contains(n));
                        let i = keys.index_of(n);
                        assert(keys[i] == n);
                        assert(left@[i].0@ == n);
                    }
                }
            },
            None => {
                proof {
                    assert(self@.sessions =~= old(self)@.sessions);
                }
            },
        }
        left
    }
}

} // verus!
