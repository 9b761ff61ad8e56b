//! One chat channel: who is in it, and the last few messages, which a
//! newcomer is shown.

use std::collections::HashSet;
use vstd::prelude::*;
use vstd::std_specs::hash::*;
use vstd::std_specs::iter::IteratorSpec;

verus! {

/// How many messages a channel keeps at most.
pub const HISTORY_LIMIT: usize = 10;

/// How many of the oldest messages leave at once when the limit is passed.
pub const HISTORY_TRIM: usize = 5;

/// A message as texts: time stamp, author, body.
pub type Message = (Seq<char>, Seq<char>, Seq<char>);

/// The texts of one stored message.
pub open spec fn message_text(m: (String, String, String)) -> Message {
    (m.0@, m.1@, m.2@)
}

/// The texts of stored messages, in their order.
pub open spec fn message_texts(v: Seq<(String, String, String)>) -> Seq<Message> {
    Seq::new(v.len(), |i: int| message_text(v[i]))
}

/// What is kept of a history that may have passed `limit`: all of it, or all
/// but the `trim` oldest.
pub open spec fn keep_recent<A>(history: Seq<A>, limit: nat, trim: nat) -> Seq<A> {
    if history.len() > limit {
        history.skip(trim as int)
    } else {
        history
    }
}

/// The history after one more message was stored.
pub open spec fn stored(history: Seq<Message>, message: Message) -> Seq<Message> {
    keep_recent(history.push(message), HISTORY_LIMIT as nat, HISTORY_TRIM as nat)
}

/// The history after `messages` were stored one after the other.
pub open spec fn stored_all(history: Seq<Message>, messages: Seq<Message>) -> Seq<Message>
    decreases messages.len(),
{
    if messages.len() == 0 {
        history
    } else {
        stored(stored_all(history, messages.drop_last()), messages.last())
    }
}

/// However many messages are broadcast, the channel holds at most ten, and
/// they are the most recent ones in the order in which they came: the end of
/// everything that it ever held.
pub proof fn lemma_history_is_most_recent(history: Seq<Message>, messages: Seq<Message>)
    requires
        history.len() <= HISTORY_LIMIT,
    ensures
        stored_all(history, messages).len() <= HISTORY_LIMIT,
        stored_all(history, messages).len() <= (history + messages).len(),
        stored_all(history, messages) == (history + messages).skip(
            (history + messages).len() - stored_all(history, messages).len(),
        ),
    decreases messages.len(),
{
    let all = history + messages;
    if messages.len() == 0 {
        assert(all =~= history);
        assert(history.skip(0) =~= history);
    } else {
        let before = messages.drop_last();
        let kept = stored_all(history, before);
        lemma_history_is_most_recent(history, before);
        let prior = history + before;
        assert(all =~= prior.push(messages.last()));
        let grown = kept.push(messages.last());
        assert(grown =~= all.skip(all.len() - grown.len()));
        if grown.len() > HISTORY_LIMIT {
            assert(grown.skip(HISTORY_TRIM as int) =~= all.skip(all.len() - (grown.len() - HISTORY_TRIM)));
        }
    }
}

/// A request that changes who is in a channel.
pub enum MemberRequest {
    Join(u64),
    Leave(u64),
}

/// Who is in the channel after one request.
pub open spec fn after_request(members: Set<u64>, request: MemberRequest) -> Set<u64> {
    match request {
        MemberRequest::Join(client) => members.insert(client),
        MemberRequest::Leave(client) => members.remove(client),
    }
}

/// Who is in the channel after `requests`, handled one after the other.
pub open spec fn after_requests(members: Set<u64>, requests: Seq<MemberRequest>) -> Set<u64>
    decreases requests.len(),
{
    if requests.len() == 0 {
        members
    } else {
        after_request(after_requests(members, requests.drop_last()), requests.last())
    }
}

/// How many of `requests` were a join of somebody who was not in the channel
/// when it was handled.
pub open spec fn admissions(members: Set<u64>, requests: Seq<MemberRequest>) -> nat
    decreases requests.len(),
{
    if requests.len() == 0 {
        0
    } else {
        let before = after_requests(members, requests.drop_last());
        admissions(members, requests.drop_last()) + match requests.last() {
            MemberRequest::Join(client) => if before.contains(client) {
                0nat
            } else {
                1nat
            },
            MemberRequest::Leave(_) => 0nat,
        }
    }
}

/// How many of `requests` were a leave of somebody who was in the channel
/// when it was handled.
pub open spec fn departures(members: Set<u64>, requests: Seq<MemberRequest>) -> nat
    decreases requests.len(),
{
    if requests.len() == 0 {
        0
    } else {
        let before = after_requests(members, requests.drop_last());
        departures(members, requests.drop_last()) + match requests.last() {
            MemberRequest::Join(_) => 0nat,
            MemberRequest::Leave(client) => if before.contains(client) {
                1nat
            } else {
                0nat
            },
        }
    }
}

/// After any joins and leaves, the channel has as many members as it had,
/// plus the joins of somebody new, minus the leaves of somebody present.
pub proof fn lemma_member_count(members: Set<u64>, requests: Seq<MemberRequest>)
    requires
        members.finite(),
    ensures
        after_requests(members, requests).finite(),
        after_requests(members, requests).len() + departures(members, requests) == members.len()
            + admissions(members, requests),
    decreases requests.len(),
{
    if requests.len() > 0 {
        lemma_member_count(members, requests.drop_last());
    }
}

/// What a broadcast hands out: the message, and everybody who is to get it.
#[derive(Clone, Debug, PartialEq)]
pub struct Broadcast {
    pub recipients: Vec<u64>,
    pub channel: String,
    pub timestamp: String,
    pub name: String,
    pub message: String,
}

/// A channel dispatches messages to all clients that are part of it, and
/// keeps the last few of them.
pub struct ChannelProcess {
    clients: HashSet<u64>,
    last_messages: Vec<(String, String, String)>,
}

impl ChannelProcess {
    /// Who is in the channel.
    pub closed spec fn members(&self) -> Set<u64> {
        self.clients@
    }

    /// The messages that the channel holds, oldest first.
    pub closed spec fn history(&self) -> Seq<Message> {
        message_texts(self.last_messages@)
    }

    /// The channel holds no more than ten messages.
    pub closed spec fn wf(&self) -> bool {
        &&& self.clients@.finite()
        &&& self.last_messages@.len() <= HISTORY_LIMIT
    }

    /// What a well-formed channel is known to satisfy.
    pub proof fn lemma_wf(&self)
        requires
            self.wf(),
        ensures
            self.members().finite(),
            self.history().len() <= HISTORY_LIMIT,
    {
    }

    /// A channel without members or messages.
    pub fn init(_name: String) -> (channel: Self)
        ensures
            channel.wf(),
            channel.members() == Set::<u64>::empty(),
            channel.history() == Seq::<Message>::empty(),
    {
        let channel = ChannelProcess { clients: HashSet::new(), last_messages: Vec::new() };
        assert(channel.history() =~= Seq::<Message>::empty());
        channel
    }

    /// `client` joins the channel; nothing changes if it is in it already.
    pub fn join(&mut self, client: u64)
        requires
            old(self).wf(),
        ensures
            final(self).wf(),
            final(self).members() == old(self).members().insert(client),
            final(self).history() == old(self).history(),
    {
        broadcast use group_hash_axioms;

        self.clients.insert(client);
    }

    /// `client` leaves the channel; nothing changes if it is not in it.
    pub fn leave(&mut self, client: u64)
        requires
            old(self).wf(),
        ensures
            final(self).wf(),
            final(self).members() == old(self).members().remove(client),
            final(self).history() == old(self).history(),
    {
        broadcast use group_hash_axioms;

        self.clients.remove(&client);
    }

    /// Whether `client` is in the channel.
    pub fn is_member(&self, client: u64) -> (r: bool)
        requires
            self.wf(),
        ensures
            r == self.members().contains(client),
    {
        broadcast use group_hash_axioms;

        self.clients.contains(&client)
    }

    /// How many clients are in the channel.
    pub fn member_count(&self) -> (n: usize)
        requires
            self.wf(),
        ensures
            n == self.members().len(),
    {
        broadcast use group_hash_axioms;

        self.clients.len()
    }

    /// A copy of the messages that the channel holds: up to ten, oldest
    /// first.
    pub fn get_last_messages(&self) -> (r: Vec<(String, String, String)>)
        requires
            self.wf(),
        ensures
            message_texts(r@) == self.history(),
            r@.len() <= HISTORY_LIMIT,
    {
        copy_messages(&self.last_messages)
    }

    /// Stores the message, drops the five oldest once more than ten are held,
    /// and says to whom the message goes: to every member, the sender too.
    pub fn broadcast_message(
        &mut self,
        channel: String,
        timestamp: String,
        name: String,
        message: String,
    ) -> (r: Broadcast)
        requires
            old(self).wf(),
        ensures
            final(self).wf(),
            final(self).members() == old(self).members(),
            final(self).history() == stored(old(self).history(), (timestamp@, name@, message@)),
            final(self).history().len() <= HISTORY_LIMIT,
            r.recipients@.no_duplicates(),
            r.recipients@.to_set() == old(self).members(),
            r.channel@ == channel@,
            r.timestamp@ == timestamp@,
            r.name@ == name@,
            r.message@ == message@,
    {
        let ghost before = self.last_messages@;
        self.last_messages.push((timestamp.clone(), name.clone(), message.clone()));
        assert(message_texts(self.last_messages@) =~= message_texts(before).push(
            (timestamp@, name@, message@),
        ));
        if self.last_messages.len() > HISTORY_LIMIT {
            let ghost grown = self.last_messages@;
            let mut dropped: usize = 0;
            while dropped < HISTORY_TRIM
                invariant
                    dropped <= HISTORY_TRIM,
                    grown.len() == HISTORY_LIMIT + 1,
                    self.last_messages@ == grown.skip(dropped as int),
                    self.clients == old(self).clients,
                decreases HISTORY_TRIM - dropped,
            {
                self.last_messages.remove(0);
                dropped = dropped + 1;
                assert(self.last_messages@ =~= grown.skip(dropped as int));
            }
            assert(message_texts(self.last_messages@) =~= message_texts(grown).skip(
                HISTORY_TRIM as int,
            ));
        }
        let recipients = self.member_ids();
        Broadcast { recipients, channel, timestamp, name, message }
    }

    /// The members, each once, in no particular order.
    fn member_ids(&self) -> (v: Vec<u64>)
        ensures
            v@.no_duplicates(),
            v@.to_set() == self.members(),
    {
        broadcast use group_hash_axioms;

        let mut v: Vec<u64> = Vec::new();
        for id in it: self.clients.iter()
            invariant
                v@ == it.seq().take(it.index() as int).unref(),
                it.seq() == spec_hash_keys_iter(&self.clients).remaining(),
        {
            v.push(*id);
            assert(it.seq().take(it.index() + 1).unref() =~= it.seq().take(
                it.index() as int,
            ).unref().push(*id));
        }
        proof {
            let s = spec_hash_keys_iter(&self.clients).remaining();
            assert(s.take(s.len() as int) =~= s);
            assert forall|i: int, j: int|
                0 <= i < s.len() && 0 <= j < s.len() && i != j implies s.unref()[i]
                != s.unref()[j] by {
                assert(s[i] != s[j]);
            }
        }
        v
    }
}

/// A copy of `messages`.
pub fn copy_messages(messages: &Vec<(String, String, String)>) -> (r: Vec<
    (String, String, String),
>)
    ensures
        r@ == messages@,
{
    let mut r: Vec<(String, String, String)> = Vec::new();
    let mut i: usize = 0;
    while i < messages.len()
        invariant
            i <= messages@.len(),
            r@ == messages@.take(i as int),
        decreases messages@.len() - i,
    {
        let m = &messages[i];
        r.push((m.0.clone(), m.1.clone(), m.2.clone()));
        i = i + 1;
        assert(r@ =~= messages@.take(i as int));
    }
    assert(messages@.take(messages@.len() as int) =~= messages@);
    r
}

} // verus!
