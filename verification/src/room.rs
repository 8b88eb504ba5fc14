//! A room and the sessions in it.

use crate::channel::{try_deliver, ChatMessage, Delivery};
use tokio::sync::mpsc::Sender;
use vstd::prelude::*;

verus! {

/// One participant of a room: a display name and, once the participant
/// listens, the sending half of the channel on which messages reach them.
pub struct Client {
    pub name: String,
    pub response_stream: Option<Sender<ChatMessage>>,
}

impl Client {
    /// Whether the session can receive broadcasts.
    pub open spec fn attached(&self) -> bool {
        self.response_stream.is_some()
    }

    /// Whether the session can receive broadcasts.
    pub fn is_attached(&self) -> (b: bool)
        ensures
            b == self.attached(),
    {
        self.response_stream.is_some()
    }
}

/// Whether `i` is the position of the first session called `name`.
pub open spec fn is_first_named(clients: Seq<Client>, name: Seq<char>, i: int) -> bool {
    &&& 0 <= i < clients.len()
    &&& clients[i].name@ == name
    &&& forall|j: int| 0 <= j < i ==> clients[j].name@ != name
}

/// Whether no session is called `name`.
pub open spec fn no_one_named(clients: Seq<Client>, name: Seq<char>) -> bool {
    forall|j: int| 0 <= j < clients.len() ==> clients[j].name@ != name
}

/// The position of the first session called `name`, if anyone is called so.
pub open spec fn first_named(clients: Seq<Client>, name: Seq<char>) -> Option<int> {
    if exists|i: int| is_first_named(clients, name, i) {
        Some(choose|i: int| is_first_named(clients, name, i))
    } else {
        None
    }
}

/// The sessions after `channel` was bound to the first one called `name`.
pub open spec fn with_channel(
    clients: Seq<Client>,
    name: Seq<char>,
    channel: Sender<ChatMessage>,
) -> Seq<Client> {
    match first_named(clients, name) {
        Some(i) => clients.update(
            i,
            Client { name: clients[i].name, response_stream: Some(channel) },
        ),
        None => clients,
    }
}

/// The sessions after the first one called `name` has left.
pub open spec fn without(clients: Seq<Client>, name: Seq<char>) -> Seq<Client> {
    match first_named(clients, name) {
        Some(i) => clients.remove(i),
        None => clients,
    }
}

/// Whether the broadcast gave up on the session at position `i`.
pub open spec fn failed_at(outcomes: Seq<Delivery>, i: int) -> bool {
    0 <= i < outcomes.len() && outcomes[i] == Delivery::Failed
}

/// Whether `outcomes` is a record of one delivery round over `clients`: one
/// entry for each session, and no attempt exactly where there is no channel.
pub open spec fn attempted(clients: Seq<Client>, outcomes: Seq<Delivery>) -> bool {
    &&& outcomes.len() == clients.len()
    &&& forall|i: int|
        0 <= i < clients.len() ==> (outcomes[i] == Delivery::Unattached <==> !clients[i].attached())
}

/// The sessions that stay after a delivery round: those on which it did not
/// fail, in their old order.
pub open spec fn kept(clients: Seq<Client>, outcomes: Seq<Delivery>) -> Seq<Client>
    decreases clients.len(),
{
    if clients.len() == 0 {
        Seq::<Client>::empty()
    } else {
        let rest = kept(clients.drop_last(), outcomes);
        if failed_at(outcomes, clients.len() - 1) {
            rest
        } else {
            rest.push(clients.last())
        }
    }
}

/// How many of the sessions before position `i` the broadcast gave up on.
pub open spec fn failures_before(outcomes: Seq<Delivery>, i: int) -> int
    decreases i,
{
    if i <= 0 {
        0
    } else if failed_at(outcomes, i - 1) {
        failures_before(outcomes, i - 1) + 1
    } else {
        failures_before(outcomes, i - 1)
    }
}

/// How many sessions have a channel.
pub open spec fn attached_count(clients: Seq<Client>) -> int
    decreases clients.len(),
{
    if clients.len() == 0 {
        0
    } else if clients.last().attached() {
        attached_count(clients.drop_last()) + 1
    } else {
        attached_count(clients.drop_last())
    }
}

/// How many sessions a delivery round tried to reach.
pub open spec fn attempts(outcomes: Seq<Delivery>) -> int
    decreases outcomes.len(),
{
    if outcomes.len() == 0 {
        0
    } else if outcomes.last() != Delivery::Unattached {
        attempts(outcomes.drop_last()) + 1
    } else {
        attempts(outcomes.drop_last())
    }
}

/// An isolated broadcast scope: its sessions, in the order in which they joined.
pub struct Room {
    id: i32,
    clients: Vec<Client>,
}

impl Room {
    /// The sessions of the room, oldest first.
    pub closed spec fn sessions(&self) -> Seq<Client> {
        self.clients@
    }

    /// The room's id.
    pub closed spec fn spec_id(&self) -> int {
        self.id as int
    }

    /// An empty room with id 0.
    pub fn new() -> (room: Room)
        ensures
            room.sessions() == Seq::<Client>::empty(),
            room.spec_id() == 0,
    {
        Room { id: 0, clients: Vec::new() }
    }

    /// The room's id, which never changes.
    pub fn id(&self) -> (id: i32)
        ensures
            id == self.spec_id(),
    {
        self.id
    }

    /// Appends a session; it becomes the youngest of the room.
    pub fn add_client(&mut self, session: Client)
        ensures
            final(self).spec_id() == old(self).spec_id(),
            final(self).sessions() == old(self).sessions().push(session),
    {
        self.clients.push(session);
    }

    /// The position of the first session called `name`, if there is one.
    pub fn find_by_name(&self, name: &String) -> (found: Option<usize>)
        ensures
            match found {
                Some(i) => first_named(self.sessions(), name@) == Some(i as int),
                None => first_named(self.sessions(), name@).is_none(),
            },
    {
        let n: usize = self.clients.len();
        let mut i: usize = 0;
        while i < n
            invariant
                n == self.clients.len(),
                i <= n,
                forall|j: int| 0 <= j < i ==> self.clients@[j].name@ != name@,
            decreases n - i,
        {
            if self.clients[i].name == *name {
                proof {
                    lemma_first_named(self.clients@, name@, i as int);
                }
                return Some(i);
            }
            i += 1;
        }
        proof {
            lemma_none_named(self.clients@, name@);
        }
        None
    }

    /// Binds `channel` to the first session called `name`, in place of any
    /// channel that the session had, and says whether there was such a
    /// session. Where there was none the channel is dropped.
    pub fn attach_channel(&mut self, name: &String, channel: Sender<ChatMessage>) -> (bound: bool)
        ensures
            final(self).spec_id() == old(self).spec_id(),
            bound == first_named(old(self).sessions(), name@).is_some(),
            final(self).sessions() == with_channel(old(self).sessions(), name@, channel),
    {
        match self.find_by_name(name) {
            Some(i) => {
                let owner = self.clients[i].name.clone();
                self.clients.set(i, Client { name: owner, response_stream: Some(channel) });
                true
            },
            None => false,
        }
    }

    /// Removes the first session called `name` and says whether there was one.
    pub fn remove_by_name(&mut self, name: &String) -> (removed: bool)
        ensures
            final(self).spec_id() == old(self).spec_id(),
            removed == first_named(old(self).sessions(), name@).is_some(),
            final(self).sessions() == without(old(self).sessions(), name@),
    {
        match self.find_by_name(name) {
            Some(i) => {
                self.clients.remove(i);
                true
            },
            None => false,
        }
    }

    /// Offers one message from `name` to every session that has a channel,
    /// each by a send that does not wait, and records what became of each.
    /// The room itself is not changed.
    pub fn deliver(&self, name: &String, body: &String) -> (outcomes: Vec<Delivery>)
        ensures
            attempted(self.sessions(), outcomes@),
    {
        let mut outcomes: Vec<Delivery> = Vec::new();
        let n: usize = self.clients.len();
        let mut i: usize = 0;
        while i < n
            invariant
                n == self.clients.len(),
                i <= n,
                outcomes.len() == i,
                forall|j: int|
                    0 <= j < i ==> (outcomes@[j] == Delivery::Unattached
                        <==> !self.clients@[j].attached()),
            decreases n - i,
        {
            let outcome = match &self.clients[i].response_stream {
                Some(channel) => {
                    if try_deliver(channel, ChatMessage::new(name, body)) {
                        Delivery::Delivered
                    } else {
                        Delivery::Failed
                    }
                },
                None => Delivery::Unattached,
            };
            outcomes.push(outcome);
            i += 1;
        }
        outcomes
    }

    /// Removes, in one pass, every session on which `outcomes` records a
    /// failure. An entry beyond the last session is ignored, and a session
    /// without an entry stays.
    pub fn prune(&mut self, outcomes: &Vec<Delivery>)
        ensures
            final(self).spec_id() == old(self).spec_id(),
            final(self).sessions() == kept(old(self).sessions(), outcomes@),
    {
        let ghost before = self.clients@;
        let n: usize = self.clients.len();
        // `i` walks the sessions as they were; `at` is where session `i` stands now.
        let mut i: usize = 0;
        let mut at: usize = 0;
        while i < n
            invariant
                n == before.len(),
                at <= i <= n,
                self.id == old(self).id,
                at == kept(before.subrange(0, i as int), outcomes@).len(),
                self.clients@ == kept(before.subrange(0, i as int), outcomes@) + before.subrange(
                    i as int,
                    n as int,
                ),
            decreases n - i,
        {
            proof {
                assert(before.subrange(0, i + 1).drop_last() == before.subrange(0, i as int));
            }
            if i < outcomes.len() && outcomes[i] == Delivery::Failed {
                self.clients.remove(at);
            } else {
                at += 1;
            }
            i += 1;
        }
        proof {
            assert(before.subrange(0, n as int) == before);
        }
    }

    /// Delivers one message from `name` to every session that has a channel
    /// (the sender's own included) and then removes the sessions on which the
    /// delivery failed. The answer holds, for each session as the room stood
    /// before, what became of it.
    pub fn broadcast(&mut self, name: &String, body: &String) -> (outcomes: Vec<Delivery>)
        ensures
            final(self).spec_id() == old(self).spec_id(),
            attempted(old(self).sessions(), outcomes@),
            final(self).sessions() == kept(old(self).sessions(), outcomes@),
    {
        let outcomes = self.deliver(name, body);
        self.prune(&outcomes);
        outcomes
    }

    /// The sessions of the room, oldest first.
    pub fn get_clients(&self) -> (clients: &Vec<Client>)
        ensures
            clients@ == self.sessions(),
    {
        &self.clients
    }
}

/// The first session of a name is the one that `first_named` gives.
pub proof fn lemma_first_named(clients: Seq<Client>, name: Seq<char>, i: int)
    requires
        is_first_named(clients, name, i),
    ensures
        first_named(clients, name) == Some(i),
{
    let j = choose|j: int| is_first_named(clients, name, j);
    assert(is_first_named(clients, name, j));
    if j < i {
        assert(clients[j].name@ != name);
    }
    if i < j {
        assert(clients[i].name@ != name);
    }
}

/// Where nobody carries a name, `first_named` gives nothing.
pub proof fn lemma_none_named(clients: Seq<Client>, name: Seq<char>)
    requires
        no_one_named(clients, name),
    ensures
        first_named(clients, name).is_none(),
{
    if exists|i: int| is_first_named(clients, name, i) {
        let j = choose|j: int| is_first_named(clients, name, j);
        assert(clients[j].name@ != name);
    }
}

/// Whoever carries a name, someone is the first to carry it.
proof fn lemma_someone_is_first(clients: Seq<Client>, name: Seq<char>, j: int)
    requires
        0 <= j < clients.len(),
        clients[j].name@ == name,
    ensures
        exists|i: int| is_first_named(clients, name, i),
    decreases j,
{
    if forall|k: int| 0 <= k < j ==> clients[k].name@ != name {
        assert(is_first_named(clients, name, j));
    } else {
        let k = choose|k: int| 0 <= k < j && clients[k].name@ == name;
        lemma_someone_is_first(clients, name, k);
    }
}

/// `first_named` gives the first session of the name, and gives nothing only
/// where nobody carries the name.
pub proof fn lemma_first_named_is_exact(clients: Seq<Client>, name: Seq<char>)
    ensures
        match first_named(clients, name) {
            Some(i) => is_first_named(clients, name, i),
            None => no_one_named(clients, name),
        },
{
    if first_named(clients, name).is_none() {
        assert forall|j: int| 0 <= j < clients.len() implies clients[j].name@ != name by {
            if clients[j].name@ == name {
                lemma_someone_is_first(clients, name, j);
            }
        }
    }
}

/// Where nobody carries a name, removing it changes nothing.
pub proof fn lemma_without_unknown(clients: Seq<Client>, name: Seq<char>)
    requires
        no_one_named(clients, name),
    ensures
        without(clients, name) == clients,
        without(clients, name).len() == clients.len(),
{
    lemma_none_named(clients, name);
}

/// A broadcast tries to reach exactly the sessions that have a channel.
pub proof fn lemma_attempts_are_attached(clients: Seq<Client>, outcomes: Seq<Delivery>)
    requires
        attempted(clients, outcomes),
    ensures
        attempts(outcomes) == attached_count(clients),
    decreases clients.len(),
{
    if clients.len() > 0 {
        lemma_attempts_are_attached(clients.drop_last(), outcomes.drop_last());
    }
}

/// No more sessions fail before a position than stand before it.
pub proof fn lemma_failures_bound(outcomes: Seq<Delivery>, i: int)
    requires
        0 <= i,
    ensures
        0 <= failures_before(outcomes, i) <= i,
    decreases i,
{
    if i > 0 {
        lemma_failures_bound(outcomes, i - 1);
    }
}

/// A broadcast shortens the room by the number of sessions that failed.
pub proof fn lemma_kept_len(clients: Seq<Client>, outcomes: Seq<Delivery>)
    ensures
        kept(clients, outcomes).len() == clients.len() - failures_before(
            outcomes,
            clients.len() as int,
        ),
    decreases clients.len(),
{
    if clients.len() > 0 {
        lemma_kept_len(clients.drop_last(), outcomes);
    }
}

/// A session on which the broadcast did not fail stays in the room, behind
/// the same sessions as before, less those that failed.
pub proof fn lemma_kept_index(clients: Seq<Client>, outcomes: Seq<Delivery>, i: int)
    requires
        0 <= i < clients.len(),
        !failed_at(outcomes, i),
    ensures
        0 <= i - failures_before(outcomes, i) < kept(clients, outcomes).len(),
        kept(clients, outcomes)[i - failures_before(outcomes, i)] == clients[i],
    decreases clients.len(),
{
    lemma_failures_bound(outcomes, i);
    lemma_kept_len(clients.drop_last(), outcomes);
    if i < clients.len() - 1 {
        lemma_kept_index(clients.drop_last(), outcomes, i);
    }
}

/// A session without a channel is never removed by a broadcast.
pub proof fn lemma_unattached_stay(clients: Seq<Client>, outcomes: Seq<Delivery>, i: int)
    requires
        attempted(clients, outcomes),
        0 <= i < clients.len(),
        !clients[i].attached(),
    ensures
        0 <= i - failures_before(outcomes, i) < kept(clients, outcomes).len(),
        kept(clients, outcomes)[i - failures_before(outcomes, i)] == clients[i],
{
    lemma_kept_index(clients, outcomes, i);
}

/// A broadcast on which no delivery fails leaves the room as it was.
pub proof fn lemma_no_failure(clients: Seq<Client>, outcomes: Seq<Delivery>)
    requires
        forall|i: int| 0 <= i < clients.len() ==> !failed_at(outcomes, i),
    ensures
        kept(clients, outcomes) == clients,
    decreases clients.len(),
{
    if clients.len() > 0 {
        lemma_no_failure(clients.drop_last(), outcomes);
        assert(clients.drop_last().push(clients.last()) == clients);
    }
}

/// A broadcast on which the delivery to one session fails removes that
/// session and no other.
pub proof fn lemma_one_failure(clients: Seq<Client>, outcomes: Seq<Delivery>, k: int)
    requires
        0 <= k < clients.len(),
        failed_at(outcomes, k),
        forall|i: int| 0 <= i < clients.len() && i != k ==> !failed_at(outcomes, i),
    ensures
        kept(clients, outcomes) == clients.remove(k),
    decreases clients.len(),
{
    if k == clients.len() - 1 {
        lemma_no_failure(clients.drop_last(), outcomes);
        assert(clients.drop_last() == clients.remove(k));
    } else {
        lemma_one_failure(clients.drop_last(), outcomes, k);
        assert(clients.drop_last().remove(k).push(clients.last()) == clients.remove(k));
    }
}

} // verus!
