//! The four operations of the relay: join, listen, send and disconnect.

use crate::channel::{open_channel, ChatMessage, Delivery, CHANNEL_CAPACITY};
use crate::registry::{ChatError, RoomRegistry};
use crate::room::{
    attempted, first_named, kept, lemma_without_unknown, no_one_named, with_channel, without,
    Client,
};
use tokio::sync::mpsc::{Receiver, Sender};
use vstd::prelude::*;

verus! {

/// The id of the room in which a join lands: that of the room that exists,
/// or the one that the first join gives to the room it creates.
pub open spec fn default_room_id(rooms: Seq<Seq<Client>>) -> int {
    if rooms.len() == 0 {
        0
    } else {
        rooms.len() - 1
    }
}

/// The rooms after a participant called `name` has joined.
pub open spec fn after_join(rooms: Seq<Seq<Client>>, name: String) -> Seq<Seq<Client>> {
    let session = Client { name: name, response_stream: None };
    if rooms.len() == 0 {
        seq![seq![session]]
    } else {
        let id = default_room_id(rooms);
        rooms.update(id, rooms[id].push(session))
    }
}

/// The rooms after one participant for each of `names` has joined, in that
/// order.
pub open spec fn after_joins(rooms: Seq<Seq<Client>>, names: Seq<String>) -> Seq<Seq<Client>>
    decreases names.len(),
{
    if names.len() == 0 {
        rooms
    } else {
        after_join(after_joins(rooms, names.drop_last()), names.last())
    }
}

/// How many sessions the default room holds; none where there is no room.
pub open spec fn default_room_size(rooms: Seq<Seq<Client>>) -> int {
    if rooms.len() == 0 {
        0
    } else {
        rooms[default_room_id(rooms)].len() as int
    }
}

/// The relay's state: every room and every session. All of it is owned
/// here, so whoever shares a `ChatService` decides how access is serialised.
pub struct ChatService {
    rooms: RoomRegistry,
}

impl View for ChatService {
    type V = Seq<Seq<Client>>;

    /// The sessions of each room, by room id.
    closed spec fn view(&self) -> Seq<Seq<Client>> {
        self.rooms@
    }
}

impl Default for ChatService {
    /// A relay without rooms.
    fn default() -> (service: ChatService)
        ensures
            service.wf(),
            service@ == Seq::<Seq<Client>>::empty(),
    {
        ChatService { rooms: RoomRegistry::new() }
    }
}

impl ChatService {
    /// The registry's invariant.
    pub closed spec fn wf(&self) -> bool {
        self.rooms.wf()
    }

    /// A relay never holds more than one room, so a join lands in room 0.
    pub proof fn lemma_single_room(&self)
        requires
            self.wf(),
        ensures
            self@.len() <= 1,
            default_room_id(self@) == 0,
    {
        self.rooms.lemma_single_room();
    }

    /// Whether `room_id` names a room.
    pub open spec fn has_room(&self, room_id: int) -> bool {
        0 <= room_id < self@.len()
    }

    /// Registers a new session called `name`, without a channel, in the
    /// default room, which is created if this is the first join. Names are
    /// not checked for duplicates. Returns the room's id.
    pub fn join(&mut self, name: String) -> (room_id: i32)
        requires
            old(self).wf(),
        ensures
            final(self).wf(),
            room_id == default_room_id(old(self)@),
            final(self)@ == after_join(old(self)@, name),
    {
        proof {
            self.rooms.lemma_single_room();
        }
        let room_id: i32 = self.rooms.ensure_default_room();
        match self.rooms.get_room_mut(room_id) {
            Ok(room) => {
                room.add_client(Client { name, response_stream: None });
            },
            Err(_) => {},
        }
        room_id
    }

    /// Binds `channel` to the first session of the room that is called
    /// `name`, and says whether there was one; where there was none, the
    /// channel is dropped and nothing will ever arrive on it.
    pub fn attach(
        &mut self,
        room_id: i32,
        name: &String,
        channel: Sender<ChatMessage>,
    ) -> (bound: Result<bool, ChatError>)
        requires
            old(self).wf(),
        ensures
            final(self).wf(),
            match bound {
                Ok(b) => {
                    &&& old(self).has_room(room_id as int)
                    &&& b == first_named(old(self)@[room_id as int], name@).is_some()
                    &&& final(self)@ == old(self)@.update(
                        room_id as int,
                        with_channel(old(self)@[room_id as int], name@, channel),
                    )
                },
                Err(e) => {
                    &&& !old(self).has_room(room_id as int)
                    &&& e == ChatError::NotFound
                    &&& final(self)@ == old(self)@
                },
            },
    {
        match self.rooms.get_room_mut(room_id) {
            Ok(room) => Ok(room.attach_channel(name, channel)),
            Err(e) => Err(e),
        }
    }

    /// Opens a channel of `CHANNEL_CAPACITY` messages, binds its sending half
    /// as `attach` does, and returns the receiving half with the answer of
    /// `attach`.
    pub fn get_message(
        &mut self,
        room_id: i32,
        name: &String,
    ) -> (stream: Result<(Receiver<ChatMessage>, bool), ChatError>)
        requires
            old(self).wf(),
        ensures
            final(self).wf(),
            match stream {
                Ok((_, b)) => {
                    &&& old(self).has_room(room_id as int)
                    &&& b == first_named(old(self)@[room_id as int], name@).is_some()
                    &&& exists|channel: Sender<ChatMessage>|
                        final(self)@ == old(self)@.update(
                            room_id as int,
                            with_channel(old(self)@[room_id as int], name@, channel),
                        )
                },
                Err(e) => {
                    &&& !old(self).has_room(room_id as int)
                    &&& e == ChatError::NotFound
                    &&& final(self)@ == old(self)@
                },
            },
    {
        if room_id < 0 || room_id as usize >= self.rooms.room_count() {
            return Err(ChatError::NotFound);
        }
        let (sender, receiver) = open_channel(CHANNEL_CAPACITY);
        match self.attach(room_id, name, sender) {
            Ok(b) => Ok((receiver, b)),
            Err(e) => Err(e),
        }
    }

    /// Broadcasts one message from `name` in the room and removes the
    /// sessions that it could not reach. A failed delivery is no error: the
    /// answer is `Ok` whenever the room exists, and holds what became of each
    /// session of the room as it stood before.
    pub fn send_message(
        &mut self,
        room_id: i32,
        name: &String,
        body: &String,
    ) -> (sent: Result<Vec<Delivery>, ChatError>)
        requires
            old(self).wf(),
        ensures
            final(self).wf(),
            match sent {
                Ok(outcomes) => {
                    &&& old(self).has_room(room_id as int)
                    &&& attempted(old(self)@[room_id as int], outcomes@)
                    &&& final(self)@ == old(self)@.update(
                        room_id as int,
                        kept(old(self)@[room_id as int], outcomes@),
                    )
                },
                Err(e) => {
                    &&& !old(self).has_room(room_id as int)
                    &&& e == ChatError::NotFound
                    &&& final(self)@ == old(self)@
                },
            },
    {
        match self.rooms.get_room_mut(room_id) {
            Ok(room) => Ok(room.broadcast(name, body)),
            Err(e) => Err(e),
        }
    }

    /// Removes the first session of the room that is called `name`. That
    /// nobody is called so is no error.
    pub fn disconnect(&mut self, room_id: i32, name: &String) -> (done: Result<(), ChatError>)
        requires
            old(self).wf(),
        ensures
            final(self).wf(),
            match done {
                Ok(_) => {
                    &&& old(self).has_room(room_id as int)
                    &&& final(self)@ == old(self)@.update(
                        room_id as int,
                        without(old(self)@[room_id as int], name@),
                    )
                },
                Err(e) => {
                    &&& !old(self).has_room(room_id as int)
                    &&& e == ChatError::NotFound
                    &&& final(self)@ == old(self)@
                },
            },
    {
        match self.rooms.get_room_mut(room_id) {
            Ok(room) => {
                room.remove_by_name(name);
                Ok(())
            },
            Err(e) => Err(e),
        }
    }

    /// The sessions of a room, oldest first, or `NotFound`.
    pub fn get_clients(&self, room_id: i32) -> (found: Result<&Vec<Client>, ChatError>)
        requires
            self.wf(),
        ensures
            match found {
                Ok(clients) => self.has_room(room_id as int) && clients@ == self@[room_id as int],
                Err(e) => !self.has_room(room_id as int) && e == ChatError::NotFound,
            },
    {
        match self.rooms.get_room(room_id) {
            Ok(room) => Ok(room.get_clients()),
            Err(e) => Err(e),
        }
    }
}

/// A join leaves exactly one more session in the default room, the new one
/// last, and the room in which the next join lands is the same.
pub proof fn lemma_join(rooms: Seq<Seq<Client>>, name: String)
    ensures
        after_join(rooms, name).len() > 0,
        rooms.len() > 0 ==> after_join(rooms, name).len() == rooms.len(),
        default_room_id(after_join(rooms, name)) == default_room_id(rooms),
        default_room_size(after_join(rooms, name)) == default_room_size(rooms) + 1,
        after_join(rooms, name)[default_room_id(rooms)].last() == (Client {
            name: name,
            response_stream: None,
        }),
{
}

/// However many participants join, and in whatever order their joins are
/// served, each lands in the same room and none is lost: the room grows by
/// their number.
pub proof fn lemma_joins(rooms: Seq<Seq<Client>>, names: Seq<String>)
    ensures
        default_room_id(after_joins(rooms, names)) == default_room_id(rooms),
        default_room_size(after_joins(rooms, names)) == default_room_size(rooms) + names.len(),
    decreases names.len(),
{
    if names.len() > 0 {
        lemma_joins(rooms, names.drop_last());
        lemma_join(after_joins(rooms, names.drop_last()), names.last());
    }
}

/// Disconnecting a name that nobody in the room carries leaves every room as
/// it was.
pub proof fn lemma_disconnect_unknown(rooms: Seq<Seq<Client>>, room_id: int, name: Seq<char>)
    requires
        0 <= room_id < rooms.len(),
        no_one_named(rooms[room_id], name),
    ensures
        rooms.update(room_id, without(rooms[room_id], name)) == rooms,
{
    lemma_without_unknown(rooms[room_id], name);
}

} // verus!
