//! The set of rooms.

use crate::room::{Client, Room};
use vstd::prelude::*;

verus! {

/// Why an operation on the registry was refused.
#[derive(Clone, Copy, Debug, PartialEq, Eq, Structural)]
pub enum ChatError {
    /// The room id names no room.
    NotFound,
}

/// The rooms of one relay. A room's id is its position here. Under the
/// single-room policy there is at most one room: it is created when the first
/// participant joins, and every later join lands in it.
pub struct RoomRegistry {
    rooms: Vec<Room>,
}

impl View for RoomRegistry {
    type V = Seq<Seq<Client>>;

    /// The sessions of each room, by room id.
    closed spec fn view(&self) -> Seq<Seq<Client>> {
        Seq::new(self.rooms@.len(), |i: int| self.rooms@[i].sessions())
    }
}

impl RoomRegistry {
    /// Every room carries its position as its id, and there is at most one.
    pub closed spec fn wf(&self) -> bool {
        &&& self.rooms@.len() <= 1
        &&& forall|i: int| 0 <= i < self.rooms@.len() ==> self.rooms@[i].spec_id() == i
    }

    /// Whether `room_id` names a room.
    pub open spec fn has_room(&self, room_id: int) -> bool {
        0 <= room_id < self@.len()
    }

    /// A registry never holds more than one room.
    pub proof fn lemma_single_room(&self)
        requires
            self.wf(),
        ensures
            self@.len() <= 1,
    {
    }

    /// A registry without rooms.
    pub fn new() -> (registry: RoomRegistry)
        ensures
            registry.wf(),
            registry@ == Seq::<Seq<Client>>::empty(),
    {
        RoomRegistry { rooms: Vec::new() }
    }

    /// How many rooms there are.
    pub fn room_count(&self) -> (n: usize)
        ensures
            n == self@.len(),
    {
        self.rooms.len()
    }

    /// The id of the room in which joins land. Where there is no room yet, an
    /// empty one is created first; the rooms that exist are not touched.
    pub fn ensure_default_room(&mut self) -> (room_id: i32)
        requires
            old(self).wf(),
        ensures
            final(self).wf(),
            room_id == 0,
            final(self).has_room(room_id as int),
            old(self)@.len() == 0 ==> final(self)@ == seq![Seq::<Client>::empty()],
            old(self)@.len() > 0 ==> final(self)@ == old(self)@,
    {
        if self.rooms.len() == 0 {
            self.rooms.push(Room::new());
        }
        0
    }

    /// The room called `room_id`, or `NotFound` where the id names none.
    pub fn get_room(&self, room_id: i32) -> (found: Result<&Room, ChatError>)
        requires
            self.wf(),
        ensures
            match found {
                Ok(room) => {
                    &&& self.has_room(room_id as int)
                    &&& room.spec_id() == room_id
                    &&& room.sessions() == self@[room_id as int]
                },
                Err(e) => !self.has_room(room_id as int) && e == ChatError::NotFound,
            },
    {
        if room_id < 0 || room_id as usize >= self.rooms.len() {
            return Err(ChatError::NotFound);
        }
        Ok(&self.rooms[room_id as usize])
    }

    /// The room called `room_id`, to be changed in place, or `NotFound` where
    /// the id names none. What the caller leaves in the room is what the
    /// registry then holds under that id; the other rooms stay as they were.
    pub fn get_room_mut(&mut self, room_id: i32) -> (found: Result<&mut Room, ChatError>)
        requires
            old(self).wf(),
        ensures
            match found {
                Ok(room) => {
                    &&& old(self).has_room(room_id as int)
                    &&& room.spec_id() == room_id
                    &&& room.sessions() == old(self)@[room_id as int]
                    &&& final(self)@ == old(self)@.update(room_id as int, final(room).sessions())
                    &&& final(room).spec_id() == room.spec_id() ==> final(self).wf()
                },
                Err(e) => {
                    &&& !old(self).has_room(room_id as int)
                    &&& e == ChatError::NotFound
                    &&& *final(self) == *old(self)
                },
            },
    {
        if room_id < 0 || room_id as usize >= self.rooms.len() {
            return Err(ChatError::NotFound);
        }
        Ok(&mut self.rooms[room_id as usize])
    }
}

} // verus!
