//! Rooms: a catalog name, a structural role, and the peers a room is linked to.

use vstd::prelude::*;
use crate::catalog::{catalog_name, room_name, CATALOG_SIZE, MAX_DEGREE};

verus! {

/// The structural role of a room, fixed when the room is created.
#[derive(Clone, Copy, Debug, PartialEq, Eq, Structural)]
pub enum RoomType {
    StartRoom,
    MidRoom,
    EndRoom,
}

/// The tag under which a role is written out.
pub open spec fn role_label(room_type: RoomType) -> Seq<char> {
    match room_type {
        RoomType::StartRoom => "START_ROOM"@,
        RoomType::MidRoom => "MID_ROOM"@,
        RoomType::EndRoom => "END_ROOM"@,
    }
}

impl RoomType {
    /// The tag of this role.
    pub fn label(&self) -> (label: &'static str)
        ensures
            label@ == role_label(*self),
    {
        match self {
            RoomType::StartRoom => "START_ROOM",
            RoomType::MidRoom => "MID_ROOM",
            RoomType::EndRoom => "END_ROOM",
        }
    }
}

/// A room of a layout.
///
/// `connections` holds the catalog indices of the rooms this one is linked
/// to, in the order in which the links were made.
#[derive(Clone, Debug)]
pub struct Room {
    pub name_index: u8,
    pub connections: Vec<u8>,
    pub room_type: RoomType,
}

/// A room as a mathematical value.
pub struct RoomView {
    pub name_index: u8,
    pub connections: Seq<u8>,
    pub room_type: RoomType,
}

impl View for Room {
    type V = RoomView;

    open spec fn view(&self) -> RoomView {
        RoomView {
            name_index: self.name_index,
            connections: self.connections@,
            room_type: self.room_type,
        }
    }
}

impl DeepView for Room {
    type V = RoomView;

    open spec fn deep_view(&self) -> RoomView {
        self@
    }
}

impl RoomView {
    /// The number of connections of the room.
    pub open spec fn degree(self) -> nat {
        self.connections.len()
    }

    /// Whether the room may still take a connection.
    pub open spec fn has_capacity(self) -> bool {
        self.degree() < MAX_DEGREE
    }

    /// Whether the room lists `peer` among its connections.
    pub open spec fn links_to(self, peer: u8) -> bool {
        self.connections.contains(peer)
    }

    /// Whether the name of the room and of each of its peers is in the catalog.
    pub open spec fn in_catalog(self) -> bool {
        &&& self.name_index < CATALOG_SIZE
        &&& forall|k: int| 0 <= k < self.connections.len() ==> self.connections[k] < CATALOG_SIZE
    }

    /// The names of the peers, in the order of the connections.
    pub open spec fn peer_names(self) -> Seq<Seq<char>> {
        Seq::new(self.connections.len(), |k: int| catalog_name(self.connections[k] as int))
    }
}

impl Room {
    /// A room without connections.
    pub fn new(name_index: u8, room_type: RoomType) -> (room: Room)
        ensures
            room@ == (RoomView { name_index, connections: Seq::empty(), room_type }),
    {
        Room { name_index, room_type, connections: Vec::with_capacity(MAX_DEGREE) }
    }

    /// Whether `room` has fewer connections than a room may have.
    pub fn can_add_connection(room: &Room) -> (free: bool)
        ensures
            free == room@.has_capacity(),
    {
        room.connections.len() < MAX_DEGREE
    }

    /// Appends `second_room_index` to the connections, unless the room is
    /// saturated; then it is left as it was and `None` is returned.
    pub fn connect_rooms(&mut self, second_room_index: u8) -> (added: Option<()>)
        ensures
            added.is_some() == old(self)@.has_capacity(),
            added.is_some() ==> final(self)@ == (RoomView {
                connections: old(self)@.connections.push(second_room_index),
                ..old(self)@
            }),
            added.is_none() ==> final(self)@ == old(self)@,
    {
        if !Room::can_add_connection(self) {
            return None;
        }
        self.connections.push(second_room_index);
        Some(())
    }

    /// Whether the name of the room and of each of its peers is in the
    /// catalog.
    pub fn is_in_catalog(&self) -> (known: bool)
        ensures
            known == self@.in_catalog(),
    {
        if self.name_index as usize >= CATALOG_SIZE {
            return false;
        }
        let mut k: usize = 0;
        while k < self.connections.len()
            invariant
                k <= self.connections.len(),
                forall|j: int| 0 <= j < k ==> self.connections@[j] < CATALOG_SIZE,
            decreases self.connections.len() - k,
        {
            if self.connections[k] as usize >= CATALOG_SIZE {
                assert(!(self@.connections[k as int] < CATALOG_SIZE));
                return false;
            }
            k = k + 1;
        }
        true
    }

    /// The name of the room.
    pub fn name(&self) -> (name: &'static str)
        requires
            self@.name_index < CATALOG_SIZE,
        ensures
            name@ == catalog_name(self@.name_index as int),
    {
        room_name(self.name_index)
    }

    /// The names of the connected rooms, in the order of the connections.
    pub fn connection_names(&self) -> (names: Vec<&'static str>)
        requires
            self@.in_catalog(),
        ensures
            names.deep_view() == self@.peer_names(),
    {
        let mut names: Vec<&'static str> = Vec::with_capacity(self.connections.len());
        let mut k: usize = 0;
        while k < self.connections.len()
            invariant
                self@.in_catalog(),
                k <= self.connections.len(),
                names@.len() == k,
                forall|j: int| 0 <= j < k ==> names@[j]@ == catalog_name(self.connections@[j] as int),
            decreases self.connections.len() - k,
        {
            assert(self@.connections[k as int] < CATALOG_SIZE);
            names.push(room_name(self.connections[k]));
            k = k + 1;
        }
        assert(names.deep_view() =~= self@.peer_names());
        names
    }
}

} // verus!
