//! Choosing the rooms of a layout: distinct names drawn at random from the
//! catalog, with roles given by the order in which they were drawn.

use vstd::prelude::*;
use crate::catalog::CATALOG_SIZE;
use crate::error::GenerationError;
use crate::graph::{
    distinct_names, linked, room_well_formed, total_degree, valid_graph, Graph,
};
use crate::random::{sample_until, SAMPLE_ATTEMPTS};
use crate::room::{Room, RoomType, RoomView};

verus! {

/// The role of the room at `position` among `capacity` rooms: the first is
/// the start, the last is the end, those between are in the middle.
pub open spec fn role_at(position: int, capacity: int) -> RoomType {
    if position == 0 {
        RoomType::StartRoom
    } else if position < capacity - 1 {
        RoomType::MidRoom
    } else {
        RoomType::EndRoom
    }
}

/// The unconnected rooms that bear `names`, in that order.
pub open spec fn fresh_rooms(names: Seq<u8>) -> Graph {
    Seq::new(
        names.len(),
        |i: int|
            RoomView {
                name_index: names[i],
                connections: Seq::empty(),
                room_type: role_at(i, names.len() as int),
            },
    )
}

/// What a freshly chosen set of `capacity` rooms is: that many rooms, with
/// distinct names of the catalog, no connections, and roles by position.
pub open spec fn room_set(g: Graph, capacity: int) -> bool {
    &&& g.len() == capacity
    &&& distinct_names(g)
    &&& forall|i: int|
        0 <= i < g.len() ==> {
            &&& (#[trigger] g[i]).name_index < CATALOG_SIZE
            &&& g[i].connections == Seq::<u8>::empty()
            &&& g[i].room_type == role_at(i, capacity)
        }
}

/// How many rooms of `g` have the role `role`.
pub open spec fn count_role(g: Graph, role: RoomType) -> nat
    decreases g.len(),
{
    if g.len() == 0 {
        0
    } else {
        count_role(g.drop_last(), role) + if g.last().room_type == role {
            1nat
        } else {
            0nat
        }
    }
}

/// The role of the room at `index` among `capacity` rooms.
pub fn role_for(index: usize, capacity: usize) -> (role: RoomType)
    ensures
        role == role_at(index as int, capacity as int),
{
    if index == 0 {
        RoomType::StartRoom
    } else if capacity > 0 && index < capacity - 1 {
        RoomType::MidRoom
    } else {
        RoomType::EndRoom
    }
}

/// Whether `index` is among `names`.
pub fn name_taken(names: &Vec<u8>, index: u8) -> (taken: bool)
    ensures
        taken == names@.contains(index),
{
    let mut k: usize = 0;
    while k < names.len()
        invariant
            k <= names.len(),
            forall|j: int| 0 <= j < k ==> names@[j] != index,
        decreases names.len() - k,
    {
        if names[k] == index {
            return true;
        }
        k = k + 1;
    }
    false
}

/// Makes the unconnected rooms that bear `names`, in that order.
pub fn rooms_from_names(names: &Vec<u8>) -> (rooms: Vec<Room>)
    ensures
        rooms.deep_view() == fresh_rooms(names@),
{
    let capacity: usize = names.len();
    let mut rooms: Vec<Room> = Vec::with_capacity(capacity);
    let mut index: usize = 0;
    while index < capacity
        invariant
            capacity == names.len(),
            index <= capacity,
            rooms@.len() == index,
            forall|i: int| 0 <= i < index ==> (#[trigger] rooms@[i])@ == fresh_rooms(names@)[i],
        decreases capacity - index,
    {
        rooms.push(Room::new(names[index], role_for(index, capacity)));
        index = index + 1;
    }
    assert(rooms.deep_view() =~= fresh_rooms(names@));
    rooms
}

impl Room {
    /// Chooses `capacity` rooms at random.
    ///
    /// Names are drawn from the catalog until `capacity` distinct ones are
    /// found; a name that was chosen before is rejected and another is
    /// drawn. A capacity above the size of the catalog is refused. `Stalled` means that one of the names was
    /// not found within `SAMPLE_ATTEMPTS` draws.
    pub fn get_multiple_rooms(capacity: usize) -> (result: Result<Vec<Room>, GenerationError>)
        ensures
            capacity > CATALOG_SIZE <==> result matches Err(
                GenerationError::CapacityExceedsCatalog,
            ),
            result matches Ok(rooms) ==> room_set(rooms.deep_view(), capacity as int),
            result matches Err(error) ==> error == GenerationError::CapacityExceedsCatalog || error
                == GenerationError::Stalled,
            capacity == 0 ==> result is Ok,
    {
        if capacity > CATALOG_SIZE {
            return Err(GenerationError::CapacityExceedsCatalog);
        }
        let mut num_vec: Vec<u8> = Vec::with_capacity(capacity);
        while num_vec.len() < capacity
            invariant
                num_vec@.len() <= capacity <= CATALOG_SIZE,
                num_vec@.no_duplicates(),
                forall|k: int| 0 <= k < num_vec@.len() ==> num_vec@[k] < CATALOG_SIZE,
            decreases capacity - num_vec@.len(),
        {
            let chosen = &num_vec;
            let is_new = |candidate: usize| -> (fresh: bool)
                requires
                    candidate < CATALOG_SIZE,
                ensures
                    fresh == !chosen@.contains(candidate as u8),
                { !name_taken(chosen, candidate as u8) };
            match sample_until(CATALOG_SIZE, SAMPLE_ATTEMPTS, is_new) {
                Some(new_num) => {
                    num_vec.push(new_num as u8);
                },
                None => {
                    return Err(GenerationError::Stalled);
                },
            }
        }
        let rooms = rooms_from_names(&num_vec);
        proof {
            lemma_fresh_rooms_are_room_set(num_vec@);
        }
        Ok(rooms)
    }
}

/// Unconnected rooms with distinct names of the catalog are a room set.
pub proof fn lemma_fresh_rooms_are_room_set(names: Seq<u8>)
    requires
        names.no_duplicates(),
        forall|k: int| 0 <= k < names.len() ==> names[k] < CATALOG_SIZE,
    ensures
        room_set(fresh_rooms(names), names.len() as int),
{
}

/// A room set is a layout without connections: it satisfies the invariant
/// that adding connections maintains.
pub proof fn lemma_room_set_is_valid(g: Graph, capacity: int)
    requires
        room_set(g, capacity),
    ensures
        valid_graph(g),
{
    assert forall|i: int| 0 <= i < g.len() implies #[trigger] room_well_formed(g, i) by {
        assert(g[i].connections == Seq::<u8>::empty());
    }
    assert forall|a: int, b: int| 0 <= a < g.len() && 0 <= b < g.len() implies !linked(g, a, b) by {
        assert(g[a].connections == Seq::<u8>::empty());
    }
}

/// How many of the first `n` rooms of a room set have each role.
proof fn lemma_count_roles_prefix(g: Graph, capacity: int, n: int)
    requires
        room_set(g, capacity),
        capacity >= 2,
        0 <= n <= capacity,
    ensures
        count_role(g.take(n), RoomType::StartRoom) == if n >= 1 {
            1nat
        } else {
            0nat
        },
        count_role(g.take(n), RoomType::EndRoom) == if n == capacity {
            1nat
        } else {
            0nat
        },
        count_role(g.take(n), RoomType::MidRoom) == if n == 0 {
            0
        } else if n == capacity {
            n - 2
        } else {
            n - 1
        },
    decreases n,
{
    if n > 0 {
        lemma_count_roles_prefix(g, capacity, n - 1);
        assert(g.take(n).drop_last() =~= g.take(n - 1));
        assert(g.take(n).last() == g[n - 1]);
    }
}

/// A set of two or more rooms has exactly one start room and exactly one
/// end room; all the others are in the middle.
pub proof fn lemma_room_set_roles(g: Graph, capacity: int)
    requires
        room_set(g, capacity),
        capacity >= 2,
    ensures
        count_role(g, RoomType::StartRoom) == 1,
        count_role(g, RoomType::EndRoom) == 1,
        count_role(g, RoomType::MidRoom) == capacity - 2,
        g[0].room_type == RoomType::StartRoom,
        g[capacity - 1].room_type == RoomType::EndRoom,
{
    lemma_count_roles_prefix(g, capacity, capacity);
    assert(g.take(capacity) =~= g);
}

/// Rooms without connections have a total degree of zero.
proof fn lemma_unconnected_total_degree(g: Graph)
    requires
        forall|i: int| 0 <= i < g.len() ==> (#[trigger] g[i]).degree() == 0,
    ensures
        total_degree(g) == 0,
    decreases g.len(),
{
    if g.len() > 0 {
        let rest = g.drop_last();
        assert forall|i: int| 0 <= i < rest.len() implies (#[trigger] rest[i]).degree() == 0 by {
            assert(rest[i] == g[i]);
        }
        lemma_unconnected_total_degree(rest);
    }
}

/// The rooms of a room set have no connections at all.
pub proof fn lemma_room_set_total_degree(g: Graph, capacity: int)
    requires
        room_set(g, capacity),
    ensures
        total_degree(g) == 0,
{
    assert forall|i: int| 0 <= i < g.len() implies (#[trigger] g[i]).degree() == 0 by {
        assert(g[i].connections == Seq::<u8>::empty());
    }
    lemma_unconnected_total_degree(g);
}

} // verus!
