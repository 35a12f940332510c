//! Checking at run time what a layout must satisfy, and the parameters it
//! is generated with.

use vstd::prelude::*;
use crate::catalog::{CATALOG_SIZE, MAX_DEGREE, MIN_DEGREE};
use crate::connect::connection_exists;
use crate::error::GenerationError;
use crate::graph::{distinct_names, has_room, linked, room_well_formed, symmetric, valid_graph};
use crate::room::Room;

verus! {

/// What `validate_capacity` answers: a capacity above the catalog is too
/// large, one of `MIN_DEGREE` or less is too small for the degree bounds.
pub open spec fn capacity_verdict(capacity: int) -> Result<(), GenerationError> {
    if capacity > CATALOG_SIZE {
        Err(GenerationError::CapacityExceedsCatalog)
    } else if capacity <= MIN_DEGREE {
        Err(GenerationError::DegreeBoundsIncompatible)
    } else {
        Ok(())
    }
}

/// Decides whether a layout of `capacity` rooms can be generated at all.
pub fn validate_capacity(capacity: usize) -> (verdict: Result<(), GenerationError>)
    ensures
        verdict == capacity_verdict(capacity as int),
{
    if capacity > CATALOG_SIZE {
        Err(GenerationError::CapacityExceedsCatalog)
    } else if capacity <= MIN_DEGREE {
        Err(GenerationError::DegreeBoundsIncompatible)
    } else {
        Ok(())
    }
}

/// Whether some room bears the catalog index `name`.
pub fn contains_room(rooms: &Vec<Room>, name: u8) -> (found: bool)
    ensures
        found == has_room(rooms.deep_view(), name),
{
    let mut j: usize = 0;
    while j < rooms.len()
        invariant
            j <= rooms.len(),
            forall|i: int| 0 <= i < j ==> (#[trigger] rooms.deep_view()[i]).name_index != name,
        decreases rooms.len() - j,
    {
        if rooms[j].name_index == name {
            assert(rooms.deep_view()[j as int].name_index == name);
            return true;
        }
        j = j + 1;
    }
    false
}

/// Whether no two rooms share a name.
pub fn has_distinct_names(rooms: &Vec<Room>) -> (distinct: bool)
    ensures
        distinct == distinct_names(rooms.deep_view()),
{
    let ghost g = rooms.deep_view();
    let mut i: usize = 0;
    while i < rooms.len()
        invariant
            g == rooms.deep_view(),
            i <= rooms.len(),
            forall|a: int, b: int|
                0 <= a < i && 0 <= b < g.len() && a != b ==> (#[trigger] g[a]).name_index != (
                #[trigger] g[b]).name_index,
        decreases rooms.len() - i,
    {
        let mut j: usize = 0;
        while j < rooms.len()
            invariant
                g == rooms.deep_view(),
                i < rooms.len(),
                j <= rooms.len(),
                forall|b: int|
                    0 <= b < j && b != i ==> g[i as int].name_index != (#[trigger] g[b]).name_index,
            decreases rooms.len() - j,
        {
            if j != i && rooms[j].name_index == rooms[i].name_index {
                assert(g[i as int].name_index == g[j as int].name_index);
                return false;
            }
            j = j + 1;
        }
        i = i + 1;
    }
    assert forall|a: int, b: int| 0 <= a < g.len() && 0 <= b < g.len() && a != b implies (
    #[trigger] g[a]).name_index != (#[trigger] g[b]).name_index by {}
    true
}

/// Whether `room` lists no peer twice.
pub fn has_no_repeated_peer(room: &Room) -> (clean: bool)
    ensures
        clean == room@.connections.no_duplicates(),
{
    let ghost s = room@.connections;
    let mut i: usize = 0;
    while i < room.connections.len()
        invariant
            s == room.connections@,
            i <= s.len(),
            forall|a: int, b: int| 0 <= a < i && 0 <= b < s.len() && a != b ==> s[a] != s[b],
        decreases s.len() - i,
    {
        let mut j: usize = 0;
        while j < room.connections.len()
            invariant
                s == room.connections@,
                i < s.len(),
                j <= s.len(),
                forall|b: int| 0 <= b < j && b != i ==> s[i as int] != s[b],
            decreases s.len() - j,
        {
            if j != i && room.connections[j] == room.connections[i] {
                return false;
            }
            j = j + 1;
        }
        i = i + 1;
    }
    true
}

/// Whether each peer that `rooms[i]` lists is one of `rooms`.
fn peers_are_rooms(rooms: &Vec<Room>, i: usize) -> (closed: bool)
    requires
        i < rooms.len(),
    ensures
        closed == (forall|k: int|
            0 <= k < rooms.deep_view()[i as int].connections.len() ==> has_room(
                rooms.deep_view(),
                #[trigger] rooms.deep_view()[i as int].connections[k],
            )),
{
    let ghost g = rooms.deep_view();
    let mut k: usize = 0;
    while k < rooms[i].connections.len()
        invariant
            g == rooms.deep_view(),
            i < rooms.len(),
            k <= g[i as int].connections.len(),
            forall|j: int| 0 <= j < k ==> has_room(g, #[trigger] g[i as int].connections[j]),
        decreases g[i as int].connections.len() - k,
    {
        if !contains_room(rooms, rooms[i].connections[k]) {
            assert(!has_room(g, g[i as int].connections[k as int]));
            return false;
        }
        k = k + 1;
    }
    true
}

/// Whether the room at `i` satisfies what holds of each single room of a
/// layout.
pub fn room_is_well_formed(rooms: &Vec<Room>, i: usize) -> (well_formed: bool)
    requires
        i < rooms.len(),
    ensures
        well_formed == room_well_formed(rooms.deep_view(), i as int),
{
    let room = &rooms[i];
    (room.name_index as usize) < CATALOG_SIZE && room.connections.len() <= MAX_DEGREE
        && has_no_repeated_peer(room) && !connection_exists(room, room) && peers_are_rooms(
        rooms,
        i,
    )
}

/// Whether every connection is listed at both of its ends.
pub fn is_symmetric(rooms: &Vec<Room>) -> (mutual: bool)
    ensures
        mutual == symmetric(rooms.deep_view()),
{
    let ghost g = rooms.deep_view();
    let mut a: usize = 0;
    while a < rooms.len()
        invariant
            g == rooms.deep_view(),
            a <= rooms.len(),
            forall|x: int, y: int|
                0 <= x < a && 0 <= y < g.len() ==> (#[trigger] linked(g, x, y) ==> linked(g, y, x)),
        decreases rooms.len() - a,
    {
        let mut b: usize = 0;
        while b < rooms.len()
            invariant
                g == rooms.deep_view(),
                a < rooms.len(),
                b <= rooms.len(),
                forall|y: int|
                    0 <= y < b ==> (#[trigger] linked(g, a as int, y) ==> linked(g, y, a as int)),
            decreases rooms.len() - b,
        {
            if connection_exists(&rooms[a], &rooms[b]) && !connection_exists(
                &rooms[b],
                &rooms[a],
            ) {
                assert(linked(g, a as int, b as int) && !linked(g, b as int, a as int));
                return false;
            }
            b = b + 1;
        }
        a = a + 1;
    }
    true
}

/// Whether `rooms` satisfy the invariant of a layout.
pub fn is_valid_graph(rooms: &Vec<Room>) -> (valid: bool)
    ensures
        valid == valid_graph(rooms.deep_view()),
{
    let ghost g = rooms.deep_view();
    let mut i: usize = 0;
    while i < rooms.len()
        invariant
            g == rooms.deep_view(),
            i <= rooms.len(),
            forall|j: int| 0 <= j < i ==> #[trigger] room_well_formed(g, j),
        decreases rooms.len() - i,
    {
        if !room_is_well_formed(rooms, i) {
            return false;
        }
        i = i + 1;
    }
    has_distinct_names(rooms) && is_symmetric(rooms)
}

} // verus!
