//! Wiring the rooms of a layout: connections are added between rooms chosen
//! at random until every room has the minimum number of them.

use vstd::prelude::*;
use crate::catalog::{MAX_DEGREE, MIN_DEGREE};
use crate::error::GenerationError;
use crate::graph::{
    can_link, extends, graph_full, lemma_extends_transitive, lemma_total_degree_bound,
    lemma_with_edge_valid, room_well_formed, total_degree, valid_graph, with_edge,
};
use crate::random::{random_below, sample_until, SAMPLE_ATTEMPTS};
use crate::room::Room;

verus! {

/// A random position among `rooms`.
pub fn get_random_room(rooms: &Vec<Room>) -> (position: usize)
    requires
        rooms.len() > 0,
    ensures
        position < rooms.len(),
{
    random_below(rooms.len())
}

/// Whether every room has at least the minimum number of connections.
pub fn graph_is_full(rooms: &Vec<Room>) -> (full: bool)
    ensures
        full == graph_full(rooms.deep_view()),
{
    let mut i: usize = 0;
    while i < rooms.len()
        invariant
            i <= rooms.len(),
            forall|j: int| 0 <= j < i ==> (#[trigger] rooms.deep_view()[j]).degree() >= MIN_DEGREE,
        decreases rooms.len() - i,
    {
        if rooms[i].connections.len() < MIN_DEGREE {
            assert(rooms.deep_view()[i as int].degree() < MIN_DEGREE);
            return false;
        }
        i = i + 1;
    }
    true
}

/// Whether `first_room` lists `second_room` among its connections.
pub fn connection_exists(first_room: &Room, second_room: &Room) -> (exists: bool)
    ensures
        exists == first_room@.links_to(second_room@.name_index),
{
    let mut k: usize = 0;
    while k < first_room.connections.len()
        invariant
            k <= first_room.connections.len(),
            forall|j: int| 0 <= j < k ==> first_room.connections@[j] != second_room.name_index,
        decreases first_room.connections.len() - k,
    {
        if first_room.connections[k] == second_room.name_index {
            return true;
        }
        k = k + 1;
    }
    false
}

/// Whether a connection between the rooms at `first` and `second` may be
/// added.
pub fn can_connect(rooms: &Vec<Room>, first: usize, second: usize) -> (admitted: bool)
    ensures
        admitted == can_link(rooms.deep_view(), first as int, second as int),
{
    first < rooms.len() && second < rooms.len() && first != second && Room::can_add_connection(
        &rooms[first],
    ) && Room::can_add_connection(&rooms[second]) && !connection_exists(
        &rooms[first],
        &rooms[second],
    )
}

/// Adds a connection between the rooms at `first` and `second`, if it may be
/// added: each room then lists the other as its newest peer. Otherwise
/// nothing changes.
pub fn link_rooms(rooms: &mut Vec<Room>, first: usize, second: usize) -> (added: bool)
    ensures
        added == can_link(old(rooms).deep_view(), first as int, second as int),
        added ==> final(rooms).deep_view() == with_edge(
            old(rooms).deep_view(),
            first as int,
            second as int,
        ),
        !added ==> final(rooms).deep_view() == old(rooms).deep_view(),
{
    if !can_connect(rooms, first, second) {
        return false;
    }
    let second_room_index = rooms[second].name_index;
    let first_room_index = rooms[first].name_index;
    let _ = rooms[first].connect_rooms(second_room_index);
    let _ = rooms[second].connect_rooms(first_room_index);
    assert(rooms.deep_view() =~= with_edge(old(rooms).deep_view(), first as int, second as int));
    true
}

/// Chooses at random a room that may still take a connection.
///
/// `None` means that none was found within `SAMPLE_ATTEMPTS` draws, and so
/// that there is no room or that some room is saturated: where every room
/// may take a connection, the first draw is returned.
pub fn select_first_endpoint(rooms: &Vec<Room>) -> (first: Option<usize>)
    ensures
        first matches Some(position) ==> position < rooms.len()
            && rooms.deep_view()[position as int].has_capacity(),
        first is None ==> rooms.len() == 0 || exists|position: int|
            0 <= position < rooms.len() && !(#[trigger] rooms.deep_view()[position]).has_capacity(),
{
    let has_capacity = |position: usize| -> (free: bool)
        requires
            position < rooms.len(),
        ensures
            free == rooms.deep_view()[position as int].has_capacity(),
        { Room::can_add_connection(&rooms[position]) };
    let first = sample_until(rooms.len(), SAMPLE_ATTEMPTS, has_capacity);
    proof {
        if first is None && rooms.len() > 0 {
            let rejected = choose|candidate: usize|
                candidate < rooms.len() && #[trigger] call_ensures(
                    has_capacity,
                    (candidate,),
                    false,
                );
            assert(!rooms.deep_view()[rejected as int].has_capacity());
        }
    }
    first
}

/// Chooses at random a room to which the room at `first` may be connected.
/// `None` means that none was found within `SAMPLE_ATTEMPTS` draws.
pub fn select_second_endpoint(rooms: &Vec<Room>, first: usize) -> (second: Option<usize>)
    ensures
        second matches Some(position) ==> can_link(
            rooms.deep_view(),
            first as int,
            position as int,
        ),
{
    let admits = |position: usize| -> (admitted: bool)
        ensures
            admitted == can_link(rooms.deep_view(), first as int, position as int),
        { can_connect(rooms, first, position) };
    sample_until(rooms.len(), SAMPLE_ATTEMPTS, admits)
}

/// Adds connections between rooms chosen at random until every room has at
/// least `MIN_DEGREE` of them.
///
/// Each round chooses a room that is not saturated, then a second one that
/// is not saturated either, differs from the first and is not connected to
/// it, and connects the two. With `MIN_DEGREE` rooms or fewer no room can
/// reach the minimum, and nothing is done. `Stalled` means that a choice
/// found no room within `SAMPLE_ATTEMPTS` draws; the connections made until
/// then stay.
pub fn generate_graph(rooms: &mut Vec<Room>) -> (result: Result<(), GenerationError>)
    requires
        valid_graph(old(rooms).deep_view()),
    ensures
        valid_graph(final(rooms).deep_view()),
        extends(old(rooms).deep_view(), final(rooms).deep_view()),
        (total_degree(final(rooms).deep_view()) - total_degree(old(rooms).deep_view())) % 2 == 0,
        old(rooms).len() <= MIN_DEGREE <==> result matches Err(
            GenerationError::DegreeBoundsIncompatible,
        ),
        result is Ok <==> old(rooms).len() > MIN_DEGREE && graph_full(final(rooms).deep_view()),
        result matches Err(error) ==> error == GenerationError::DegreeBoundsIncompatible || error
            == GenerationError::Stalled,
        result matches Err(GenerationError::DegreeBoundsIncompatible) ==> final(rooms).deep_view()
            == old(rooms).deep_view(),
        old(rooms).len() > MIN_DEGREE && graph_full(old(rooms).deep_view()) ==> result is Ok
            && final(rooms).deep_view() == old(rooms).deep_view(),
{
    let ghost start = rooms.deep_view();
    proof {
        lemma_extends_transitive(start, start, start);
    }
    if rooms.len() <= MIN_DEGREE {
        return Err(GenerationError::DegreeBoundsIncompatible);
    }
    while !graph_is_full(rooms)
        invariant
            start == old(rooms).deep_view(),
            rooms.len() > MIN_DEGREE,
            valid_graph(rooms.deep_view()),
            extends(start, rooms.deep_view()),
            (total_degree(rooms.deep_view()) - total_degree(start)) % 2 == 0,
            graph_full(start) ==> rooms.deep_view() == start,
        decreases MAX_DEGREE * rooms.len() - total_degree(rooms.deep_view()),
    {
        let ghost before = rooms.deep_view();
        let first = match select_first_endpoint(rooms) {
            Some(position) => position,
            None => {
                return Err(GenerationError::Stalled);
            },
        };
        let second = match select_second_endpoint(rooms, first) {
            Some(position) => position,
            None => {
                return Err(GenerationError::Stalled);
            },
        };
        let _ = link_rooms(rooms, first, second);
        proof {
            let after = rooms.deep_view();
            lemma_with_edge_valid(before, first as int, second as int);
            lemma_extends_transitive(start, before, after);
            assert forall|i: int| 0 <= i < after.len() implies (#[trigger] after[i]).degree()
                <= MAX_DEGREE as nat by {
                assert(room_well_formed(after, i));
            }
            lemma_total_degree_bound(after, MAX_DEGREE as nat);
        }
    }
    Ok(())
}

} // verus!
