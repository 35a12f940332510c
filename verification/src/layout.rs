//! Generating a whole layout: the rooms are chosen, then wired.

use vstd::prelude::*;
use crate::connect::generate_graph;
use crate::error::GenerationError;
use crate::graph::{graph_full, total_degree, valid_graph, Graph};
use crate::room::Room;
use crate::room_set::{lemma_room_set_is_valid, lemma_room_set_total_degree, role_at};
use crate::validate::{capacity_verdict, validate_capacity};

verus! {

/// What a finished layout of `capacity` rooms is: that many rooms, with
/// roles by position, which satisfy the invariant of a layout and have each
/// reached the minimum degree.
pub open spec fn finished_layout(g: Graph, capacity: int) -> bool {
    &&& g.len() == capacity
    &&& valid_graph(g)
    &&& graph_full(g)
    &&& forall|i: int| 0 <= i < g.len() ==> (#[trigger] g[i]).room_type == role_at(i, capacity)
}

/// Generates a layout of `capacity` rooms.
///
/// The capacity is checked before anything is drawn: a capacity that
/// `validate_capacity` refuses gives that error. `Stalled` means that a
/// random choice found no candidate within the attempts it was allowed; no
/// partly wired layout is handed out.
pub fn generate_layout(capacity: usize) -> (result: Result<Vec<Room>, GenerationError>)
    ensures
        capacity_verdict(capacity as int) matches Err(refusal) ==> result matches Err(error)
            && error == refusal,
        result matches Ok(rooms) ==> finished_layout(rooms.deep_view(), capacity as int)
            && total_degree(rooms.deep_view()) % 2 == 0,
        result matches Err(error) ==> capacity_verdict(capacity as int) == Err::<
            (),
            GenerationError,
        >(error) || (capacity_verdict(capacity as int) is Ok && error == GenerationError::Stalled),
{
    match validate_capacity(capacity) {
        Err(refusal) => {
            return Err(refusal);
        },
        Ok(()) => {},
    }
    let mut rooms = match Room::get_multiple_rooms(capacity) {
        Ok(rooms) => rooms,
        Err(error) => {
            return Err(error);
        },
    };
    proof {
        lemma_room_set_is_valid(rooms.deep_view(), capacity as int);
        lemma_room_set_total_degree(rooms.deep_view(), capacity as int);
    }
    match generate_graph(&mut rooms) {
        Ok(()) => Ok(rooms),
        Err(error) => Err(error),
    }
}

} // verus!
