//! What holds of every layout that satisfies the invariant, stated for
//! single rooms and pairs of rooms.

use vstd::prelude::*;
use crate::catalog::{MAX_DEGREE, MIN_DEGREE};
use crate::graph::{
    can_link, extends, graph_full, lemma_total_degree_bound, linked, room_well_formed,
    total_degree, valid_graph, Graph,
};

verus! {

/// In a layout in which every room has reached the minimum degree, the
/// degree of each room lies between the minimum and the maximum.
pub proof fn lemma_degree_within_bounds(g: Graph, i: int)
    requires
        valid_graph(g),
        graph_full(g),
        0 <= i < g.len(),
    ensures
        MIN_DEGREE <= g[i].connections.len() <= MAX_DEGREE,
{
    assert(room_well_formed(g, i));
}

/// No room is connected to itself.
pub proof fn lemma_no_self_loop(g: Graph, i: int)
    requires
        valid_graph(g),
        0 <= i < g.len(),
    ensures
        !g[i].connections.contains(g[i].name_index),
        !linked(g, i, i),
{
    assert(room_well_formed(g, i));
}

/// No room lists the same peer at two places of its connections.
pub proof fn lemma_no_duplicate_peer(g: Graph, i: int, k: int, l: int)
    requires
        valid_graph(g),
        0 <= i < g.len(),
        0 <= k < g[i].connections.len(),
        0 <= l < g[i].connections.len(),
        k != l,
    ensures
        g[i].connections[k] != g[i].connections[l],
{
    assert(room_well_formed(g, i));
}

/// Connections are mutual: the room at `b` appears among the connections of
/// the room at `a` exactly if the room at `a` appears among those of the
/// room at `b`.
pub proof fn lemma_connections_mutual(g: Graph, a: int, b: int)
    requires
        valid_graph(g),
        0 <= a < g.len(),
        0 <= b < g.len(),
    ensures
        g[a].connections.contains(g[b].name_index) <==> g[b].connections.contains(
            g[a].name_index,
        ),
{
    assert(linked(g, a, b) ==> linked(g, b, a));
    assert(linked(g, b, a) ==> linked(g, a, b));
}

/// A saturated room is never an end of a new connection, whichever end.
pub proof fn lemma_saturated_room_not_linked(g: Graph, a: int, b: int)
    requires
        g[a].connections.len() >= MAX_DEGREE || g[b].connections.len() >= MAX_DEGREE,
    ensures
        !can_link(g, a, b),
{
}

/// A room that was saturated before connections were added has the
/// connections it had.
pub proof fn lemma_saturated_room_unchanged(before: Graph, after: Graph, i: int)
    requires
        extends(before, after),
        valid_graph(after),
        0 <= i < before.len(),
        before[i].connections.len() >= MAX_DEGREE,
    ensures
        after[i] == before[i],
{
    assert(room_well_formed(after, i));
    assert(before[i].connections.is_prefix_of(after[i].connections));
    assert(after[i].connections =~= before[i].connections);
}

/// Where every room has reached the degree `bound`, the sum of the degrees
/// is at least `bound` for each room.
pub proof fn lemma_total_degree_at_least(g: Graph, bound: nat)
    requires
        forall|i: int| 0 <= i < g.len() ==> (#[trigger] g[i]).degree() >= bound,
    ensures
        total_degree(g) >= bound * g.len(),
    decreases g.len(),
{
    if g.len() > 0 {
        let rest = g.drop_last();
        assert forall|i: int| 0 <= i < rest.len() implies (#[trigger] rest[i]).degree()
            >= bound by {
            assert(rest[i] == g[i]);
        }
        lemma_total_degree_at_least(rest, bound);
        assert(bound * g.len() == bound * rest.len() + bound) by (nonlinear_arith)
            requires
                g.len() == rest.len() + 1,
        ;
    }
}

/// The sum of the degrees of a layout in which every room has reached the
/// minimum degree lies between the minimum and the maximum for each room.
pub proof fn lemma_total_degree_within_bounds(g: Graph)
    requires
        valid_graph(g),
        graph_full(g),
    ensures
        MIN_DEGREE * g.len() <= total_degree(g) <= MAX_DEGREE * g.len(),
{
    assert forall|i: int| 0 <= i < g.len() implies (#[trigger] g[i]).degree()
        <= MAX_DEGREE as nat by {
        assert(room_well_formed(g, i));
    }
    lemma_total_degree_bound(g, MAX_DEGREE as nat);
    lemma_total_degree_at_least(g, MIN_DEGREE as nat);
}

} // verus!
