//! The mathematical model of a layout: a sequence of rooms read as an
//! undirected graph, and what holds of it while connections are added.

use vstd::prelude::*;
use vstd::seq_lib::lemma_seq_contains_after_push;
use crate::catalog::{CATALOG_SIZE, MAX_DEGREE, MIN_DEGREE};
use crate::room::RoomView;

verus! {

/// A layout as a mathematical value: its rooms in the order of creation.
pub type Graph = Seq<RoomView>;

/// Whether some room of `g` bears the catalog index `name`.
pub open spec fn has_room(g: Graph, name: u8) -> bool {
    exists|j: int| 0 <= j < g.len() && (#[trigger] g[j]).name_index == name
}

/// No two rooms of `g` share a name.
pub open spec fn distinct_names(g: Graph) -> bool {
    forall|i: int, j: int|
        0 <= i < g.len() && 0 <= j < g.len() && i != j ==> (#[trigger] g[i]).name_index != (
        #[trigger] g[j]).name_index
}

/// Whether the room at position `a` lists the room at position `b` as a peer.
pub open spec fn linked(g: Graph, a: int, b: int) -> bool {
    g[a].links_to(g[b].name_index)
}

/// What holds of each single room of a layout: its name is in the catalog,
/// it has no more connections than the maximum, it lists no peer twice, it
/// does not list itself, and each peer it lists is a room of the layout.
pub open spec fn room_well_formed(g: Graph, i: int) -> bool {
    &&& g[i].name_index < CATALOG_SIZE
    &&& g[i].degree() <= MAX_DEGREE
    &&& g[i].connections.no_duplicates()
    &&& !g[i].links_to(g[i].name_index)
    &&& forall|k: int|
        0 <= k < g[i].connections.len() ==> has_room(g, #[trigger] g[i].connections[k])
}

/// Every connection is listed at both of its ends.
pub open spec fn symmetric(g: Graph) -> bool {
    forall|a: int, b: int|
        0 <= a < g.len() && 0 <= b < g.len() ==> (#[trigger] linked(g, a, b) ==> linked(g, b, a))
}

/// The invariant of a layout, at every stage of its construction.
pub open spec fn valid_graph(g: Graph) -> bool {
    &&& forall|i: int| 0 <= i < g.len() ==> #[trigger] room_well_formed(g, i)
    &&& distinct_names(g)
    &&& symmetric(g)
}

/// Every room has reached the minimum number of connections.
pub open spec fn graph_full(g: Graph) -> bool {
    forall|i: int| 0 <= i < g.len() ==> (#[trigger] g[i]).degree() >= MIN_DEGREE
}

/// `after` has the rooms of `before`, in the same order, with the same names
/// and roles, and each room has kept its earlier connections in their order.
pub open spec fn extends(before: Graph, after: Graph) -> bool {
    &&& after.len() == before.len()
    &&& forall|i: int|
        0 <= i < before.len() ==> {
            &&& (#[trigger] after[i]).name_index == before[i].name_index
            &&& after[i].room_type == before[i].room_type
            &&& before[i].connections.is_prefix_of(after[i].connections)
        }
}

/// The sum of the degrees of all rooms.
pub open spec fn total_degree(g: Graph) -> nat
    decreases g.len(),
{
    if g.len() == 0 {
        0
    } else {
        total_degree(g.drop_last()) + g.last().degree()
    }
}

/// Whether a connection between the rooms at positions `a` and `b` may be
/// added: both are rooms of the layout, they differ, neither is saturated,
/// and they are not connected yet.
pub open spec fn can_link(g: Graph, a: int, b: int) -> bool {
    &&& 0 <= a < g.len()
    &&& 0 <= b < g.len()
    &&& a != b
    &&& g[a].has_capacity()
    &&& g[b].has_capacity()
    &&& !linked(g, a, b)
}

/// The room `r` with `peer` appended to its connections.
pub open spec fn with_peer(r: RoomView, peer: u8) -> RoomView {
    RoomView { connections: r.connections.push(peer), ..r }
}

/// The layout `g` with one more connection, between the rooms at positions
/// `a` and `b`.
pub open spec fn with_edge(g: Graph, a: int, b: int) -> Graph {
    g.update(a, with_peer(g[a], g[b].name_index)).update(b, with_peer(g[b], g[a].name_index))
}

/// After a connection between `a` and `b` was added, two rooms are linked
/// exactly if they were linked before or are the two that were connected.
pub proof fn lemma_with_edge_linked(g: Graph, a: int, b: int, x: int, y: int)
    requires
        distinct_names(g),
        0 <= a < g.len(),
        0 <= b < g.len(),
        a != b,
        0 <= x < g.len(),
        0 <= y < g.len(),
    ensures
        linked(with_edge(g, a, b), x, y) <==> linked(g, x, y) || (x == a && y == b) || (x == b
            && y == a),
{
    let h = with_edge(g, a, b);
    assert(h[y].name_index == g[y].name_index);
    if x == a {
        lemma_seq_contains_after_push(g[a].connections, g[b].name_index, g[y].name_index);
    } else if x == b {
        lemma_seq_contains_after_push(g[b].connections, g[a].name_index, g[y].name_index);
    }
}

/// A room that was not linked to `peer`, and listed no peer twice, lists no
/// peer twice after `peer` is appended.
proof fn lemma_push_fresh_no_duplicates(s: Seq<u8>, peer: u8)
    requires
        s.no_duplicates(),
        !s.contains(peer),
    ensures
        s.push(peer).no_duplicates(),
{
    let t = s.push(peer);
    assert forall|i: int, j: int| 0 <= i < t.len() && 0 <= j < t.len() && i != j implies t[i]
        != t[j] by {
        if i < s.len() && j < s.len() {
        } else if i < s.len() {
            assert(s[i] != peer);
        } else {
            assert(s[j] != peer);
        }
    }
}

/// Adding a connection that `can_link` admits keeps the invariant of the
/// layout, keeps what was there, and raises the sum of the degrees by two.
pub proof fn lemma_with_edge_valid(g: Graph, a: int, b: int)
    requires
        valid_graph(g),
        can_link(g, a, b),
    ensures
        valid_graph(with_edge(g, a, b)),
        extends(g, with_edge(g, a, b)),
        total_degree(with_edge(g, a, b)) == total_degree(g) + 2,
{
    let h = with_edge(g, a, b);
    let na = g[a].name_index;
    let nb = g[b].name_index;
    assert(room_well_formed(g, a));
    assert(room_well_formed(g, b));
    assert(!linked(g, b, a));
    assert(na != nb);
    assert forall|i: int| 0 <= i < h.len() implies h[i].name_index == g[i].name_index by {}
    assert forall|name: u8| has_room(g, name) implies has_room(h, name) by {
        let j = choose|j: int| 0 <= j < g.len() && (#[trigger] g[j]).name_index == name;
        assert(h[j].name_index == name);
    }
    assert forall|i: int| 0 <= i < h.len() implies #[trigger] room_well_formed(h, i) by {
        assert(room_well_formed(g, i));
        if i == a {
            lemma_push_fresh_no_duplicates(g[a].connections, nb);
            lemma_seq_contains_after_push(g[a].connections, nb, na);
            assert(h[b].name_index == nb);
            assert forall|k: int| 0 <= k < h[i].connections.len() implies has_room(
                h,
                #[trigger] h[i].connections[k],
            ) by {
                if k < g[a].connections.len() {
                    assert(has_room(g, g[a].connections[k]));
                }
            }
        } else if i == b {
            lemma_push_fresh_no_duplicates(g[b].connections, na);
            lemma_seq_contains_after_push(g[b].connections, na, nb);
            assert(h[a].name_index == na);
            assert forall|k: int| 0 <= k < h[i].connections.len() implies has_room(
                h,
                #[trigger] h[i].connections[k],
            ) by {
                if k < g[b].connections.len() {
                    assert(has_room(g, g[b].connections[k]));
                }
            }
        } else {
            assert forall|k: int| 0 <= k < h[i].connections.len() implies has_room(
                h,
                #[trigger] h[i].connections[k],
            ) by {
                assert(has_room(g, g[i].connections[k]));
            }
        }
    }
    assert forall|x: int, y: int| 0 <= x < h.len() && 0 <= y < h.len() && #[trigger] linked(
        h,
        x,
        y,
    ) implies linked(h, y, x) by {
        lemma_with_edge_linked(g, a, b, x, y);
        lemma_with_edge_linked(g, a, b, y, x);
        if linked(g, x, y) {
            assert(linked(g, y, x));
        }
    }
    assert(extends(g, h)) by {
        assert forall|i: int| 0 <= i < g.len() implies g[i].connections.is_prefix_of(
            (#[trigger] h[i]).connections,
        ) by {}
    }
    let mid = g.update(a, with_peer(g[a], nb));
    lemma_total_degree_update(g, a, with_peer(g[a], nb));
    lemma_total_degree_update(mid, b, with_peer(g[b], na));
}

/// Replacing one room changes the sum of the degrees by the difference of
/// the two rooms' degrees.
pub proof fn lemma_total_degree_update(g: Graph, i: int, r: RoomView)
    requires
        0 <= i < g.len(),
    ensures
        total_degree(g.update(i, r)) == total_degree(g) - g[i].degree() + r.degree(),
    decreases g.len(),
{
    let h = g.update(i, r);
    if i == g.len() - 1 {
        assert(h.drop_last() =~= g.drop_last());
    } else {
        assert(h.drop_last() =~= g.drop_last().update(i, r));
        lemma_total_degree_update(g.drop_last(), i, r);
    }
}

/// Where no room exceeds a degree of `bound`, the sum of the degrees is at
/// most `bound` for each room.
pub proof fn lemma_total_degree_bound(g: Graph, bound: nat)
    requires
        forall|i: int| 0 <= i < g.len() ==> (#[trigger] g[i]).degree() <= bound,
    ensures
        total_degree(g) <= bound * g.len(),
    decreases g.len(),
{
    if g.len() > 0 {
        let rest = g.drop_last();
        assert forall|i: int| 0 <= i < rest.len() implies (#[trigger] rest[i]).degree()
            <= bound by {
            assert(rest[i] == g[i]);
        }
        lemma_total_degree_bound(rest, bound);
        assert(bound * g.len() == bound * rest.len() + bound) by (nonlinear_arith)
            requires
                g.len() == rest.len() + 1,
        ;
    }
}

/// A layout that extends one that extends a third extends the third.
pub proof fn lemma_extends_transitive(first: Graph, second: Graph, third: Graph)
    requires
        extends(first, second),
        extends(second, third),
    ensures
        extends(first, third),
{
    assert forall|i: int| 0 <= i < first.len() implies {
        &&& (#[trigger] third[i]).name_index == first[i].name_index
        &&& third[i].room_type == first[i].room_type
        &&& first[i].connections.is_prefix_of(third[i].connections)
    } by {
        let a = first[i].connections;
        let b = second[i].connections;
        let c = third[i].connections;
        assert(second[i].name_index == first[i].name_index);
        assert(a.is_prefix_of(b));
        assert(b.is_prefix_of(c));
        assert(a =~= c.subrange(0, a.len() as int)) by {
            assert forall|k: int| 0 <= k < a.len() implies a[k] == c[k] by {
                assert(a[k] == b.subrange(0, a.len() as int)[k]);
                assert(b[k] == c.subrange(0, b.len() as int)[k]);
            }
        }
    }
}

} // verus!
