//! Procedural generation of a small, richly connected graph of rooms.
//!
//! A layout is made in two steps. First a number of rooms is chosen: each
//! gets a name of its own from a fixed catalog, and a role by the order in
//! which it was chosen. Then connections are added between rooms chosen at
//! random, until every room has the minimum number of them; no room ever
//! has more than the maximum, is connected to itself, or is connected to
//! another room twice.

pub mod catalog;
pub mod connect;
pub mod error;
pub mod graph;
pub mod laws;
pub mod layout;
pub mod random;
pub mod render;
pub mod room;
pub mod room_eq;
pub mod room_set;
pub mod validate;

pub use catalog::{room_name, CATALOG_SIZE, DEFAULT_CAPACITY, MAX_DEGREE, MIN_DEGREE};
pub use connect::{
    can_connect, connection_exists, generate_graph, get_random_room, graph_is_full, link_rooms,
    select_first_endpoint, select_second_endpoint,
};
pub use error::GenerationError;
pub use layout::generate_layout;
pub use random::{position_of_draw, random_below, sample_until, SAMPLE_ATTEMPTS};
pub use render::append_decimal;
pub use room::{Room, RoomType};
pub use room_set::{name_taken, role_for, rooms_from_names};
pub use validate::{
    contains_room, has_distinct_names, has_no_repeated_peer, is_symmetric, is_valid_graph,
    room_is_well_formed, validate_capacity,
};
