use rooms::connect::{
    can_connect, connection_exists, generate_graph, get_random_room, graph_is_full, link_rooms,
    select_first_endpoint, select_second_endpoint,
};
use rooms::layout::generate_layout;
use rooms::room_set::rooms_from_names;
use rooms::validate::{
    contains_room, has_distinct_names, has_no_repeated_peer, is_symmetric, is_valid_graph,
    room_is_well_formed, validate_capacity,
};
use rooms::{GenerationError, Room, RoomType, MAX_DEGREE, MIN_DEGREE};

fn names(count: u8) -> Vec<u8> {
    (0..count).collect()
}

fn degrees(rooms: &Vec<Room>) -> Vec<usize> {
    rooms.iter().map(|room| room.connections.len()).collect()
}

fn position_of(rooms: &Vec<Room>, name: u8) -> Option<usize> {
    rooms.iter().position(|room| room.name_index == name)
}

fn assert_invariants(rooms: &Vec<Room>) {
    for (place, room) in rooms.iter().enumerate() {
        assert!(room.connections.len() <= MAX_DEGREE);
        assert!(!room.connections.contains(&room.name_index));
        for (k, peer) in room.connections.iter().enumerate() {
            assert!(!room.connections[k + 1..].contains(peer));
            let other = position_of(rooms, *peer).unwrap();
            assert_ne!(other, place);
            assert!(rooms[other].connections.contains(&room.name_index));
        }
    }
    assert!(is_valid_graph(rooms));
}

fn complete_graph_of_seven_with_a_loner() -> Vec<Room> {
    let mut rooms = rooms_from_names(&names(8));
    for first in 0..7 {
        for second in first + 1..7 {
            assert!(link_rooms(&mut rooms, first, second));
        }
    }
    rooms
}

#[test]
fn finished_layout_keeps_the_degree_bounds() {
    for _ in 0..200 {
        let rooms = generate_layout(7).unwrap();
        for room in rooms.iter() {
            assert!(room.connections.len() >= MIN_DEGREE);
            assert!(room.connections.len() <= MAX_DEGREE);
        }
        assert!(graph_is_full(&rooms));
    }
}

#[test]
fn finished_layout_has_no_self_loop() {
    for _ in 0..200 {
        let rooms = generate_layout(7).unwrap();
        for room in rooms.iter() {
            assert!(!room.connections.contains(&room.name_index));
            assert!(!connection_exists(room, room));
        }
    }
}

#[test]
fn finished_layout_has_no_duplicate_peer() {
    for _ in 0..200 {
        let rooms = generate_layout(7).unwrap();
        for room in rooms.iter() {
            let mut peers = room.connections.clone();
            peers.sort();
            peers.dedup();
            assert_eq!(peers.len(), room.connections.len());
            assert!(has_no_repeated_peer(room));
        }
    }
}

#[test]
fn finished_layout_is_symmetric() {
    for _ in 0..200 {
        let rooms = generate_layout(7).unwrap();
        for first in rooms.iter() {
            for second in rooms.iter() {
                assert_eq!(
                    first.connections.contains(&second.name_index),
                    second.connections.contains(&first.name_index)
                );
            }
        }
        assert!(is_symmetric(&rooms));
    }
}

#[test]
fn generation_completes_in_repeated_trials() {
    for _ in 0..1000 {
        let mut rooms = Room::get_multiple_rooms(7).unwrap();
        assert_eq!(generate_graph(&mut rooms), Ok(()));
        assert!(graph_is_full(&rooms));
        let edges: usize = degrees(&rooms).iter().sum::<usize>() / 2;
        assert!(edges <= 1000);
        assert!(edges <= 21);
    }
}

#[test]
fn seven_rooms_of_ten_give_an_even_total_degree_within_bounds() {
    for _ in 0..200 {
        let rooms = generate_layout(7).unwrap();
        assert_eq!(rooms.len(), 7);
        let total: usize = degrees(&rooms).iter().sum();
        assert_eq!(total % 2, 0);
        assert!(total >= 21);
        assert!(total <= 42);
        assert_invariants(&rooms);
    }
}

#[test]
fn finished_layout_keeps_the_roles_of_the_room_set() {
    let rooms = generate_layout(7).unwrap();
    assert_eq!(rooms[0].room_type, RoomType::StartRoom);
    for room in &rooms[1..6] {
        assert_eq!(room.room_type, RoomType::MidRoom);
    }
    assert_eq!(rooms[6].room_type, RoomType::EndRoom);
    assert!(has_distinct_names(&rooms));
}

#[test]
fn layouts_of_every_admitted_capacity_are_valid() {
    for capacity in 4..=10 {
        for _ in 0..50 {
            match generate_layout(capacity) {
                Ok(rooms) => {
                    assert_eq!(rooms.len(), capacity);
                    assert!(graph_is_full(&rooms));
                    assert_invariants(&rooms);
                },
                Err(error) => assert_eq!(error, GenerationError::Stalled),
            }
        }
    }
}

#[test]
fn capacity_eleven_fails_validation() {
    assert_eq!(validate_capacity(11), Err(GenerationError::CapacityExceedsCatalog));
    assert_eq!(generate_layout(11).err(), Some(GenerationError::CapacityExceedsCatalog));
}

#[test]
fn capacity_is_validated_before_generation() {
    assert_eq!(validate_capacity(0), Err(GenerationError::DegreeBoundsIncompatible));
    assert_eq!(validate_capacity(3), Err(GenerationError::DegreeBoundsIncompatible));
    assert_eq!(validate_capacity(4), Ok(()));
    assert_eq!(validate_capacity(7), Ok(()));
    assert_eq!(validate_capacity(10), Ok(()));
    assert_eq!(validate_capacity(usize::MAX), Err(GenerationError::CapacityExceedsCatalog));
    assert_eq!(generate_layout(3).err(), Some(GenerationError::DegreeBoundsIncompatible));
    assert_eq!(generate_layout(0).err(), Some(GenerationError::DegreeBoundsIncompatible));
}

#[test]
fn too_few_rooms_are_left_as_they_are() {
    let mut rooms = rooms_from_names(&names(3));
    assert_eq!(generate_graph(&mut rooms), Err(GenerationError::DegreeBoundsIncompatible));
    assert_eq!(degrees(&rooms), vec![0, 0, 0]);
    let mut none: Vec<Room> = Vec::new();
    assert_eq!(generate_graph(&mut none), Err(GenerationError::DegreeBoundsIncompatible));
}

#[test]
fn four_rooms_end_fully_connected_or_stall() {
    let mut finished = 0;
    for _ in 0..200 {
        let mut rooms = rooms_from_names(&vec![7, 2, 9, 4]);
        match generate_graph(&mut rooms) {
            Ok(()) => {
                assert_eq!(degrees(&rooms), vec![3, 3, 3, 3]);
                finished += 1;
            },
            Err(error) => {
                assert_eq!(error, GenerationError::Stalled);
                assert!(!graph_is_full(&rooms));
                assert!(degrees(&rooms).contains(&3));
            },
        }
        assert_invariants(&rooms);
    }
    assert!(finished > 0);
}

#[test]
fn full_graph_is_not_touched() {
    let mut rooms = rooms_from_names(&names(4));
    for first in 0..4 {
        for second in first + 1..4 {
            assert!(link_rooms(&mut rooms, first, second));
        }
    }
    let before: Vec<Vec<u8>> = rooms.iter().map(|room| room.connections.clone()).collect();
    assert_eq!(generate_graph(&mut rooms), Ok(()));
    let after: Vec<Vec<u8>> = rooms.iter().map(|room| room.connections.clone()).collect();
    assert_eq!(before, after);
}

#[test]
fn earlier_connections_stay_first() {
    let mut rooms = rooms_from_names(&names(7));
    assert!(link_rooms(&mut rooms, 2, 5));
    assert!(link_rooms(&mut rooms, 2, 0));
    assert_eq!(generate_graph(&mut rooms), Ok(()));
    assert_eq!(&rooms[2].connections[..2], &[5, 0]);
    assert_eq!(rooms[5].connections[0], 2);
    assert_eq!(rooms[0].connections[0], 2);
    assert_invariants(&rooms);
}

#[test]
fn saturated_room_is_never_an_endpoint() {
    let mut rooms = rooms_from_names(&names(8));
    for peer in 1..7 {
        assert!(link_rooms(&mut rooms, 0, peer));
    }
    assert_eq!(rooms[0].connections.len(), MAX_DEGREE);
    assert!(!Room::can_add_connection(&rooms[0]));
    assert!(!can_connect(&rooms, 0, 7));
    assert!(!can_connect(&rooms, 7, 0));
    assert!(!link_rooms(&mut rooms, 0, 7));
    assert!(!link_rooms(&mut rooms, 7, 0));
    assert_eq!(rooms[0].connections, vec![1, 2, 3, 4, 5, 6]);
    assert!(rooms[7].connections.is_empty());
    for _ in 0..200 {
        assert_ne!(select_first_endpoint(&rooms), Some(0));
        assert_ne!(select_second_endpoint(&rooms, 7), Some(0));
    }
    match generate_graph(&mut rooms) {
        Ok(()) => assert!(graph_is_full(&rooms)),
        Err(error) => assert_eq!(error, GenerationError::Stalled),
    }
    assert_eq!(rooms[0].connections, vec![1, 2, 3, 4, 5, 6]);
    assert_invariants(&rooms);
}

#[test]
fn room_without_admissible_peer_stalls() {
    let mut rooms = complete_graph_of_seven_with_a_loner();
    assert_eq!(degrees(&rooms), vec![6, 6, 6, 6, 6, 6, 6, 0]);
    assert!(!graph_is_full(&rooms));
    assert_eq!(select_second_endpoint(&rooms, 7), None);
    assert_eq!(generate_graph(&mut rooms), Err(GenerationError::Stalled));
    assert_eq!(degrees(&rooms), vec![6, 6, 6, 6, 6, 6, 6, 0]);
    assert_invariants(&rooms);
}

#[test]
fn first_endpoint_has_room_for_a_connection() {
    let rooms = complete_graph_of_seven_with_a_loner();
    for _ in 0..50 {
        assert_eq!(select_first_endpoint(&rooms), Some(7));
    }
    assert_eq!(select_first_endpoint(&Vec::new()), None);
}

#[test]
fn second_endpoint_may_be_connected_to_the_first() {
    let mut rooms = rooms_from_names(&names(4));
    assert!(link_rooms(&mut rooms, 0, 1));
    assert!(link_rooms(&mut rooms, 0, 2));
    for _ in 0..50 {
        assert_eq!(select_second_endpoint(&rooms, 0), Some(3));
    }
    assert!(link_rooms(&mut rooms, 0, 3));
    assert_eq!(select_second_endpoint(&rooms, 0), None);
    assert_eq!(select_second_endpoint(&rooms, 9), None);
}

#[test]
fn link_appends_each_name_to_the_other_room() {
    let mut rooms = rooms_from_names(&vec![3, 5, 8]);
    assert!(link_rooms(&mut rooms, 0, 1));
    assert_eq!(rooms[0].connections, vec![5]);
    assert_eq!(rooms[1].connections, vec![3]);
    assert!(rooms[2].connections.is_empty());
    assert!(link_rooms(&mut rooms, 2, 0));
    assert_eq!(rooms[0].connections, vec![5, 8]);
    assert_eq!(rooms[2].connections, vec![3]);
    assert_eq!(rooms[0].name_index, 3);
    assert_eq!(rooms[0].room_type, RoomType::StartRoom);
}

#[test]
fn link_refuses_loops_repeats_and_unknown_positions() {
    let mut rooms = rooms_from_names(&vec![3, 5, 8]);
    assert!(link_rooms(&mut rooms, 0, 1));
    assert!(!link_rooms(&mut rooms, 0, 1));
    assert!(!link_rooms(&mut rooms, 1, 0));
    assert!(!link_rooms(&mut rooms, 2, 2));
    assert!(!link_rooms(&mut rooms, 0, 3));
    assert!(!link_rooms(&mut rooms, 3, 0));
    assert_eq!(degrees(&rooms), vec![1, 1, 0]);
    assert!(!can_connect(&rooms, 0, 1));
    assert!(!can_connect(&rooms, 2, 2));
    assert!(!can_connect(&rooms, 0, 3));
    assert!(can_connect(&rooms, 0, 2));
    assert!(can_connect(&rooms, 2, 1));
}

#[test]
fn connect_rooms_stops_at_the_maximum() {
    let mut room = Room::new(0, RoomType::StartRoom);
    for peer in 1..=6 {
        assert!(Room::can_add_connection(&room));
        assert_eq!(room.connect_rooms(peer), Some(()));
    }
    assert!(!Room::can_add_connection(&room));
    assert_eq!(room.connect_rooms(7), None);
    assert_eq!(room.connections, vec![1, 2, 3, 4, 5, 6]);
}

#[test]
fn connection_exists_looks_at_the_first_room_only() {
    let mut first = Room::new(1, RoomType::StartRoom);
    let second = Room::new(2, RoomType::EndRoom);
    assert!(!connection_exists(&first, &second));
    assert_eq!(first.connect_rooms(2), Some(()));
    assert!(connection_exists(&first, &second));
    assert!(!connection_exists(&second, &first));
}

#[test]
fn graph_is_full_at_three_connections_each() {
    let mut rooms = rooms_from_names(&names(4));
    assert!(!graph_is_full(&rooms));
    for first in 0..4 {
        for second in first + 1..4 {
            assert!(!graph_is_full(&rooms));
            assert!(link_rooms(&mut rooms, first, second));
        }
    }
    assert!(graph_is_full(&rooms));
    assert!(graph_is_full(&Vec::new()));
}

#[test]
fn random_room_is_one_of_the_rooms() {
    let rooms = rooms_from_names(&names(7));
    let mut seen = [false; 7];
    for _ in 0..2000 {
        let position = get_random_room(&rooms);
        assert!(position < 7);
        seen[position] = true;
    }
    assert!(seen.iter().all(|hit| *hit));
}

#[test]
fn validation_accepts_what_linking_builds() {
    let mut rooms = rooms_from_names(&names(7));
    assert!(is_valid_graph(&rooms));
    assert!(link_rooms(&mut rooms, 0, 6));
    assert!(link_rooms(&mut rooms, 3, 6));
    assert!(is_valid_graph(&rooms));
    assert!(is_valid_graph(&Vec::new()));
    assert!(is_valid_graph(&complete_graph_of_seven_with_a_loner()));
}

#[test]
fn validation_rejects_a_one_sided_connection() {
    let mut rooms = rooms_from_names(&names(4));
    assert_eq!(rooms[0].connect_rooms(1), Some(()));
    assert!(!is_symmetric(&rooms));
    assert!(!is_valid_graph(&rooms));
    assert_eq!(rooms[1].connect_rooms(0), Some(()));
    assert!(is_symmetric(&rooms));
    assert!(is_valid_graph(&rooms));
}

#[test]
fn validation_rejects_a_self_loop() {
    let mut rooms = rooms_from_names(&names(4));
    assert_eq!(rooms[2].connect_rooms(2), Some(()));
    assert!(is_symmetric(&rooms));
    assert!(!room_is_well_formed(&rooms, 2));
    assert!(room_is_well_formed(&rooms, 1));
    assert!(!is_valid_graph(&rooms));
}

#[test]
fn validation_rejects_a_repeated_peer() {
    let mut rooms = rooms_from_names(&names(4));
    assert_eq!(rooms[0].connect_rooms(1), Some(()));
    assert_eq!(rooms[0].connect_rooms(1), Some(()));
    assert_eq!(rooms[1].connect_rooms(0), Some(()));
    assert!(!has_no_repeated_peer(&rooms[0]));
    assert!(has_no_repeated_peer(&rooms[1]));
    assert!(!room_is_well_formed(&rooms, 0));
    assert!(!is_valid_graph(&rooms));
}

#[test]
fn validation_rejects_a_peer_that_is_no_room() {
    let mut rooms = rooms_from_names(&names(4));
    assert_eq!(rooms[0].connect_rooms(9), Some(()));
    assert!(!contains_room(&rooms, 9));
    assert!(contains_room(&rooms, 3));
    assert!(!room_is_well_formed(&rooms, 0));
    assert!(!is_valid_graph(&rooms));
}

#[test]
fn validation_rejects_shared_and_unknown_names() {
    let twins = rooms_from_names(&vec![1, 2, 1]);
    assert!(!has_distinct_names(&twins));
    assert!(!is_valid_graph(&twins));
    let stranger = rooms_from_names(&vec![1, 10]);
    assert!(has_distinct_names(&stranger));
    assert!(!room_is_well_formed(&stranger, 1));
    assert!(!is_valid_graph(&stranger));
}

#[test]
fn validation_rejects_more_connections_than_the_maximum() {
    let mut rooms = rooms_from_names(&names(8));
    for peer in 1..8 {
        rooms[0].connections.push(peer);
        rooms[peer as usize].connections.push(0);
    }
    assert!(is_symmetric(&rooms));
    assert!(has_distinct_names(&rooms));
    assert!(!room_is_well_formed(&rooms, 0));
    assert!(!is_valid_graph(&rooms));
}

#[test]
fn first_endpoint_is_found_when_no_room_is_saturated() {
    let mut rooms = rooms_from_names(&names(7));
    assert!(link_rooms(&mut rooms, 0, 1));
    for _ in 0..200 {
        let first = select_first_endpoint(&rooms);
        assert!(matches!(first, Some(position) if position < 7));
    }
}
