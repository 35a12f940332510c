//! The fixed catalog of room names and the size parameters of a layout.

use vstd::prelude::*;

verus! {

/// Number of names in the catalog.
pub const CATALOG_SIZE: usize = 10;

/// Number of rooms in a layout unless the caller asks otherwise.
pub const DEFAULT_CAPACITY: usize = 7;

/// Fewest connections a room of a finished layout may have.
pub const MIN_DEGREE: usize = 3;

/// Most connections any room may ever have.
pub const MAX_DEGREE: usize = 6;

/// The catalog as a mathematical function from index to name.
pub open spec fn catalog_name(index: int) -> Seq<char> {
    if index == 0 {
        "dungeon"@
    } else if index == 1 {
        "castle"@
    } else if index == 2 {
        "shire"@
    } else if index == 3 {
        "poopdeck"@
    } else if index == 4 {
        "bedroom"@
    } else if index == 5 {
        "closet"@
    } else if index == 6 {
        "narnia"@
    } else if index == 7 {
        "whiterun"@
    } else if index == 8 {
        "skyrim"@
    } else {
        "vault"@
    }
}

/// Looks a name up in the catalog.
pub fn room_name(index: u8) -> (name: &'static str)
    requires
        index < CATALOG_SIZE,
    ensures
        name@ == catalog_name(index as int),
{
    match index {
        0 => "dungeon",
        1 => "castle",
        2 => "shire",
        3 => "poopdeck",
        4 => "bedroom",
        5 => "closet",
        6 => "narnia",
        7 => "whiterun",
        8 => "skyrim",
        _ => "vault",
    }
}

} // verus!
