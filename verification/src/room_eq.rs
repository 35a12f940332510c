//! Equality of rooms: two rooms are the same room if they bear the same name.

use vstd::prelude::*;
use vstd::std_specs::cmp::PartialEqSpecImpl;
use crate::room::Room;

verus! {

impl PartialEq for Room {
    fn eq(&self, other: &Room) -> (same: bool) {
        self.name_index == other.name_index
    }
}

impl PartialEqSpecImpl for Room {
    open spec fn obeys_eq_spec() -> bool {
        true
    }

    open spec fn eq_spec(&self, other: &Room) -> bool {
        self.name_index == other.name_index
    }
}

} // verus!
