//! A room as text: the descriptor that is written out for it, and the name
//! of the file that holds it.

use vstd::prelude::*;
use vstd::string::StringExecFns;
use crate::catalog::{catalog_name, room_name, CATALOG_SIZE};
use crate::room::{role_label, Room, RoomView};

verus! {

/// A decimal digit as text.
pub open spec fn digit_text(digit: nat) -> Seq<char> {
    if digit == 0 {
        "0"@
    } else if digit == 1 {
        "1"@
    } else if digit == 2 {
        "2"@
    } else if digit == 3 {
        "3"@
    } else if digit == 4 {
        "4"@
    } else if digit == 5 {
        "5"@
    } else if digit == 6 {
        "6"@
    } else if digit == 7 {
        "7"@
    } else if digit == 8 {
        "8"@
    } else {
        "9"@
    }
}

/// A number in decimal notation, without leading zeros.
pub open spec fn decimal_text(n: nat) -> Seq<char>
    decreases n,
{
    if n < 10 {
        digit_text(n)
    } else {
        decimal_text(n / 10) + digit_text(n % 10)
    }
}

/// The line of the connection at place `place` to the room named `peer`.
pub open spec fn connection_line(place: nat, peer: u8) -> Seq<char> {
    "CONNECTION "@ + decimal_text(place) + ": "@ + catalog_name(peer as int) + "\n"@
}

/// The lines of `connections`, one for each, numbered from zero.
pub open spec fn connection_lines(connections: Seq<u8>) -> Seq<char>
    decreases connections.len(),
{
    if connections.len() == 0 {
        Seq::empty()
    } else {
        connection_lines(connections.drop_last()) + connection_line(
            (connections.len() - 1) as nat,
            connections.last(),
        )
    }
}

/// The descriptor of a room: a line with its name, a line for each
/// connection in the order in which they were made, and a line with its
/// role.
pub open spec fn room_text(room: RoomView) -> Seq<char> {
    "ROOM NAME: "@ + catalog_name(room.name_index as int) + "\n"@ + connection_lines(
        room.connections,
    ) + "ROOM TYPE: "@ + role_label(room.room_type) + "\n"@
}

/// The name of the file that holds the descriptor of a room.
pub open spec fn room_file_name(room: RoomView) -> Seq<char> {
    catalog_name(room.name_index as int) + "_room"@
}

/// A decimal digit as text.
fn digit(value: usize) -> (text: &'static str)
    requires
        value < 10,
    ensures
        text@ == digit_text(value as nat),
{
    match value {
        0 => "0",
        1 => "1",
        2 => "2",
        3 => "3",
        4 => "4",
        5 => "5",
        6 => "6",
        7 => "7",
        8 => "8",
        _ => "9",
    }
}

/// Appends `n` in decimal notation to `text`.
pub fn append_decimal(text: &mut String, n: usize)
    ensures
        final(text)@ == old(text)@ + decimal_text(n as nat),
    decreases n,
{
    if n >= 10 {
        append_decimal(text, n / 10);
    }
    text.append(digit(n % 10));
    assert(text@ =~= old(text)@ + decimal_text(n as nat));
}

impl Room {
    /// The descriptor of the room.
    pub fn render(&self) -> (text: String)
        requires
            self@.in_catalog(),
        ensures
            text@ == room_text(self@),
    {
        let mut text = String::from_str("ROOM NAME: ");
        text.append(room_name(self.name_index));
        text.append("\n");
        let ghost head = text@;
        let mut index: usize = 0;
        while index < self.connections.len()
            invariant
                self@.in_catalog(),
                index <= self.connections.len(),
                text@ == head + connection_lines(self.connections@.take(index as int)),
            decreases self.connections.len() - index,
        {
            let ghost lines = text@;
            assert(self@.connections[index as int] == self.connections@[index as int]);
            text.append("CONNECTION ");
            append_decimal(&mut text, index);
            text.append(": ");
            text.append(room_name(self.connections[index]));
            text.append("\n");
            proof {
                let taken = self.connections@.take(index + 1);
                assert(taken.drop_last() =~= self.connections@.take(index as int));
                assert(text@ =~= lines + connection_line(index as nat, taken.last()));
                assert(text@ =~= head + connection_lines(taken));
            }
            index = index + 1;
        }
        assert(self.connections@.take(index as int) =~= self.connections@);
        text.append("ROOM TYPE: ");
        text.append(self.room_type.label());
        text.append("\n");
        assert(text@ =~= room_text(self@));
        text
    }

    /// The name of the file that holds the descriptor of the room.
    pub fn file_name(&self) -> (name: String)
        requires
            self@.name_index < CATALOG_SIZE,
        ensures
            name@ == room_file_name(self@),
    {
        let mut name = String::from_str(room_name(self.name_index));
        name.append("_room");
        name
    }
}

} // verus!
