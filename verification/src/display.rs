//! The control sequences that the line editor sends to the terminal.

use vstd::prelude::*;

verus! {

/// Backspace, space, backspace: wipes the column left of the cursor.
pub open spec fn erase_sequence() -> Seq<u8> {
    seq![0x08u8, 0x20u8, 0x08u8]
}

/// `ESC [ D`: the cursor one column to the left.
pub open spec fn left_sequence() -> Seq<u8> {
    seq![0x1bu8, 0x5bu8, 0x44u8]
}

/// `ESC [ C`: the cursor one column to the right.
pub open spec fn right_sequence() -> Seq<u8> {
    seq![0x1bu8, 0x5bu8, 0x43u8]
}

/// `ESC [ 2 K`, carriage return: clears the line and returns to its first
/// column.
pub open spec fn kill_sequence() -> Seq<u8> {
    seq![0x1bu8, 0x5bu8, 0x32u8, 0x4bu8, 0x0du8]
}

/// The bytes of the groups of `data`, group after group.
pub open spec fn joined(data: Seq<Seq<u8>>) -> Seq<u8>
    decreases data.len(),
{
    if data.len() == 0 {
        Seq::empty()
    } else {
        joined(data.drop_last()) + data.last()
    }
}

/// The byte sequences that a vector of byte vectors holds.
pub open spec fn groups_of(data: Seq<Vec<u8>>) -> Seq<Seq<u8>> {
    Seq::new(data.len(), |i: int| data[i]@)
}

/// A cleared line followed by the bytes of `data`.
pub open spec fn reprint_sequence(data: Seq<Seq<u8>>) -> Seq<u8> {
    kill_sequence() + joined(data)
}

/// What wipes the character left of the cursor.
pub fn delete_previous_char() -> (bytes: Vec<u8>)
    ensures
        bytes@ == erase_sequence(),
{
    vec![0x08u8, 0x20u8, 0x08u8]
}

/// What moves the cursor one column to the left.
pub fn move_left() -> (bytes: Vec<u8>)
    ensures
        bytes@ == left_sequence(),
{
    vec![0x1bu8, 0x5bu8, 0x44u8]
}

/// What moves the cursor one column to the right.
pub fn move_right() -> (bytes: Vec<u8>)
    ensures
        bytes@ == right_sequence(),
{
    vec![0x1bu8, 0x5bu8, 0x43u8]
}

/// What clears the line.
pub fn kill_line() -> (bytes: Vec<u8>)
    ensures
        bytes@ == kill_sequence(),
{
    vec![0x1bu8, 0x5bu8, 0x32u8, 0x4bu8, 0x0du8]
}

/// The bytes of the groups of `data_list`, group after group.
pub fn join(data_list: &Vec<Vec<u8>>) -> (bytes: Vec<u8>)
    ensures
        bytes@ == joined(groups_of(data_list@)),
{
    let mut bytes: Vec<u8> = Vec::new();
    let mut i: usize = 0;
    while i < data_list.len()
        invariant
            i <= data_list.len(),
            bytes@ == joined(groups_of(data_list@).take(i as int)),
        decreases data_list.len() - i,
    {
        proof {
            let groups = groups_of(data_list@);
            assert(groups.take(i + 1).drop_last() == groups.take(i as int));
        }
        bytes.extend_from_slice(data_list[i].as_slice());
        i += 1;
    }
    proof {
        let groups = groups_of(data_list@);
        assert(groups.take(data_list.len() as int) == groups);
    }
    bytes
}

/// What clears the line and writes `data_list` anew.
pub fn reprint_line(data_list: &Vec<Vec<u8>>) -> (bytes: Vec<u8>)
    ensures
        bytes@ == reprint_sequence(groups_of(data_list@)),
{
    let mut bytes = kill_line();
    let line = join(data_list);
    bytes.extend_from_slice(line.as_slice());
    bytes
}

} // verus!
