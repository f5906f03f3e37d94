use crate::input::{parse_usize, parsed_usize, trim, trimmed};
use vstd::prelude::*;

verus! {

/// The numbers that the array of `array_element` holds, in order.
pub open spec fn array_numbers() -> Seq<i32> {
    seq![1i32, 2i32, 3i32, 4i32, 5i32]
}

/// The array index that a line of input spells, white space around it set
/// aside; nothing if the line spells none.
pub fn array_index(line: &str) -> (index: Option<usize>)
    ensures
        index == parsed_usize(trimmed(line@)),
{
    parse_usize(trim(line))
}

/// The element at `index` of the array of the numbers one to five; the
/// index must lie inside the array.
pub fn array_element(index: usize) -> (element: i32)
    requires
        index < 5,
    ensures
        element == array_numbers()[index as int],
{
    let a: [i32; 5] = [1, 2, 3, 4, 5];
    a[index]
}

} // verus!
