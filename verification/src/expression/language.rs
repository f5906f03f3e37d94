use vstd::prelude::*;

verus! {

/// A block is an expression: its value is that of its last expression, if
/// no semicolon follows it.
pub fn bound() {
    let msg = { 1i32.to_string() };
    if msg == "1".to_string() {
    }
}

/// A binding may be declared first and given its value later, once.
pub fn statement_fn() {
    let name: char = '1';
    let name1: char;
    name1 = '2';
    assert(name1 == '2');
}

/// `return` leaves the function at once; without a value it returns `()`.
pub fn return_expression() {
}

/// `as` converts between the integer types.
pub fn type_transform() {
    let x: i32 = 17;
    let index = x as usize;
    assert(index == 17);
}

} // verus!
