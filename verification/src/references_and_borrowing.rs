use vstd::prelude::*;
use vstd::string::StringExecFns;
use vstd::utf8::encode_utf8;

verus! {

/// The length of `s` in bytes, which is the length of its UTF-8 encoding.
pub fn calculate_length(s: &String) -> (length: usize)
    ensures
        length == encode_utf8(s@).len(),
{
    s.as_str().as_bytes().len()
}

/// Appends `", world!"` to the string.
pub fn change(some_string: &mut String)
    ensures
        final(some_string)@ == old(some_string)@ + ", world!"@,
{
    some_string.append(", world!");
}

/// Takes the string that `dangle` hands over.
pub fn dangling_references() {
    let reference_to_nothing = dangle();
    assert(reference_to_nothing@ == "dangling_references"@);
}

/// Hands its string out by value: a reference to it would outlive the
/// string.
pub fn dangle() -> (s: String)
    ensures
        s@ == "dangling_references"@,
{
    let s = String::from_str("dangling_references");
    s
}

} // verus!
