use vstd::prelude::*;

verus! {

/// Borrows an integer for the length of the call and keeps nothing of it.
fn g<'a>(p: &'a i32) {
}

/// A borrow handed to a function lasts no longer than the call.
pub fn reference_to_params() {
    let x: i32 = 10;
    g(&10);
}

/// The smallest element of a slice that holds at least one.
pub fn smallest(v: &[i32]) -> (s: &i32)
    requires
        v@.len() > 0,
    ensures
        forall|i: int| 0 <= i < v@.len() ==> *s <= v@[i],
        exists|i: int| 0 <= i < v@.len() && v@[i] == *s,
{
    let mut s = &v[0];
    let rest = &v[1..v.len()];
    for r in it: rest
        invariant
            rest@ == v@.subrange(1, v@.len() as int),
            exists|i: int| 0 <= i < v@.len() && v@[i] == *s,
            forall|k: int| 0 <= k <= it.index() ==> *s <= v@[k],
    {
        if *r < *s {
            s = r;
        }
    }
    s
}

/// A value that holds a borrowed integer; it cannot outlive the integer.
pub struct Holder<'a> {
    pub r: &'a i32,
}

/// A value that holds a `Holder`, and so lives no longer than the integer
/// borrowed there.
pub struct Nested<'a> {
    pub s: Holder<'a>,
}

/// A borrow kept in a struct reads the integer it was taken from.
pub fn struct_with_reference() {
    let x: i32 = 10;
    let s = Holder { r: &x };
    assert(*s.r == 10);
}

/// Two borrowed integers, each with a lifetime of its own.
pub struct Pair<'a, 'b> {
    pub x: &'a i32,
    pub y: &'b i32,
}

/// The first of two borrows that share one lifetime.
pub fn f<'a>(r: &'a i32, s: &'a i32) -> (first: &'a i32)
    ensures
        first == r,
{
    r
}

/// The first of two borrows, whose lifetime alone the result has.
pub fn f2<'a, 'b>(r: &'a i32, s: &'b i32) -> (first: &'a i32)
    ensures
        first == r,
{
    r
}

/// A borrow taken out of a `Pair` outlives the pair and the other integer.
pub fn lifetime_params() {
    let x: i32 = 10;
    let r;
    {
        let y: i32 = 20;
        {
            let s = Pair { x: &x, y: &y };
            r = s.x;
        }
    }
    assert(*r == 10);
}

/// The sum of `r` and the two integers of `s`, added from left to right;
/// neither sum may leave the range of `i32`.
pub fn sum_r_xy(r: &i32, s: Pair) -> (sum: i32)
    requires
        i32::MIN <= *r + *s.x <= i32::MAX,
        i32::MIN <= *r + *s.x + *s.y <= i32::MAX,
    ensures
        sum == *r + *s.x + *s.y,
{
    r + s.x + s.y
}

/// The first and the third coordinate of a point.
pub fn first_third(point: &[i32; 3]) -> (ends: (&i32, &i32))
    ensures
        *ends.0 == point@[0],
        *ends.1 == point@[2],
{
    (&point[0], &point[2])
}

/// A list of strings that can be searched by prefix.
pub struct StringTable {
    pub elements: Vec<String>,
}

/// `str::starts_with`, with a string for its pattern: whether `text` begins
/// with `prefix`.
#[verifier::external_body]
fn starts_with(text: &str, prefix: &str) -> (found: bool)
    ensures
        found == prefix@.is_prefix_of(text@),
{
    text.starts_with(prefix)
}

/// `at` is the first position of `elements` whose string begins with
/// `prefix`.
pub open spec fn is_first_with_prefix(elements: Seq<String>, prefix: Seq<char>, at: int) -> bool {
    &&& 0 <= at < elements.len()
    &&& prefix.is_prefix_of(elements[at]@)
    &&& forall|j: int| 0 <= j < at ==> !prefix.is_prefix_of(#[trigger] elements[j]@)
}

impl StringTable {
    /// The first string of the table that begins with `prefix`, if there
    /// is one.
    pub fn find_by_prefix(&self, prefix: &str) -> (found: Option<&String>)
        ensures
            match found {
                Some(element) => exists|at: int|
                    is_first_with_prefix(self.elements@, prefix@, at) && *element
                        == self.elements@[at],
                None => forall|j: int|
                    0 <= j < self.elements@.len() ==> !prefix@.is_prefix_of(
                        #[trigger] self.elements@[j]@,
                    ),
            },
    {
        for i in 0..self.elements.len()
            invariant
                forall|j: int| 0 <= j < i ==> !prefix@.is_prefix_of(#[trigger] self.elements@[j]@),
        {
            if starts_with(self.elements[i].as_str(), prefix) {
                assert(is_first_with_prefix(self.elements@, prefix@, i as int));
                return Some(&self.elements[i]);
            }
        }
        None
    }
}

/// Where a signature leaves lifetimes out, the compiler fills them in:
/// none are needed where nothing borrowed is returned, the one lifetime of
/// the parameters is taken where there is only one, and that of `self` in
/// a method.
pub fn to_omit_lifetime_params() {
}

} // verus!
