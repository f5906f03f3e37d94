use vstd::prelude::*;

verus! {

/// A vector can be read through a shared borrow, and moved once the
/// borrow has ended.
pub fn other_null_pointer() {
    let v: Vec<i32> = vec![4, 8, 19, 27, 34, 10];
    let r = &v;
    r[0];
    let v: Vec<i32> = vec![1, 2, 3, 4];
    {
        let r = &v;
        r[0];
    }
    let aside = v;
}

/// Shared borrows only read; a change needs the one exclusive borrow.
pub fn share_and_edit() {
    other_null_pointer();
}

} // verus!
