use crate::fib::{fib, lemma_fib_i32_limit, lemma_fib_monotonic};
use std::mem::replace;
use vstd::prelude::*;

verus! {

/// The `n`-th Fibonacci number, counted from `fib(0) == 0`; zero for a
/// negative `n`.
///
/// The loop computes one number ahead of the one it returns, and the
/// Fibonacci number with index 47 no longer fits in an `i32`, so `n` stops
/// at 45.
pub fn climb_stairs(n: i32) -> (number: i32)
    requires
        n <= 45,
    ensures
        n >= 0 ==> number == fib(n as nat),
        n < 0 ==> number == 0,
{
    let mut f0: i32 = 0;
    let mut f1: i32 = 1;
    let mut i: i32 = 0;
    while i < n
        invariant
            n <= 45,
            0 <= i,
            i == 0 || i <= n,
            f0 == fib(i as nat),
            f1 == fib((i + 1) as nat),
        decreases n - i,
    {
        proof {
            lemma_fib_i32_limit();
            lemma_fib_monotonic((i + 2) as nat, 46);
        }
        let f2: i32 = f0 + &f1;
        f0 = replace(&mut f1, f2);
        i += 1;
    }
    f0
}

/// A node of a singly linked list.
#[derive(PartialEq, Eq, Debug)]
pub struct ListNode {
    pub val: i32,
    pub next: Option<Box<ListNode>>,
}

impl ListNode {
    /// A list of one node that holds `val`.
    #[inline]
    pub fn new(val: i32) -> (node: Self)
        ensures
            node.val == val,
            node.next is None,
    {
        ListNode { next: None, val }
    }
}

impl Clone for ListNode {
    /// A copy of the whole list.
    fn clone(&self) -> (copy: Self)
        ensures
            copy == *self,
        decreases self,
    {
        let next = match &self.next {
            Some(node) => Some(Box::new((**node).clone())),
            None => None,
        };
        ListNode { val: self.val, next }
    }
}

} // verus!
