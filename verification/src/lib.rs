//! Worked examples of Rust, each with a contract that Verus proves: an
//! in-place quicksort, Fibonacci numbers at machine size and beyond,
//! borrowing, slices, structs, and the rules of a number-guessing game.
//!
//! The functions that compute something state exactly what they return.
//! The walk-throughs of the language return nothing; for them the proof is
//! that they run to their end without a panic.

pub mod biguint;
pub mod climb_stairs;
pub mod control_flow;
pub mod expression;
pub mod fib;
pub mod func;
pub mod guess;
pub mod input;
pub mod mem_replace;
pub mod ownership;
pub mod reference;
pub mod references_and_borrowing;
pub mod slice;
pub mod sort;
pub mod structs;
pub mod variables;
