use crate::input::{parse_u32, parsed_u32, trim, trimmed};
use rand::Rng;
use std::cmp::Ordering;
use vstd::prelude::*;

verus! {

/// How a guess stands to the number that is looked for.
#[derive(Debug, Clone, Copy, PartialEq, Eq, Structural)]
pub enum Verdict {
    TooSmall,
    TooBig,
    Correct,
}

/// What a round of the game comes to.
#[derive(Debug, Clone, Copy, PartialEq, Eq, Structural)]
pub enum Turn {
    /// The line held no number: ask again, without a word.
    Unreadable,
    /// The line held a guess, which was judged.
    Judged(Verdict),
}

/// The verdict on a guess.
pub open spec fn verdict_of(guess: u32, secret_num: u32) -> Verdict {
    if guess < secret_num {
        Verdict::TooSmall
    } else if guess > secret_num {
        Verdict::TooBig
    } else {
        Verdict::Correct
    }
}

/// What a line of input comes to in a game for `secret_num`.
pub open spec fn turn_of(line: Seq<char>, secret_num: u32) -> Turn {
    match parsed_u32(trimmed(line)) {
        Some(guess) => Turn::Judged(verdict_of(guess, secret_num)),
        None => Turn::Unreadable,
    }
}

/// `Rng::gen_range` on `rand::thread_rng()`, with an inclusive range: some
/// number from `low` to `high`; which one is left to chance. An empty range
/// makes it panic, so `low` may not exceed `high`. The generator is seeded
/// by the operating system when a thread first asks for it, and panics if
/// that fails.
#[verifier::external_body]
fn random_between(low: u32, high: u32) -> (number: u32)
    requires
        low <= high,
    ensures
        low <= number <= high,
{
    rand::thread_rng().gen_range(low..=high)
}

/// Draws the number to be guessed, from 1 to 100.
pub fn pick_secret() -> (secret_num: u32)
    ensures
        1 <= secret_num <= 100,
{
    random_between(1, 100)
}

/// Judges a guess against the number that is looked for.
pub fn judge(guess: u32, secret_num: u32) -> (verdict: Verdict)
    ensures
        verdict == verdict_of(guess, secret_num),
{
    match guess.cmp(&secret_num) {
        Ordering::Less => Verdict::TooSmall,
        Ordering::Greater => Verdict::TooBig,
        Ordering::Equal => Verdict::Correct,
    }
}

/// Plays one round: reads the guess out of a line of input, white space
/// around it set aside, and judges it.
pub fn play_turn(line: &str, secret_num: u32) -> (turn: Turn)
    ensures
        turn == turn_of(line@, secret_num),
{
    let guess: u32 = match parse_u32(trim(line)) {
        Some(num) => num,
        None => {
            return Turn::Unreadable;
        },
    };
    Turn::Judged(judge(guess, secret_num))
}

impl Turn {
    /// Whether the game is over after this round: it is when the guess
    /// was right.
    pub fn ends_game(&self) -> (over: bool)
        ensures
            over == (*self == Turn::Judged(Verdict::Correct)),
    {
        match self {
            Turn::Judged(Verdict::Correct) => true,
            _ => false,
        }
    }
}

} // verus!
