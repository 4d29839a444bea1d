use vstd::prelude::*;

verus! {

/// A pseudo-random integer between `min` and `max`.
///
/// Trusted: calls `macroquad::rand::gen_range`, which scales the next output
/// of the global generator into the range and truncates it. The contract
/// claims that the result lies in `min..=max` whenever `min <= max`, and that
/// it stays below `max` when the range starts at zero.
#[verifier::external_body]
pub fn random(min: i32, max: i32) -> (r: i32)
    ensures
        min <= max ==> min <= r <= max,
        min == 0 && 0 < max ==> r < max,
{
    macroquad::rand::gen_range(min, max)
}

/// The horizontal direction that a roll between zero and one stands for:
/// left for zero, right otherwise.
pub open spec fn direction(roll: int) -> int {
    if roll == 0 {
        -1
    } else {
        1
    }
}

/// Turns a roll into a horizontal direction: left for zero, right otherwise.
pub fn direction_of(roll: i32) -> (d: i64)
    ensures
        d == direction(roll as int),
        d == 1 || d == -1,
{
    if roll == 0 {
        -1
    } else {
        1
    }
}

} // verus!
