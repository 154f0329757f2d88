//! Games of chance: coin flips, dice and random numbers.
use rand::Rng;
use vstd::prelude::*;

use crate::decimal::{format_i32, signed_decimal};

verus! {

/// Draws from `rand::thread_rng()` with `Rng::gen_range(low..=high)`. Claimed: the
/// value lies in `low..=high`; which one is left to chance. `gen_range` panics on an
/// empty range, which `requires` leaves out.
#[verifier::external_body]
pub(crate) fn gen_range_inclusive(low: i32, high: i32) -> (r: i32)
    requires
        low <= high,
    ensures
        low <= r <= high,
{
    rand::thread_rng().gen_range(low..=high)
}

/// The answer to a coin flip that came down on side `selector` (0 or 1).
pub open spec fn coin_text(selector: int) -> Seq<char> {
    if selector == 0 {
        "It's Heads!"@
    } else {
        "It's Tails!"@
    }
}

/// Announces a coin flip that came down on side `selector`: 0 is heads, 1 tails.
pub fn coinflip(selector: usize) -> (r: String)
    requires
        selector < 2,
    ensures
        r@ == coin_text(selector as int),
{
    let possibilities = ["Heads", "Tails"];
    let mut r = String::from_str("It's ");
    r.append(possibilities[selector]);
    r.append("!");
    proof {
        reveal_strlit("It's ");
        reveal_strlit("Heads");
        reveal_strlit("Tails");
        reveal_strlit("!");
        reveal_strlit("It's Heads!");
        reveal_strlit("It's Tails!");
        assert(r@ =~= coin_text(selector as int));
    }
    r
}

/// The answer to a die that cannot be rolled.
pub open spec fn too_few_sides_text() -> Seq<char> {
    "Enter a number that is greater than 1"@
}

/// Rolls a die with `sides` sides: a face from 1 to `sides`, in decimal; or a
/// request for more sides.
pub fn diceroll(sides: i32) -> (r: String)
    ensures
        sides > 1 ==> exists|roll: int| 1 <= roll <= sides && r@ == #[trigger] signed_decimal(roll),
        sides <= 1 ==> r@ == too_few_sides_text(),
{
    if sides > 1 {
        let choice = gen_range_inclusive(1, sides);
        let r = format_i32(choice);
        assert(r@ == signed_decimal(choice as int));
        r
    } else {
        String::from_str("Enter a number that is greater than 1")
    }
}

/// The answer to a range that holds no number.
pub open spec fn empty_range_text() -> Seq<char> {
    "Min should be less than max"@
}

/// Picks a number from `min` up to, but not including, `max`, in decimal; or asks
/// for a range that holds one.
pub fn rng(min: i32, max: i32) -> (r: String)
    ensures
        min < max ==> exists|n: int| min <= n < max && r@ == #[trigger] signed_decimal(n),
        min >= max ==> r@ == empty_range_text(),
{
    if min < max {
        let choice = gen_range_inclusive(min, max - 1);
        let r = format_i32(choice);
        assert(r@ == signed_decimal(choice as int));
        r
    } else {
        String::from_str("Min should be less than max")
    }
}

} // verus!
