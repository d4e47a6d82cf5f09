use vstd::prelude::*;
use rand::Rng;

verus! {

/// How a guess stands to the secret number.
#[derive(Clone, Copy, Debug, PartialEq, Eq, Structural)]
pub enum Comparison {
    Less,
    Greater,
    Equal,
}

/// Compares a guess to the secret number. Exactly one outcome is reported:
/// `Less` iff the guess is below the secret, `Greater` iff it is above,
/// `Equal` iff the two coincide.
pub fn compare_guess(guess: u32, secret: u32) -> (c: Comparison)
    ensures
        c == Comparison::Less <==> guess < secret,
        c == Comparison::Greater <==> guess > secret,
        c == Comparison::Equal <==> guess == secret,
{
    if guess < secret {
        Comparison::Less
    } else if guess > secret {
        Comparison::Greater
    } else {
        Comparison::Equal
    }
}

/// The line the game prints for each outcome of a comparison.
pub fn outcome_message(c: Comparison) -> (r: &'static str)
    ensures
        c == Comparison::Less ==> r@ == "Too small!"@,
        c == Comparison::Greater ==> r@ == "Too big!"@,
        c == Comparison::Equal ==> r@ == "You win!"@,
{
    match c {
        Comparison::Less => "Too small!",
        Comparison::Greater => "Too big!",
        Comparison::Equal => "You win!",
    }
}

/// Relies on `rand::Rng::gen_range`: on a non-empty integer range it returns
/// a value inside that range (here `1..101`, so between 1 and 100).
#[verifier::external_body]
fn random_secret() -> (r: u32)
    ensures
        1 <= r <= 100,
{
    rand::thread_rng().gen_range(1..101)
}

/// Picks the secret number for a round of the game: a random value between 1
/// and 100, both ends included.
pub fn pick_secret() -> (r: u32)
    ensures
        1 <= r <= 100,
{
    random_secret()
}

} // verus!
