use vstd::prelude::*;

verus! {

/// The sum of two 32-bit integers under two's-complement wraparound, as the
/// host numeric model computes it.
pub open spec fn sum_wrapped(a: int, b: int) -> int {
    if a + b > i32::MAX {
        a + b - 0x1_0000_0000
    } else if a + b < i32::MIN {
        a + b + 0x1_0000_0000
    } else {
        a + b
    }
}

/// Adds two 32-bit integers, wrapping around on overflow.
pub fn add(a: i32, b: i32) -> (r: i32)
    ensures
        r == sum_wrapped(a as int, b as int),
{
    a.wrapping_add(b)
}

/// The greeting built for `name`: a fixed prefix, the name itself, then a
/// fixed decorative suffix.
pub open spec fn greeting_of(name: Seq<char>) -> Seq<char> {
    "Hello, "@ + name + "! From Rust WASM! \u{1f980}"@
}

/// Formats the greeting sentence for `name`. The name is embedded verbatim,
/// whatever characters it holds.
pub fn greet(name: &str) -> (r: String)
    ensures
        r@ == greeting_of(name@),
{
    let mut s = "Hello, ".to_owned();
    s.append(name);
    s.append("! From Rust WASM! \u{1f980}");
    s
}

/// Addition has no hidden state: any two results that `add`'s contract
/// allows for the same arguments are the same value.
pub proof fn lemma_add_deterministic(a: i32, b: i32, r1: i32, r2: i32)
    requires
        r1 == sum_wrapped(a as int, b as int),
        r2 == sum_wrapped(a as int, b as int),
    ensures
        r1 == r2,
{
}

/// Greeting has no hidden state: any two results that `greet`'s contract
/// allows for the same name are the same text.
pub proof fn lemma_greet_deterministic(name: Seq<char>, r1: Seq<char>, r2: Seq<char>)
    requires
        r1 == greeting_of(name),
        r2 == greeting_of(name),
    ensures
        r1 == r2,
{
}

} // verus!
