use vstd::prelude::*;

verus! {

/// Returns whichever of the two strings has the greater character count; on a
/// tie, the second one. The result borrows from both inputs, so it lives only
/// as long as the shorter-lived of the two.
pub fn longest<'a>(x: &'a str, y: &'a str) -> (r: &'a str)
    ensures
        x@.len() > y@.len() ==> r@ == x@,
        y@.len() >= x@.len() ==> r@ == y@,
{
    if x.unicode_len() > y.unicode_len() {
        x
    } else {
        y
    }
}

} // verus!
