//! Three small verified utilities: a number-guessing comparator with its
//! input parser and secret picker, a longest-string selector, and a pair of
//! host-callable helpers (integer addition and a greeting formatter).

pub mod guessing;
pub mod hello;
pub mod numeral;
pub mod selector;
