//! Simulated peripherals for code that is written against hardware
//! abstraction traits: each peripheral is a pair of handles, one for the
//! code under test and one for the harness that drives it.

use vstd::prelude::*;

pub mod adc;
pub mod ethernet;
pub mod flash;
pub mod gpio;
pub mod graphics;
pub mod serial;
pub mod utils;

verus! {

/// The sum of two unsigned numbers that fits the type.
pub fn add(left: u64, right: u64) -> (sum: u64)
    requires
        left + right <= u64::MAX,
    ensures
        sum == left + right,
{
    left + right
}

} // verus!
