use vstd::prelude::*;

pub mod pixel;
pub mod bcd;
pub mod clock;
pub mod counter;
pub mod sync;

verus! {

} // verus!
