use vstd::prelude::*;

pub mod laws;
pub mod remote;
pub mod tank;

verus! {

} // verus!
