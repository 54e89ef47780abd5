use vstd::prelude::*;

pub mod level;
pub mod text;
pub mod controller;
pub mod laws;

verus! {

} // verus!
