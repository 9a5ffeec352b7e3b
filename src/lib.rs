use vstd::prelude::*;

pub mod blast;
pub mod geometry;
pub mod imp;
pub mod interval;
pub mod judge;
pub mod scene;
pub mod walk;

verus! {

} // verus!
