//! Pointer interaction for a shared 2D physics sandbox.
//!
//! Players grab, drag and fling rigid bodies with their pointers. This crate
//! holds the decisions: which pointer holds which body, where a held body is
//! driven on each fixed tick, and what velocity it leaves with. The physics
//! engine itself is driven by the caller, through the commands returned here.
use vstd::prelude::*;

pub mod geometry;
pub mod palette;
pub mod interaction;
pub mod laws;
pub mod scene;

verus! {

} // verus!
