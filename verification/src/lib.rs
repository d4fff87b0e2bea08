//! Verified core logic of a real-time 3-D scene viewer: light bookkeeping, mesh index
//! generation and merging, camera selection, resource toggles and the input state machine.
use vstd::prelude::*;

pub mod camera;
pub mod controls;
pub mod light;
pub mod mesh;
pub mod primitives;
pub mod scene;

verus! {

} // verus!
