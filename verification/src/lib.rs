//! Verified core of a software solar-system renderer.
use vstd::prelude::*;

pub mod framebuffer;
pub mod input;
pub mod noise;
pub mod obj;
pub mod orbit_renderer;
pub mod pipeline;
pub mod skybox;
pub mod warp;

verus! {
}
