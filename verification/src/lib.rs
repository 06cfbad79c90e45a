//! Verified core of the PocketJS Kobo host: settings, e-ink refresh policy,
//! frame damage, evdev touch decoding and calibration, panel-update
//! bookkeeping, logic-loop pacing, and the P3M1 mesh asset reader.
use vstd::prelude::*;

pub mod args;
pub mod damage;
pub mod devices;
pub mod epdc;
pub mod geometry;
pub mod host;
pub mod input;
pub mod mesh;
pub mod mesh_layout;
pub mod net;
pub mod pacing;
pub mod power;
pub mod refresh;
pub mod text;
pub mod touch;

verus! {
} // verus!
