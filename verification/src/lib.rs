//! A verified model of a three-pass deferred renderer and its keyframe
//! animation sampler.
//!
//! The crate is split along the line between decisions and device work.
//! Everything that decides — fixed-point interpolation, keyframe lookup,
//! pass ordering, resource formats and sizes, the per-frame command
//! stream — lives here with a proved contract. The device itself (GPU,
//! window, asset files) is driven by an unverified shell that executes
//! the plans this library produces and feeds their results back in as
//! plain values.
//!
//! All quantities are integers: sample times are ticks, vector and
//! quaternion components are fixed-point values. The shell converts to
//! and from its own floating-point representation at the boundary.

pub mod math;
pub mod animation;
pub mod raster;
pub mod context;
