//! Verified core of a binaural spatialization adapter.
//!
//! The library models the self-contained logic of an HRTF (head-related
//! transfer function) audio node: tracking the direction from an emitter to
//! its nearest listener, downmixing input channels to mono, accumulating
//! fixed-size sample blocks for an external convolution renderer, and
//! draining the rendered stereo output. All quantities are fixed-point
//! integers (see [`math::SCALE`]); the host shell converts to and from the
//! renderer's floating-point samples.

pub mod adapter;
pub mod math;
pub mod tracker;
pub mod vec3;
