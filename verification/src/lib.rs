//! Core logic of an unattended time-lapse recorder: double-buffered capture
//! scheduling, encode and stitch planning, and the on-disk archive model.

pub mod archive;
pub mod buffers;
pub mod camera;
pub mod clock;
pub mod consumer;
pub mod digits;
pub mod encoder;
pub mod manufacturer;
pub mod stitch;
pub mod streaming;
