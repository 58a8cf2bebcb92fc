//! A small home-automation state engine: a bounded registry of rooms, each
//! with a fixed set of devices, and an allocation-free JSON snapshot encoder.
//! Beside it stand the buffers of a static asset bundle and a few stateless
//! helpers.

pub mod assets;
pub mod buffer;
pub mod demo;
pub mod laws;
pub mod registry;
pub mod room;
pub mod snapshot;
