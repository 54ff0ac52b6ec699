//! Screen-space picking and geometric snapping for a sharded hull mesh.
//!
//! Geometry is held as integer millimetres, the same fixed-point form in
//! which the picking render target stores world positions.

pub mod arith;
pub mod capture;
pub mod codec;
pub mod geometry;
pub mod materials;
pub mod modes;
pub mod pick;
pub mod remote;
pub mod scene;
pub mod selection;
pub mod shard;
pub mod snap;
