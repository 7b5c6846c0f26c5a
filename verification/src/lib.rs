//! Paged streaming of voxel chunks around a moving viewer.
//!
//! The world is divided into fixed-size cubic chunks of blocks; chunks are
//! grouped into pages that tile the world horizontally and span its whole
//! height. A bounded pool of page buffers is filled from a generator and
//! recycled as the viewer moves, under a fixed per-tick load budget.

pub mod aabb;
pub mod chunk;
pub mod generator;
pub mod position;
pub mod rng;
pub mod streaming;
