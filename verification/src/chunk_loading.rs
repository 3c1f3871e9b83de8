//! Streaming of terrain around observers: chunk and tree positions, the
//! per-observer loader policy, the quadtree of chunk nodes that refines and
//! coarsens with observer distance, and the task scheduler.

pub mod chunk_loader;
pub mod chunk_pos;
pub mod chunk_tree;
