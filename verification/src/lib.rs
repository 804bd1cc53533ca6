//! Embedding one scheduled system inside another.
//!
//! A scheduler parallelizes systems by comparing their declared access sets
//! over a shared component store.  This crate lets an outer system privately
//! own and drive an inner system: a builder validates, at construction time,
//! that the inner system was built for the same world and that its declared
//! accesses cannot conflict with the outer system's, then folds them into the
//! outer declaration so the scheduler's global conflict analysis stays sound.

pub mod access;
pub mod inner;
pub mod kv;
pub mod laws;
pub mod system;
pub mod world;
