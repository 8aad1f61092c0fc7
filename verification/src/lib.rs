//! A symlink farm manager: a declarative tree of sources and link locations
//! is resolved into link descriptors, filtered, and turned into the steps
//! that create or remove each link.
//!
//! Everything in this library is a decision over plain values. Inspecting the
//! filesystem and carrying out the planned steps is left to the caller.

pub mod error;
pub mod settings;
pub mod vars;
pub mod config;
pub mod filter;
pub mod link;
pub mod stow;
