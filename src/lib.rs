//! Registers a new library unit in a multi-crate workspace: the unit's dependency entry in
//! the workspace's dependency manifest, and its name in the binding generator's configuration.
//!
//! - `path`: workspace locations composed from segments.
//! - `document`: the tree model of a configuration document and its keyed tables.
//! - `registrar`: the two document updates, with their laws.
//! - `error`: why a run stops.
//! - `workflow`: the registration run as a state machine that asks for outside work.

pub mod document;
pub mod error;
pub mod path;
pub mod registrar;
pub mod workflow;
