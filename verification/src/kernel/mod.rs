//! The capability kernel: quota accounting, the capability space and
//! its derivation graph, and the event vocabulary of graph mutations.

pub mod cspace;
pub mod error;
pub mod events;
pub mod factory;
pub mod graph;
pub mod quota;
pub mod resource;
pub mod slot;
