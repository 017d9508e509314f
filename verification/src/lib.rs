//! odyssey — a seL4-style capability kernel.
//!
//! Layers: `types` holds the value types (identities, rights, quota
//! declarations, manifests, metadata); `kernel` holds the capability
//! space, quota accounting and the derivation graph; `builtins` holds
//! the logic of the builtin plugins (agent observer, session rules,
//! prompts, key-value database, model stubs).

pub mod text;
pub mod types;
pub mod kernel;
pub mod builtins;
pub mod lifecycle;
pub mod bridge;
