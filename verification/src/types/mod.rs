//! Value types shared by the kernel and the builtins: identities,
//! operation rights, quota declarations, capability metadata and
//! plugin manifests.

pub mod binding;
pub mod ids;
pub mod json;
pub mod manifest;
pub mod meta;
pub mod quota;
pub mod rights;
