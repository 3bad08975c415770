//! Root authority control plane: routes typed administrative commands to the
//! stores it owns (trust anchor, mount-exclusion lists, per-module
//! configuration, process marks) and delegates everything else to external
//! collaborators.

pub mod assoc;
pub mod digits;
pub mod module_config;
pub mod mount_exclusion;
pub mod parse;
pub mod process_mark;
pub mod request;
pub mod router;
pub mod trust_anchor;
