//! Core of a per-user, multi-language runtime version manager.
//!
//! The library holds the logic that is worth proving: the `.tool-versions`
//! grammar, the rc-file reader, the canonical on-disk path layout, version
//! resolution with provenance, install and reshim planning, and the shim
//! file format.  Everything here works on plain values; the thin binary
//! around the library performs the file, environment and subprocess work
//! and hands the results in.

pub mod config;
pub mod current;
pub mod dispatch;
pub mod errors;
pub mod install;
pub mod latest;
pub mod paths;
pub mod plugins;
pub mod resolve;
pub mod shims;
pub mod text;
pub mod tool_versions;
