//! Reads a package manifest in TOML form, extracts its dependency table,
//! and renders each dependency as a `name:version` line, sorted by name.
//!
//! The TOML grammar itself is handled by the `toml` crate behind a small
//! trusted boundary (`tomlio`); everything that interprets the parsed
//! document — the dependency data model, the decoding policy with its
//! defaults, the sorted table and the line renderer — is verified.

pub mod decode;
pub mod depmap;
pub mod deps;
pub mod manifest;
pub mod order;
pub mod tomlio;

pub use decode::{decode_manifest, DecodeError};
pub use depmap::DepsSet;
pub use deps::{Dependency, DependencyDetail};
pub use manifest::{Manifest, Package, RenderError};
