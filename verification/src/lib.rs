//! Configuration and resolution subsystem of a plugin-bridging toolchain.
//!
//! The crate models the persisted settings (installation method, optional
//! shim-library override directory, ordered set of plugin directories),
//! the encoding of those settings to and from the plain fields of the
//! on-disk file, the ordered fallback search for the shim library, and the
//! aggregation of per-directory scan outcomes.  Reading the environment,
//! the filesystem and the structured-text grammar itself are left to the
//! surrounding unverified layer, which hands this crate plain values.

pub mod config;
pub mod dirset;
pub mod indexer;
pub mod method;
pub mod order;
pub mod paths;
pub mod resolver;

pub use config::Config;
pub use config::RawConfig;
pub use dirset::DirSet;
pub use method::InstallationMethod;
pub use order::lex_lt;
pub use order::str_eq;
pub use order::str_lt;
pub use order::strict_sorted;
