//! A value type for a single identifier token of the KDL document format.
//!
//! An identifier owns its decoded semantic `value` and, optionally, the exact
//! source spelling (`repr`) it was parsed from, so that an unmodified document
//! can be re-emitted byte for byte. Parsing first tries the current (v2)
//! grammar and falls back to the legacy (v1) grammar; when both fail, the v2
//! diagnostic is the one reported.

pub mod error;
pub mod grammar;
pub mod identifier;
pub mod props;

pub use error::KdlError;
pub use error::SourceSpan;
pub use identifier::KdlIdentifier;
