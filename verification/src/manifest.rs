//! The decoded manifest model.
//!
//! The TOML parser is an external collaborator: the caller decodes the
//! manifest file and hands the installer these plain values, together
//! with the few filesystem facts resolution depends on (whether a target
//! exists, and what its canonical path is).

use vstd::prelude::*;

verus! {

/// One entry of a manifest section's install list.
#[derive(Debug, Clone, PartialEq, Eq)]
pub enum ManifestEntry {
    /// A bare string: a simple rename of the parent directory pass-through.
    Shorthand(String),
    /// A table of fields describing one install item.
    Item(RawEntry),
    /// Any other shape, carried as its textual form for diagnostics.
    Other(String),
}

/// The fields a manifest table may declare for one install item. A field
/// is `None` when it is absent or not of the expected type.
#[derive(Debug, Clone, PartialEq, Eq, Default)]
pub struct RawEntry {
    pub target: Option<String>,
    pub dest: Option<String>,
    pub perms: Option<u32>,
    pub strip_ext: Option<bool>,
    pub alias: Option<String>,
    pub overwrite: Option<bool>,
    pub comment: Option<String>,
}

/// What the filesystem says about an entry's target: the canonical form
/// of `parent/target` when canonicalization succeeded, and whether the
/// path the item will use exists.
#[derive(Debug, Clone, PartialEq, Eq)]
pub struct TargetFact {
    pub canon: Option<String>,
    pub exists: bool,
}

/// The `info` section of a manifest: package metadata. A field is `None`
/// when absent or not a string.
#[derive(Debug, Clone, PartialEq, Eq, Default)]
pub struct InfoFields {
    pub name: Option<String>,
    pub version: Option<String>,
    pub description: Option<String>,
    pub source: Option<String>,
}

/// What the filesystem says about an `info` section's `source` field and
/// about the manifest file itself.
#[derive(Debug, PartialEq, Eq)]
pub struct SourceFact {
    /// Canonicalizing the manifest file's own path: the canonical path,
    /// or the failure message.
    pub charon_canon: Result<String, String>,
    /// Whether the raw source path exists.
    pub source_exists: bool,
    /// Canonicalizing the raw source path: the canonical path, or the
    /// failure message.
    pub source_canon: Result<String, String>,
}

impl TargetFact {
    /// A fact for an entry whose target is absent or was not probed.
    pub fn unknown() -> (r: TargetFact)
        ensures
            r.canon is None,
            !r.exists,
    {
        TargetFact { canon: None, exists: false }
    }
}

} // verus!
