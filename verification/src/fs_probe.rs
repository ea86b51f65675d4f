//! Trusted probes into the filesystem.
//!
//! Both results depend on the state of the disk at the moment of the call,
//! so neither contract claims anything about them: every caller states what
//! holds of its own result whatever these return.

use vstd::prelude::*;
use std::path::Path;

verus! {

/// Relies on std::path::Path::exists: whether the path points at an entity
/// that exists on the filesystem right now.
#[verifier::external_body]
pub(crate) fn path_exists(p: &str) -> bool {
    Path::new(p).exists()
}

/// Relies on std::path::Path::canonicalize: resolves symlinks and relative
/// segments against the filesystem, returning the absolute path rendered as
/// a string, or the I/O error's message when the path cannot be resolved.
#[verifier::external_body]
pub(crate) fn canonicalize_path(p: &str) -> Result<String, String> {
    match Path::new(p).canonicalize() {
        Ok(c) => Ok(c.to_string_lossy().into_owned()),
        Err(e) => Err(e.to_string()),
    }
}

} // verus!
