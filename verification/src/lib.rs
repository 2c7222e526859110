//! Rotation of on-disk files and directory trees.
//!
//! A live path and a retention count define a fixed generation sequence
//! (`p`, `p.1`, `p.2`, ...).  Rotating shifts existing generations down the
//! chain, deletes generations beyond the retention limit, and replaces the
//! live path with a fresh empty target, either by renaming (move-create) or
//! by a sparse-aware copy followed by truncation (copy-truncate).

#![verifier::loop_isolation(false)]

use vstd::prelude::*;

pub mod byte_size;
pub mod matcher;
pub mod model;
pub mod path_rule;
pub mod rotate;
pub mod util;

verus! {

/// Errors reported by the library.
#[derive(Clone, Copy, Debug, PartialEq, Eq, Structural)]
pub enum RotateError {
    /// The job configuration is unusable: a non-absolute path or a retention
    /// count out of bounds.  Rejected before any filesystem mutation.
    InvalidConfiguration,
    /// A filesystem operation failed; the current migration subtree is
    /// abandoned and the error is propagated.
    Filesystem,
}

impl RotateError {
    /// A short description of the error, for callers that report it.
    pub fn message(&self) -> (r: &'static str)
        ensures
            *self is InvalidConfiguration ==> r@ == "invalid configuration"@,
            *self is Filesystem ==> r@ == "filesystem operation failed"@,
    {
        match self {
            RotateError::InvalidConfiguration => "invalid configuration",
            RotateError::Filesystem => "filesystem operation failed",
        }
    }
}

} // verus!
