//! Turning the user's root argument into the path to watch.
//!
//! The root argument is canonicalized against the filesystem, the fixed
//! `exercises` component is appended, and the result must exist; otherwise
//! the watcher refuses to start. Both failures are fatal and carry the
//! message the binary prints before exiting.

use vstd::prelude::*;
use vstd::string::StringExecFns;

use crate::fs_probe;
use crate::path_model::push_component;
use crate::path_model::pushed;

verus! {

/// The name of the watched subdirectory under the user's root.
pub open spec fn exercises_component() -> Seq<char> {
    "exercises"@
}

/// The watch path attempted for a canonical root: the root with the
/// `exercises` component appended.
pub open spec fn exercises_dir_path(root: Seq<char>) -> Seq<char> {
    pushed(root, exercises_component())
}

/// Why the watcher cannot start on the given root argument.
#[derive(Debug)]
pub enum PathError {
    /// The root argument does not canonicalize: it does not exist or cannot
    /// be resolved.
    InvalidPath {
        /// The underlying cause, as the filesystem reported it.
        cause: String,
        /// The path that was originally requested.
        requested: String,
    },
    /// The canonical root has no `exercises` subdirectory.
    MissingExercisesDir {
        /// The path that was attempted and found missing.
        attempted: String,
    },
}

/// The diagnostic a `PathError` is reported with.
pub open spec fn path_error_message(e: PathError) -> Seq<char> {
    match e {
        PathError::InvalidPath { cause, requested } => cause@ + "\nTargeting: "@ + requested@,
        PathError::MissingExercisesDir { attempted } => "Cannot find ziglings exercises directory in "@
            + attempted@,
    }
}

impl PathError {
    /// Renders the diagnostic: the underlying cause together with the
    /// requested path, or the attempted watch path that was missing.
    pub fn message(&self) -> (r: String)
        ensures
            r@ == path_error_message(*self),
    {
        match self {
            PathError::InvalidPath { cause, requested } => {
                let mut out = cause.clone();
                out.append("\nTargeting: ");
                out.append(requested.as_str());
                out
            },
            PathError::MissingExercisesDir { attempted } => {
                let mut out = "Cannot find ziglings exercises directory in ".to_owned();
                out.append(attempted.as_str());
                out
            },
        }
    }
}

/// The decision once the filesystem has answered whether the attempted
/// watch path exists: the path itself, or the fatal error naming it.
pub fn check_exercises_dir(attempted: String, present: bool) -> (r: Result<String, PathError>)
    ensures
        match r {
            Ok(p) => present && p@ == attempted@,
            Err(e) => !present && (e matches PathError::MissingExercisesDir { attempted: a }
                && a@ == attempted@),
        },
{
    if present {
        Ok(attempted)
    } else {
        Err(PathError::MissingExercisesDir { attempted })
    }
}

/// Resolves the user's root argument to the path to watch: the canonical
/// form of the argument with `exercises` appended. Canonicalization is the
/// filesystem's answer and cannot be promised ahead of the call; in every
/// other respect the contract pins the result down: a successful resolution
/// is some canonical root with `exercises` appended, a missing-directory
/// error names exactly such a path, and an invalid-path error echoes the
/// requested argument.
pub fn prepare_path(raw: &str) -> (r: Result<String, PathError>)
    ensures
        match r {
            Ok(p) => exists|root: Seq<char>| p@ == exercises_dir_path(root),
            Err(e) => match e {
                PathError::InvalidPath { cause, requested } => requested@ == raw@,
                PathError::MissingExercisesDir { attempted } => exists|root: Seq<char>|
                    attempted@ == exercises_dir_path(root),
            },
        },
{
    match fs_probe::canonicalize_path(raw) {
        Err(cause) => Err(PathError::InvalidPath { cause, requested: raw.to_owned() }),
        Ok(canon) => {
            let attempted = push_component(canon.as_str(), "exercises");
            proof {
                assert(attempted@ == exercises_dir_path(canon@));
            }
            let present = fs_probe::path_exists(attempted.as_str());
            check_exercises_dir(attempted, present)
        },
    }
}

} // verus!
