//! Errors reported by the sandbox core.

use vstd::prelude::*;

verus! {

/// A configuration field whose value is rejected.
#[derive(Clone, Copy, Debug, PartialEq, Eq, Structural)]
pub enum ConfigField {
    /// The cgroup hierarchy version: it must be 1 or 2 whenever a pids
    /// limit is set, since no other hierarchy can hold the cap.
    CGroupVersion,
}

/// Errors of the sandbox core.
#[derive(Clone, Copy, Debug, PartialEq, Eq, Structural)]
pub enum Error {
    /// An input string holds an interior NUL at the given byte position,
    /// so it cannot be handed to `execve` as a NUL-terminated string.
    InvalidString(usize),
    /// A configuration field holds a value the run cannot honour.
    ConfigInvalid(ConfigField),
}

} // verus!
