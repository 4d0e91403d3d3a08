//! Project-level binary declarations, consumed read-only.

use crate::version::VersionSelector;
use vstd::prelude::*;

verus! {

/// A binary declared in a project's configuration file: the source
/// path or url identifying the plugin, and an optional version
/// constraint.
pub struct ConfigFileBinary {
    pub path: String,
    pub version: Option<VersionSelector>,
}

} // verus!
