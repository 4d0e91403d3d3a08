//! Semantic versions and version selectors.

use crate::text::dec_chars;
use crate::text::u64_to_string;
use vstd::prelude::*;

verus! {

/// A semantic version: major, minor and patch components.
#[derive(Clone, Copy, Debug, PartialEq, Eq, Structural)]
pub struct Version {
    pub major: u64,
    pub minor: u64,
    pub patch: u64,
}

/// Order on versions: by major, then minor, then patch.
pub open spec fn version_le(a: Version, b: Version) -> bool {
    if a.major != b.major {
        a.major < b.major
    } else if a.minor != b.minor {
        a.minor < b.minor
    } else {
        a.patch <= b.patch
    }
}

/// The rendering of a version: the three components in decimal,
/// separated by dots.
pub open spec fn version_chars(v: Version) -> Seq<char> {
    dec_chars(v.major as nat) + seq!['.'] + dec_chars(v.minor as nat) + seq!['.'] + dec_chars(
        v.patch as nat,
    )
}

impl Version {
    /// Executable comparison, proved against `version_le`.
    pub fn le(&self, other: &Version) -> (r: bool)
        ensures
            r == version_le(*self, *other),
    {
        if self.major != other.major {
            self.major < other.major
        } else if self.minor != other.minor {
            self.minor < other.minor
        } else {
            self.patch <= other.patch
        }
    }

    /// Renders the version as "major.minor.patch".
    pub fn to_display_string(&self) -> (r: String)
        ensures
            r@ == version_chars(*self),
    {
        let mut s = u64_to_string(self.major);
        s.append(".");
        let minor = u64_to_string(self.minor);
        s.append(minor.as_str());
        s.append(".");
        let patch = u64_to_string(self.patch);
        s.append(patch.as_str());
        proof {
            reveal_strlit(".");
            assert(s@ =~= version_chars(*self));
        }
        s
    }
}

/// A version constraint carried by a selector: an exact version, a
/// half-open range (lower bound inclusive, upper bound exclusive), or
/// any version at all.
#[derive(Clone, Copy, Debug, PartialEq, Eq, Structural)]
pub enum VersionSelector {
    Exact(Version),
    Range(Version, Version),
    Any,
}

/// Whether a version satisfies a selector.
pub open spec fn version_matches(sel: VersionSelector, v: Version) -> bool {
    match sel {
        VersionSelector::Exact(w) => v == w,
        VersionSelector::Range(lo, hi) => version_le(lo, v) && version_le(v, hi) && v != hi,
        VersionSelector::Any => true,
    }
}

impl VersionSelector {
    /// Executable match test, proved against `version_matches`.
    pub fn matches(&self, v: &Version) -> (r: bool)
        ensures
            r == version_matches(*self, *v),
    {
        match self {
            VersionSelector::Exact(w) => *v == *w,
            VersionSelector::Range(lo, hi) => lo.le(v) && v.le(hi) && *v != *hi,
            VersionSelector::Any => true,
        }
    }

    /// Renders the selector: the version itself, a ">=lo <hi" range, or
    /// "*" for any version.
    pub fn to_display_string(&self) -> (r: String)
        ensures
            r@ == version_selector_chars(*self),
    {
        match self {
            VersionSelector::Exact(w) => w.to_display_string(),
            VersionSelector::Range(lo, hi) => {
                let mut s = String::from_str(">=");
                let lo_str = lo.to_display_string();
                s.append(lo_str.as_str());
                s.append(" <");
                let hi_str = hi.to_display_string();
                s.append(hi_str.as_str());
                proof {
                    reveal_strlit(">=");
                    reveal_strlit(" <");
                    assert(s@ =~= version_selector_chars(*self));
                }
                s
            },
            VersionSelector::Any => {
                let s = String::from_str("*");
                proof {
                    reveal_strlit("*");
                    assert(s@ =~= version_selector_chars(*self));
                }
                s
            },
        }
    }
}

/// The rendering of a version selector.
pub open spec fn version_selector_chars(sel: VersionSelector) -> Seq<char> {
    match sel {
        VersionSelector::Exact(w) => version_chars(w),
        VersionSelector::Range(lo, hi) => seq!['>', '='] + version_chars(lo) + seq![' ', '<']
            + version_chars(hi),
        VersionSelector::Any => seq!['*'],
    }
}

} // verus!
