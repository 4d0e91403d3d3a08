//! Binary names, identifiers and name selectors.

use crate::version::Version;
use vstd::prelude::*;

verus! {

/// The qualified name of a binary: the publishing owner together with
/// the short name under which its commands are installed.
#[derive(Debug)]
pub struct BinaryName {
    pub owner: String,
    pub name: String,
}

/// The full identity of one installed binary: owner, short name and
/// version.  At most one installed binary carries a given identifier.
pub struct BinaryIdentifier {
    pub name: BinaryName,
    pub version: Version,
}

/// A possibly-partial match key: an exact short name, with or without
/// an owner constraint.
#[derive(Debug, PartialEq, Eq)]
pub struct NameSelector {
    pub owner: Option<String>,
    pub name: String,
}

/// Whether a qualified name satisfies a selector: the short names are
/// equal and the owner constraint, if present, is met.
pub open spec fn name_matches(sel: NameSelector, n: BinaryName) -> bool {
    &&& sel.name@ == n.name@
    &&& match sel.owner {
        Some(o) => o@ == n.owner@,
        None => true,
    }
}

/// The rendering of a qualified name: "owner/name".
pub open spec fn name_chars(n: BinaryName) -> Seq<char> {
    n.owner@ + seq!['/'] + n.name@
}

/// The rendering of a selector: "owner/name" when the owner is
/// constrained, the bare short name otherwise.
pub open spec fn name_selector_chars(sel: NameSelector) -> Seq<char> {
    match sel.owner {
        Some(o) => o@ + seq!['/'] + sel.name@,
        None => sel.name@,
    }
}

/// The selector that constrains both the owner and the short name to
/// those of a qualified name.
pub open spec fn selector_for(n: BinaryName) -> NameSelector {
    NameSelector { owner: Some(n.owner), name: n.name }
}

impl BinaryName {
    /// The selector that matches exactly this qualified name.
    pub fn to_selector(&self) -> (r: NameSelector)
        ensures
            r == selector_for(*self),
    {
        NameSelector { owner: Some(self.owner.clone()), name: self.name.clone() }
    }

    /// Renders the qualified name as "owner/name".
    pub fn to_display_string(&self) -> (r: String)
        ensures
            r@ == name_chars(*self),
    {
        let mut s = self.owner.clone();
        s.append("/");
        s.append(self.name.as_str());
        proof {
            reveal_strlit("/");
            assert(s@ =~= name_chars(*self));
        }
        s
    }
}

impl Clone for BinaryName {
    /// A clone carries the same owner and short name.
    fn clone(&self) -> (r: Self)
        ensures
            r == *self,
    {
        BinaryName { owner: self.owner.clone(), name: self.name.clone() }
    }
}

impl Clone for BinaryIdentifier {
    /// A clone carries the same name and version.
    fn clone(&self) -> (r: Self)
        ensures
            r == *self,
    {
        BinaryIdentifier { name: self.name.clone(), version: self.version }
    }
}

impl Clone for NameSelector {
    /// A clone carries the same owner constraint and short name.
    fn clone(&self) -> (r: Self)
        ensures
            r == *self,
    {
        let owner = match &self.owner {
            Some(o) => Some(o.clone()),
            None => None,
        };
        NameSelector { owner, name: self.name.clone() }
    }
}

impl NameSelector {
    /// Executable match test, proved against `name_matches`.
    pub fn matches(&self, n: &BinaryName) -> (r: bool)
        ensures
            r == name_matches(*self, *n),
    {
        if self.name != n.name {
            return false;
        }
        match &self.owner {
            Some(o) => *o == n.owner,
            None => true,
        }
    }

    /// Renders the selector: "owner/name" or the bare short name.
    pub fn to_display_string(&self) -> (r: String)
        ensures
            r@ == name_selector_chars(*self),
    {
        match &self.owner {
            Some(o) => {
                let mut s = o.clone();
                s.append("/");
                s.append(self.name.as_str());
                proof {
                    reveal_strlit("/");
                    assert(s@ =~= name_selector_chars(*self));
                }
                s
            },
            None => self.name.clone(),
        }
    }
}

} // verus!
