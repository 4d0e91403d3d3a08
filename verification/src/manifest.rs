//! The in-memory manifest of installed binaries and its query surface.
//!
//! The manifest is an immutable snapshot: installed binaries, the
//! url-to-identifier associations recorded at install time, and the
//! current global command bindings.  All operations are pure reads.

use crate::names::name_matches;
use crate::names::BinaryIdentifier;
use crate::names::BinaryName;
use crate::names::NameSelector;
use crate::text::chars_le;
use crate::text::lemma_chars_le_antisymmetric;
use crate::text::lemma_chars_le_total;
use crate::text::lemma_chars_le_transitive;
use crate::text::str_eq;
use crate::text::str_le;
use crate::version::version_le;
use crate::version::version_matches;
use crate::version::Version;
use crate::version::VersionSelector;
use vstd::prelude::*;

verus! {

/// One command provided by an installed binary: the command's name and
/// the executable's path relative to the binary's cache directory.
#[derive(Debug)]
pub struct CommandInfo {
    pub name: String,
    pub path: String,
}

/// One installed binary: its qualified name, its version, and the
/// commands it provides.
#[derive(Debug)]
pub struct BinaryManifestItem {
    pub name: BinaryName,
    pub version: Version,
    pub commands: Vec<CommandInfo>,
}

/// Order on installed binaries: by short name first, then by version.
/// The owner is deliberately excluded, so items that differ only in
/// owner compare equal under this order.
pub open spec fn item_le(a: BinaryManifestItem, b: BinaryManifestItem) -> bool {
    if a.name.name@ == b.name.name@ {
        version_le(a.version, b.version)
    } else {
        chars_le(a.name.name@, b.name.name@)
    }
}

/// The item order is total.
pub proof fn lemma_item_le_total(a: BinaryManifestItem, b: BinaryManifestItem)
    ensures
        item_le(a, b) || item_le(b, a),
{
    if a.name.name@ != b.name.name@ {
        lemma_chars_le_total(a.name.name@, b.name.name@);
    }
}

/// The item order is transitive.
pub proof fn lemma_item_le_transitive(
    a: BinaryManifestItem,
    b: BinaryManifestItem,
    c: BinaryManifestItem,
)
    requires
        item_le(a, b),
        item_le(b, c),
    ensures
        item_le(a, c),
{
    let na = a.name.name@;
    let nb = b.name.name@;
    let nc = c.name.name@;
    if na == nb && nb == nc {
    } else if na == nb {
        // item_le(b, c) decides by name, and a's name equals b's.
    } else if nb == nc {
    } else if na == nc {
        // chars_le(na, nb) and chars_le(nb, na) would force na == nb.
        lemma_chars_le_antisymmetric(na, nb);
    } else {
        lemma_chars_le_transitive(na, nb, nc);
    }
}

impl BinaryManifestItem {
    /// Executable comparison under the item order.
    pub fn le(&self, other: &BinaryManifestItem) -> (r: bool)
        ensures
            r == item_le(*self, *other),
    {
        if self.name.name == other.name.name {
            self.version.le(&other.version)
        } else {
            str_le(self.name.name.as_str(), other.name.name.as_str())
        }
    }

    /// Whether this binary provides a command of the given name.
    pub fn provides_command(&self, command_name: &str) -> (r: bool)
        ensures
            r == provides_command(*self, command_name@),
    {
        let mut i: usize = 0;
        while i < self.commands.len()
            invariant
                i <= self.commands@.len(),
                forall|j: int| 0 <= j < i ==> self.commands@[j].name@ != command_name@,
            decreases self.commands@.len() - i,
        {
            if str_eq(self.commands[i].name.as_str(), command_name) {
                return true;
            }
            i = i + 1;
        }
        false
    }
}

/// Whether an installed binary provides a command of the given name.
pub open spec fn provides_command(b: BinaryManifestItem, command_name: Seq<char>) -> bool {
    exists|i: int| 0 <= i < b.commands@.len() && b.commands@[i].name@ == command_name
}

/// Whether an installed binary carries the given identifier.
pub open spec fn has_identifier(b: BinaryManifestItem, id: BinaryIdentifier) -> bool {
    &&& b.name.owner@ == id.name.owner@
    &&& b.name.name@ == id.name.name@
    &&& b.version == id.version
}

/// Whether two installed binaries carry the same identifier.
pub open spec fn same_identifier(a: BinaryManifestItem, b: BinaryManifestItem) -> bool {
    &&& a.name.owner@ == b.name.owner@
    &&& a.name.name@ == b.name.name@
    &&& a.version == b.version
}

/// Whether an installed binary matches both a name selector and a
/// version selector.
pub open spec fn nv_matches(
    ns: NameSelector,
    vs: VersionSelector,
    b: BinaryManifestItem,
) -> bool {
    name_matches(ns, b.name) && version_matches(vs, b.version)
}

/// The manifest-level choice of what serves a command system-wide:
/// whatever executable is found on the system PATH outside the
/// manager's own shims, or one specific installed binary.
pub enum GlobalBinaryLocation {
    Path,
    Bvm(BinaryIdentifier),
}

/// One url-to-identifier association, recorded when a plugin is
/// installed from that url.
pub struct UrlAssociation {
    pub url: String,
    pub identifier: BinaryIdentifier,
}

/// The global binding of one command name.
pub struct GlobalLocationBinding {
    pub command: String,
    pub location: GlobalBinaryLocation,
}

/// The loaded manifest: installed binaries, url associations and global
/// command bindings.
pub struct PluginsManifest {
    pub binaries: Vec<BinaryManifestItem>,
    pub url_associations: Vec<UrlAssociation>,
    pub global_locations: Vec<GlobalLocationBinding>,
}

/// The sequence of items that a sequence of references denotes.
pub open spec fn derefs(s: Seq<&BinaryManifestItem>) -> Seq<BinaryManifestItem> {
    s.map_values(|b: &BinaryManifestItem| *b)
}

impl PluginsManifest {
    /// Well-formedness: identifiers name at most one installed binary,
    /// a url is associated to at most one identifier, and a command has
    /// at most one global binding.
    pub open spec fn wf(self) -> bool {
        &&& forall|i: int, j: int|
            0 <= i < j < self.binaries@.len() ==> !same_identifier(
                self.binaries@[i],
                self.binaries@[j],
            )
        &&& forall|i: int, j: int|
            0 <= i < j < self.url_associations@.len() ==> self.url_associations@[i].url@
                != self.url_associations@[j].url@
        &&& forall|i: int, j: int|
            0 <= i < j < self.global_locations@.len() ==> self.global_locations@[i].command@
                != self.global_locations@[j].command@
    }

    /// The identifier associated to a url, if any.
    pub open spec fn url_identifier(self, url: Seq<char>) -> Option<BinaryIdentifier> {
        if exists|i: int|
            0 <= i < self.url_associations@.len() && self.url_associations@[i].url@ == url {
            let i = choose|i: int|
                0 <= i < self.url_associations@.len() && self.url_associations@[i].url@ == url;
            Some(self.url_associations@[i].identifier)
        } else {
            None
        }
    }

    /// The installed binary carrying an identifier, if any.
    pub open spec fn binary_for(self, id: BinaryIdentifier) -> Option<BinaryManifestItem> {
        if exists|i: int| 0 <= i < self.binaries@.len() && has_identifier(self.binaries@[i], id) {
            let i = choose|i: int|
                0 <= i < self.binaries@.len() && has_identifier(self.binaries@[i], id);
            Some(self.binaries@[i])
        } else {
            None
        }
    }

    /// The global binding of a command, if any.
    pub open spec fn location_for(self, command_name: Seq<char>) -> Option<GlobalBinaryLocation> {
        if exists|i: int|
            0 <= i < self.global_locations@.len() && self.global_locations@[i].command@
                == command_name {
            let i = choose|i: int|
                0 <= i < self.global_locations@.len() && self.global_locations@[i].command@
                    == command_name;
            Some(self.global_locations@[i].location)
        } else {
            None
        }
    }

    /// The installed binaries among the first `n` matching a name
    /// selector and a version selector, in manifest order.
    spec fn matching_name_version_prefix(
        self,
        ns: NameSelector,
        vs: VersionSelector,
        n: int,
    ) -> Seq<BinaryManifestItem> {
        self.binaries@.take(n).filter(|b: BinaryManifestItem| nv_matches(ns, vs, b))
    }

    /// The installed binaries matching a name selector and a version
    /// selector, in manifest order.
    pub open spec fn matching_name_version(self, ns: NameSelector, vs: VersionSelector) -> Seq<
        BinaryManifestItem,
    > {
        self.binaries@.filter(|b: BinaryManifestItem| nv_matches(ns, vs, b))
    }

    /// The installed binaries among the first `n` matching a name
    /// selector, in manifest order.
    spec fn matching_name_prefix(self, ns: NameSelector, n: int) -> Seq<
        BinaryManifestItem,
    > {
        self.binaries@.take(n).filter(|b: BinaryManifestItem| name_matches(ns, b.name))
    }

    /// The installed binaries matching a name selector, in manifest
    /// order.
    pub open spec fn matching_name(self, ns: NameSelector) -> Seq<BinaryManifestItem> {
        self.binaries@.filter(|b: BinaryManifestItem| name_matches(ns, b.name))
    }

    /// The installed binaries among the first `n` providing a command,
    /// in manifest order.
    spec fn with_command_prefix(self, command_name: Seq<char>, n: int) -> Seq<
        BinaryManifestItem,
    > {
        self.binaries@.take(n).filter(|b: BinaryManifestItem| provides_command(b, command_name))
    }

    /// The installed binaries providing a command, in manifest order.
    pub open spec fn with_command(self, command_name: Seq<char>) -> Seq<BinaryManifestItem> {
        self.binaries@.filter(|b: BinaryManifestItem| provides_command(b, command_name))
    }

    /// Looks up the identifier associated to a url.
    #[verifier::loop_isolation(false)]
    pub fn get_identifier_from_url<'a>(&'a self, url: &str) -> (r: Option<&'a BinaryIdentifier>)
        requires
            self.wf(),
        ensures
            match r {
                Some(id) => self.url_identifier(url@) == Some(*id),
                None => self.url_identifier(url@) is None,
            },
    {
        let mut i: usize = 0;
        while i < self.url_associations.len()
            invariant
                i <= self.url_associations@.len(),
                forall|j: int| 0 <= j < i ==> self.url_associations@[j].url@ != url@,
            decreases self.url_associations@.len() - i,
        {
            if str_eq(self.url_associations[i].url.as_str(), url) {
                return Some(&self.url_associations[i].identifier);
            }
            i = i + 1;
        }
        None
    }

    /// Looks up the installed binary carrying an identifier.
    #[verifier::loop_isolation(false)]
    pub fn get_binary<'a>(&'a self, identifier: &BinaryIdentifier) -> (r: Option<
        &'a BinaryManifestItem,
    >)
        requires
            self.wf(),
        ensures
            match r {
                Some(b) => self.binary_for(*identifier) == Some(*b),
                None => self.binary_for(*identifier) is None,
            },
    {
        let mut i: usize = 0;
        while i < self.binaries.len()
            invariant
                i <= self.binaries@.len(),
                forall|j: int| 0 <= j < i ==> !has_identifier(self.binaries@[j], *identifier),
            decreases self.binaries@.len() - i,
        {
            let b = &self.binaries[i];
            if b.name.owner == identifier.name.owner && b.name.name == identifier.name.name
                && b.version == identifier.version {
                proof {
                    assert(has_identifier(self.binaries@[i as int], *identifier));
                    let k = choose|k: int|
                        0 <= k < self.binaries@.len() && has_identifier(
                            self.binaries@[k],
                            *identifier,
                        );
                    assert(same_identifier(self.binaries@[k], self.binaries@[i as int]));
                    assert(same_identifier(self.binaries@[i as int], self.binaries@[k]));
                    assert(k == i as int);
                }
                return Some(b);
            }
            i = i + 1;
        }
        None
    }

    /// Looks up the global binding of a command.
    #[verifier::loop_isolation(false)]
    pub fn get_global_binary_location<'a>(&'a self, command_name: &str) -> (r: Option<
        &'a GlobalBinaryLocation,
    >)
        requires
            self.wf(),
        ensures
            match r {
                Some(loc) => self.location_for(command_name@) == Some(*loc),
                None => self.location_for(command_name@) is None,
            },
    {
        let mut i: usize = 0;
        while i < self.global_locations.len()
            invariant
                i <= self.global_locations@.len(),
                forall|j: int| 0 <= j < i ==> self.global_locations@[j].command@ != command_name@,
            decreases self.global_locations@.len() - i,
        {
            if str_eq(self.global_locations[i].command.as_str(), command_name) {
                return Some(&self.global_locations[i].location);
            }
            i = i + 1;
        }
        None
    }

    /// Collects the installed binaries matching a name selector and a
    /// version selector.
    #[verifier::loop_isolation(false)]
    pub fn get_binaries_matching_name_and_version<'a>(
        &'a self,
        name_selector: &NameSelector,
        version_selector: &VersionSelector,
    ) -> (r: Vec<&'a BinaryManifestItem>)
        ensures
            derefs(r@) == self.matching_name_version(*name_selector, *version_selector),
    {
        let mut out: Vec<&'a BinaryManifestItem> = Vec::new();
        let mut i: usize = 0;
        proof {
            assert(derefs(out@) =~= self.matching_name_version_prefix(
                *name_selector,
                *version_selector,
                0,
            ));
        }
        while i < self.binaries.len()
            invariant
                i <= self.binaries@.len(),
                derefs(out@) == self.matching_name_version_prefix(
                    *name_selector,
                    *version_selector,
                    i as int,
                ),
            decreases self.binaries@.len() - i,
        {
            let b = &self.binaries[i];
            let keep = name_selector.matches(&b.name) && version_selector.matches(&b.version);
            proof {
                lemma_matching_name_version_step(*self, *name_selector, *version_selector, i as int);
            }
            if keep {
                out.push(b);
                proof {
                    assert(derefs(out@) =~= self.matching_name_version_prefix(
                        *name_selector,
                        *version_selector,
                        i + 1,
                    ));
                }
            }
            i = i + 1;
        }
        proof {
            assert(self.binaries@.take(self.binaries@.len() as int) =~= self.binaries@);
        }
        out
    }

    /// Collects the installed binaries matching a name selector alone.
    #[verifier::loop_isolation(false)]
    pub fn get_binaries_matching_name<'a>(&'a self, name_selector: &NameSelector) -> (r: Vec<
        &'a BinaryManifestItem,
    >)
        ensures
            derefs(r@) == self.matching_name(*name_selector),
    {
        let mut out: Vec<&'a BinaryManifestItem> = Vec::new();
        let mut i: usize = 0;
        proof {
            assert(derefs(out@) =~= self.matching_name_prefix(*name_selector, 0));
        }
        while i < self.binaries.len()
            invariant
                i <= self.binaries@.len(),
                derefs(out@) == self.matching_name_prefix(*name_selector, i as int),
            decreases self.binaries@.len() - i,
        {
            let b = &self.binaries[i];
            let keep = name_selector.matches(&b.name);
            proof {
                lemma_matching_name_step(*self, *name_selector, i as int);
            }
            if keep {
                out.push(b);
                proof {
                    assert(derefs(out@) =~= self.matching_name_prefix(*name_selector, i + 1));
                }
            }
            i = i + 1;
        }
        proof {
            assert(self.binaries@.take(self.binaries@.len() as int) =~= self.binaries@);
        }
        out
    }

    /// Collects the installed binaries that provide a command.
    #[verifier::loop_isolation(false)]
    pub fn get_binaries_with_command<'a>(&'a self, command_name: &str) -> (r: Vec<
        &'a BinaryManifestItem,
    >)
        ensures
            derefs(r@) == self.with_command(command_name@),
    {
        let mut out: Vec<&'a BinaryManifestItem> = Vec::new();
        let mut i: usize = 0;
        proof {
            assert(derefs(out@) =~= self.with_command_prefix(command_name@, 0));
        }
        while i < self.binaries.len()
            invariant
                i <= self.binaries@.len(),
                derefs(out@) == self.with_command_prefix(command_name@, i as int),
            decreases self.binaries@.len() - i,
        {
            let b = &self.binaries[i];
            let keep = b.provides_command(command_name);
            proof {
                lemma_with_command_step(*self, command_name@, i as int);
            }
            if keep {
                out.push(b);
                proof {
                    assert(derefs(out@) =~= self.with_command_prefix(command_name@, i + 1));
                }
            }
            i = i + 1;
        }
        proof {
            assert(self.binaries@.take(self.binaries@.len() as int) =~= self.binaries@);
        }
        out
    }
}

proof fn lemma_matching_name_version_step(
    m: PluginsManifest,
    ns: NameSelector,
    vs: VersionSelector,
    i: int,
)
    requires
        0 <= i < m.binaries@.len(),
    ensures
        m.matching_name_version_prefix(ns, vs, i + 1) == if nv_matches(ns, vs, m.binaries@[i]) {
            m.matching_name_version_prefix(ns, vs, i).push(m.binaries@[i])
        } else {
            m.matching_name_version_prefix(ns, vs, i)
        },
{
    reveal(Seq::filter);
    let s = m.binaries@.take(i + 1);
    assert(s.drop_last() =~= m.binaries@.take(i));
    assert(s.last() == m.binaries@[i]);
    assert(s.len() == i + 1);
    let pred = |b: BinaryManifestItem| nv_matches(ns, vs, b);
    assert(m.matching_name_version_prefix(ns, vs, i + 1) == s.filter(pred));
    assert(s.filter(pred) == if pred(s.last()) { s.drop_last().filter(pred).push(s.last()) } else { s.drop_last().filter(pred) });
    assert(s.drop_last().filter(pred) == m.matching_name_version_prefix(ns, vs, i));
}

proof fn lemma_matching_name_step(m: PluginsManifest, ns: NameSelector, i: int)
    requires
        0 <= i < m.binaries@.len(),
    ensures
        m.matching_name_prefix(ns, i + 1) == if name_matches(ns, m.binaries@[i].name) {
            m.matching_name_prefix(ns, i).push(m.binaries@[i])
        } else {
            m.matching_name_prefix(ns, i)
        },
{
    reveal(Seq::filter);
    let s = m.binaries@.take(i + 1);
    assert(s.drop_last() =~= m.binaries@.take(i));
    assert(s.last() == m.binaries@[i]);
    let pred = |b: BinaryManifestItem| name_matches(ns, b.name);
    assert(m.matching_name_prefix(ns, i + 1) == s.filter(pred));
    assert(s.filter(pred) == if pred(s.last()) {
        s.drop_last().filter(pred).push(s.last())
    } else {
        s.drop_last().filter(pred)
    });
    assert(s.drop_last().filter(pred) == m.matching_name_prefix(ns, i));
}

proof fn lemma_with_command_step(m: PluginsManifest, command_name: Seq<char>, i: int)
    requires
        0 <= i < m.binaries@.len(),
    ensures
        m.with_command_prefix(command_name, i + 1) == if provides_command(
            m.binaries@[i],
            command_name,
        ) {
            m.with_command_prefix(command_name, i).push(m.binaries@[i])
        } else {
            m.with_command_prefix(command_name, i)
        },
{
    reveal(Seq::filter);
    let s = m.binaries@.take(i + 1);
    assert(s.drop_last() =~= m.binaries@.take(i));
    assert(s.last() == m.binaries@[i]);
    let pred = |b: BinaryManifestItem| provides_command(b, command_name);
    assert(m.with_command_prefix(command_name, i + 1) == s.filter(pred));
    assert(s.filter(pred) == if pred(s.last()) {
        s.drop_last().filter(pred).push(s.last())
    } else {
        s.drop_last().filter(pred)
    });
    assert(s.drop_last().filter(pred) == m.with_command_prefix(command_name, i));
}

} // verus!
