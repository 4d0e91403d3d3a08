//! The resolution algorithms: "latest" selection, owner
//! disambiguation, display of candidate sets, config-to-installed
//! resolution, and global command resolution.

use crate::config::ConfigFileBinary;
use crate::errors::ResolutionError;
use crate::manifest::derefs;
use crate::manifest::item_le;
use crate::manifest::lemma_item_le_total;
use crate::manifest::lemma_item_le_transitive;
use crate::manifest::provides_command;
use crate::manifest::BinaryManifestItem;
use crate::manifest::GlobalBinaryLocation;
use crate::manifest::PluginsManifest;
use crate::names::name_chars;
use crate::names::selector_for;
use crate::names::BinaryName;
use crate::names::NameSelector;
use crate::text::str_eq;
use crate::version::version_chars;
use crate::version::version_le;
use crate::version::Version;
use crate::version::VersionSelector;
use vstd::prelude::*;
use vstd::seq_lib::lemma_multiset_commutative;

verus! {

broadcast use vstd::seq_lib::group_to_multiset_ensures;

/// Whether all items of a candidate set share one owner.  An empty set
/// counts as uniformly owned.
pub open spec fn same_owner(s: Seq<BinaryManifestItem>) -> bool {
    forall|i: int, j: int|
        0 <= i < s.len() && 0 <= j < s.len() ==> #[trigger] s[i].name.owner@
            == #[trigger] s[j].name.owner@
}

/// Whether the item at index `i` is the one the "latest" selection
/// picks: it is maximal under the item order, and it is the first
/// index at which the maximum is reached.
pub open spec fn latest_at(s: Seq<BinaryManifestItem>, i: int) -> bool {
    &&& 0 <= i < s.len()
    &&& forall|j: int| 0 <= j < s.len() ==> item_le(#[trigger] s[j], s[i])
    &&& forall|j: int| 0 <= j < i ==> !item_le(s[i], #[trigger] s[j])
}

/// Returns true iff every binary in the list has the same owner.
#[verifier::loop_isolation(false)]
pub fn get_have_same_owner(binaries: &Vec<&BinaryManifestItem>) -> (r: bool)
    ensures
        r == same_owner(derefs(binaries@)),
{
    if binaries.len() == 0 {
        return true;
    }
    let first_owner = &binaries[0].name.owner;
    let mut i: usize = 1;
    while i < binaries.len()
        invariant
            1 <= i <= binaries@.len(),
            forall|j: int|
                0 <= j < i ==> #[trigger] derefs(binaries@)[j].name.owner@
                    == derefs(binaries@)[0].name.owner@,
        decreases binaries@.len() - i,
    {
        if binaries[i].name.owner != *first_owner {
            proof {
                assert(derefs(binaries@)[i as int] == *binaries@[i as int]);
                assert(derefs(binaries@)[0] == *binaries@[0]);
                assert(derefs(binaries@)[i as int].name.owner@ != derefs(
                    binaries@,
                )[0].name.owner@);
            }
            return false;
        }
        i = i + 1;
    }
    true
}

/// Returns the latest binary of a candidate set under the item order,
/// or nothing when the set is empty.  When several items compare equal
/// and maximal, the first of them is returned.
#[verifier::loop_isolation(false)]
pub fn get_latest_binary<'a>(binaries: &Vec<&'a BinaryManifestItem>) -> (r: Option<
    &'a BinaryManifestItem,
>)
    ensures
        match r {
            None => binaries@.len() == 0,
            Some(b) => exists|i: int| latest_at(derefs(binaries@), i) && *b == derefs(binaries@)[i],
        },
{
    let ghost s = derefs(binaries@);
    let mut latest_binary: Option<&'a BinaryManifestItem> = None;
    let ghost mut li: int = 0;
    let mut i: usize = 0;
    while i < binaries.len()
        invariant
            i <= binaries@.len(),
            match latest_binary {
                None => i == 0,
                Some(b) => {
                    &&& 0 <= li < i
                    &&& *b == s[li]
                    &&& forall|j: int| 0 <= j < i ==> item_le(#[trigger] s[j], s[li])
                    &&& forall|j: int| 0 <= j < li ==> !item_le(s[li], #[trigger] s[j])
                },
            },
        decreases binaries@.len() - i,
    {
        let binary = binaries[i];
        match latest_binary {
            Some(latest_binary_val) => {
                if !binary.le(latest_binary_val) {
                    proof {
                        lemma_item_le_total(s[li], s[i as int]);
                        assert forall|j: int| 0 <= j < i + 1 implies item_le(
                            #[trigger] s[j],
                            s[i as int],
                        ) by {
                            if j < i {
                                lemma_item_le_transitive(s[j], s[li], s[i as int]);
                            }
                        }
                        assert forall|j: int| 0 <= j < i implies !item_le(
                            s[i as int],
                            #[trigger] s[j],
                        ) by {
                            if item_le(s[i as int], s[j]) {
                                lemma_item_le_transitive(s[i as int], s[j], s[li]);
                            }
                        }
                    }
                    latest_binary = Some(binary);
                    proof {
                        li = i as int;
                    }
                }
            },
            None => {
                latest_binary = Some(binary);
                proof {
                    li = i as int;
                }
            },
        }
        i = i + 1;
    }
    proof {
        if binaries@.len() > 0 {
            assert(latest_binary matches Some(b) && latest_at(s, li) && *b == s[li]);
        }
    }
    latest_binary
}

/// When a candidate set's items all share one short name (as every
/// set produced by name matching does), the latest pick carries the
/// maximum version.
pub proof fn lemma_latest_has_max_version(s: Seq<BinaryManifestItem>, i: int)
    requires
        latest_at(s, i),
        forall|j: int| 0 <= j < s.len() ==> #[trigger] s[j].name.name@ == s[0].name.name@,
    ensures
        forall|j: int| 0 <= j < s.len() ==> version_le(#[trigger] s[j].version, s[i].version),
{
    assert forall|j: int| 0 <= j < s.len() implies version_le(
        #[trigger] s[j].version,
        s[i].version,
    ) by {
        assert(item_le(s[j], s[i]));
        assert(s[j].name.name@ == s[i].name.name@);
    }
}

/// A singleton candidate set's latest pick is its only element.
pub proof fn lemma_latest_of_singleton(s: Seq<BinaryManifestItem>, i: int)
    requires
        latest_at(s, i),
        s.len() == 1,
    ensures
        i == 0,
{
}

/// Whether a sequence of items is sorted under the item order.
pub open spec fn sorted_items(s: Seq<BinaryManifestItem>) -> bool {
    forall|i: int, j: int| 0 <= i < j < s.len() ==> item_le(#[trigger] s[i], #[trigger] s[j])
}

proof fn lemma_to_multiset_insert(s: Seq<BinaryManifestItem>, i: int, x: BinaryManifestItem)
    requires
        0 <= i <= s.len(),
    ensures
        s.insert(i, x).to_multiset() == s.to_multiset().insert(x),
{
    let a = s.subrange(0, i);
    let c = s.subrange(i, s.len() as int);
    assert(s.insert(i, x) == a.push(x) + c);
    lemma_multiset_commutative(a.push(x), c);
    lemma_multiset_commutative(a, c);
    assert(a + c =~= s);
    assert(s.insert(i, x).to_multiset() =~= s.to_multiset().insert(x));
}

/// Sorts a candidate set under the item order, keeping exactly the
/// same items.
#[verifier::loop_isolation(false)]
pub fn sort_binaries<'a>(binaries: Vec<&'a BinaryManifestItem>) -> (r: Vec<
    &'a BinaryManifestItem,
>)
    ensures
        sorted_items(derefs(r@)),
        derefs(r@).to_multiset() == derefs(binaries@).to_multiset(),
        r@.len() == binaries@.len(),
{
    let mut out: Vec<&'a BinaryManifestItem> = Vec::new();
    let mut i: usize = 0;
    proof {
        assert(derefs(binaries@.take(0)) =~= derefs(out@));
    }
    while i < binaries.len()
        invariant
            i <= binaries@.len(),
            out@.len() == i,
            sorted_items(derefs(out@)),
            derefs(out@).to_multiset() == derefs(binaries@.take(i as int)).to_multiset(),
        decreases binaries@.len() - i,
    {
        let b = binaries[i];
        let ghost old_out = out@;
        let mut j: usize = 0;
        while j < out.len() && out[j].le(b)
            invariant
                j <= out@.len(),
                forall|k: int| 0 <= k < j ==> item_le(derefs(out@)[k], *b),
            decreases out@.len() - j,
        {
            j = j + 1;
        }
        out.insert(j, b);
        proof {
            let s_old = derefs(old_out);
            let s_new = derefs(out@);
            assert(s_new =~= s_old.insert(j as int, *b));
            // Sortedness of the extended sequence.
            assert forall|p: int, q: int| 0 <= p < q < s_new.len() implies item_le(
                #[trigger] s_new[p],
                #[trigger] s_new[q],
            ) by {
                s_old.insert_ensures(j as int, *b);
                if q < j {
                    assert(item_le(s_old[p], s_old[q]));
                } else if p > j {
                    assert(item_le(s_old[p - 1], s_old[q - 1]));
                } else if p == j && q > j {
                    // Everything at or after j was not below b.
                    lemma_item_le_total(s_old[q - 1], *b);
                    if j < s_old.len() {
                        if q - 1 == j {
                        } else {
                            lemma_item_le_total(s_old[j as int], *b);
                            lemma_item_le_transitive(*b, s_old[j as int], s_old[q - 1]);
                        }
                    }
                } else if q == j {
                    assert(item_le(s_old[p], *b));
                } else if p < j && q > j {
                    assert(item_le(s_old[p], s_old[q - 1]));
                }
            }
            // The items are exactly the old ones plus b.
            lemma_to_multiset_insert(s_old, j as int, *b);
            assert(derefs(binaries@.take(i + 1)) =~= derefs(binaries@.take(i as int)).push(*b));
        }
        i = i + 1;
    }
    proof {
        assert(binaries@.take(binaries@.len() as int) =~= binaries@);
    }
    out
}

/// The display line of one candidate: the bare version when the whole
/// set has one owner, "owner/name version" otherwise.
pub open spec fn display_line(b: BinaryManifestItem, uniform_owner: bool) -> Seq<char> {
    if uniform_owner {
        version_chars(b.version)
    } else {
        name_chars(b.name) + seq![' '] + version_chars(b.version)
    }
}

/// Whether `lines` displays the candidate set `src`: the lines render
/// some sorted rearrangement of `src`, as bare versions when `src` is
/// uniformly owned and as "name version" otherwise.
pub open spec fn display_lines_for(src: Seq<BinaryManifestItem>, lines: Seq<String>) -> bool {
    exists|s: Seq<BinaryManifestItem>|
        {
            &&& #[trigger] s.to_multiset() == src.to_multiset()
            &&& sorted_items(s)
            &&& lines.len() == s.len()
            &&& forall|i: int|
                0 <= i < s.len() ==> (#[trigger] lines[i])@ == display_line(s[i], same_owner(src))
        }
}

/// Owner uniformity is a property of the items alone, so any
/// rearrangement of a candidate set preserves it.
pub proof fn lemma_same_owner_permutation(a: Seq<BinaryManifestItem>, b: Seq<BinaryManifestItem>)
    requires
        a.to_multiset() == b.to_multiset(),
    ensures
        same_owner(a) == same_owner(b),
{
    assert forall|x: Seq<BinaryManifestItem>, y: Seq<BinaryManifestItem>|
        x.to_multiset() == y.to_multiset() && same_owner(x) implies same_owner(y) by {
        assert forall|i: int, j: int|
            0 <= i < y.len() && 0 <= j < y.len() implies #[trigger] y[i].name.owner@
            == #[trigger] y[j].name.owner@ by {
            assert(y.to_multiset().count(y[i]) > 0);
            assert(y.to_multiset().count(y[j]) > 0);
            assert(x.to_multiset().count(y[i]) > 0);
            assert(x.to_multiset().count(y[j]) > 0);
            assert(x.contains(y[i]));
            assert(x.contains(y[j]));
            let p = choose|p: int| 0 <= p < x.len() && x[p] == y[i];
            let q = choose|q: int| 0 <= q < x.len() && x[q] == y[j];
            assert(x[p].name.owner@ == x[q].name.owner@);
        }
    }
}

/// Renders a candidate set for display: the candidates in sorted
/// order, as bare version strings when they all share one owner and as
/// "owner/name version" strings otherwise.  An empty set renders as an
/// empty list.
#[verifier::loop_isolation(false)]
pub fn display_binaries_versions(binaries: Vec<&BinaryManifestItem>) -> (r: Vec<String>)
    ensures
        r@.len() == binaries@.len(),
        display_lines_for(derefs(binaries@), r@),
{
    let ghost src = derefs(binaries@);
    let sorted = sort_binaries(binaries);
    proof {
        lemma_same_owner_permutation(derefs(sorted@), src);
    }
    let have_same_owner = get_have_same_owner(&sorted);
    let mut lines: Vec<String> = Vec::new();
    let mut i: usize = 0;
    while i < sorted.len()
        invariant
            i <= sorted@.len(),
            lines@.len() == i,
            forall|k: int|
                0 <= k < i ==> (#[trigger] lines@[k])@ == display_line(
                    derefs(sorted@)[k],
                    same_owner(src),
                ),
        decreases sorted@.len() - i,
    {
        let b = sorted[i];
        let line = if have_same_owner {
            b.version.to_display_string()
        } else {
            let mut s = b.name.to_display_string();
            s.append(" ");
            let v = b.version.to_display_string();
            s.append(v.as_str());
            proof {
                reveal_strlit(" ");
                assert(s@ =~= display_line(derefs(sorted@)[i as int], same_owner(src)));
            }
            s
        };
        lines.push(line);
        i = i + 1;
    }
    proof {
        assert(display_lines_for(src, lines@)) by {
            assert(derefs(sorted@).to_multiset() == src.to_multiset());
        }
    }
    lines
}

/// Returns the latest installed binary matching both selectors, or
/// nothing when none matches.
pub fn get_latest_binary_matching_name_and_version<'a>(
    manifest: &'a PluginsManifest,
    name_selector: &NameSelector,
    version_selector: &VersionSelector,
) -> (r: Option<&'a BinaryManifestItem>)
    ensures
        ({
            let m = manifest.matching_name_version(*name_selector, *version_selector);
            match r {
                None => m.len() == 0,
                Some(b) => exists|i: int| latest_at(m, i) && *b == m[i],
            }
        }),
{
    let binaries = manifest.get_binaries_matching_name_and_version(name_selector, version_selector);
    get_latest_binary(&binaries)
}

/// Returns the single installed binary that satisfies both selectors.
/// When nothing matches the name at all, or binaries of that name
/// exist but none matches the version, or the matches disagree on
/// owner, the corresponding failure is returned instead; several
/// matching versions under one owner resolve to the latest.
pub fn get_binary_with_name_and_version<'a>(
    plugin_manifest: &'a PluginsManifest,
    name_selector: &NameSelector,
    version_selector: &VersionSelector,
) -> (r: Result<&'a BinaryManifestItem, ResolutionError>)
    ensures
        ({
            let m = plugin_manifest.matching_name_version(*name_selector, *version_selector);
            let n = plugin_manifest.matching_name(*name_selector);
            match r {
                Ok(b) => m.len() > 0 && same_owner(m) && (exists|i: int|
                    latest_at(m, i) && *b == m[i]),
                Err(e) => match e {
                    ResolutionError::BinaryNotFound { name } => {
                        &&& m.len() == 0
                        &&& n.len() == 0
                        &&& name == *name_selector
                    },
                    ResolutionError::VersionMismatch { name, version, installed } => {
                        &&& m.len() == 0
                        &&& n.len() > 0
                        &&& name == *name_selector
                        &&& version == *version_selector
                        &&& installed@.len() == n.len()
                        &&& display_lines_for(n, installed@)
                    },
                    ResolutionError::MultipleOwners { name, version, installed } => {
                        &&& m.len() > 0
                        &&& !same_owner(m)
                        &&& name == *name_selector
                        &&& version == *version_selector
                        &&& installed@.len() == m.len()
                        &&& display_lines_for(m, installed@)
                    },
                    _ => false,
                },
            }
        }),
{
    let binaries = plugin_manifest.get_binaries_matching_name_and_version(
        name_selector,
        version_selector,
    );
    if binaries.len() == 0 {
        let name_binaries = plugin_manifest.get_binaries_matching_name(name_selector);
        if name_binaries.is_empty() {
            Err(ResolutionError::BinaryNotFound { name: name_selector.clone() })
        } else {
            Err(
                ResolutionError::VersionMismatch {
                    name: name_selector.clone(),
                    version: *version_selector,
                    installed: display_binaries_versions(name_binaries),
                },
            )
        }
    } else if !get_have_same_owner(&binaries) {
        Err(
            ResolutionError::MultipleOwners {
                name: name_selector.clone(),
                version: *version_selector,
                installed: display_binaries_versions(binaries),
            },
        )
    } else {
        Ok(get_latest_binary(&binaries).unwrap())
    }
}

/// Resolves a config-declared binary to the installed binary it refers
/// to.  The url must be associated to an identifier for this to return
/// anything; the url-pinned exact version wins, and otherwise the
/// latest installed binary matching the declared version constraint is
/// returned.
pub fn get_installed_binary_if_associated_config_file_binary<'a>(
    manifest: &'a PluginsManifest,
    config_binary: &ConfigFileBinary,
) -> (r: Option<&'a BinaryManifestItem>)
    requires
        manifest.wf(),
    ensures
        ({
            match manifest.url_identifier(config_binary.path@) {
                None => r is None,
                Some(id) => match manifest.binary_for(id) {
                    Some(b) => r matches Some(rb) && *rb == b,
                    None => match config_binary.version {
                        Some(vs) => ({
                            let m = manifest.matching_name_version(selector_for(id.name), vs);
                            match r {
                                Some(rb) => exists|i: int| latest_at(m, i) && *rb == m[i],
                                None => m.len() == 0,
                            }
                        }),
                        None => r is None,
                    },
                },
            }
        }),
{
    if let Some(identifier) = manifest.get_identifier_from_url(config_binary.path.as_str()) {
        if let Some(binary) = manifest.get_binary(identifier) {
            return Some(binary);
        }
        if let Some(version_selector) = &config_binary.version {
            let name_selector = identifier.name.to_selector();
            let binary = get_latest_binary_matching_name_and_version(
                manifest,
                &name_selector,
                version_selector,
            );
            if let Some(binary) = binary {
                return Some(binary);
            }
        }
    }
    None
}

/// The cache directory of one installed binary under the manager's
/// binaries root: root, owner, short name and version, joined with
/// '/' separators.
pub open spec fn plugin_dir_chars(root: Seq<char>, name: BinaryName, version: Version) -> Seq<
    char,
> {
    root + seq!['/'] + name.owner@ + seq!['/'] + name.name@ + seq!['/'] + version_chars(version)
}

/// Returns the cache directory of one installed binary.
pub fn get_plugin_dir(binaries_cache_dir: &str, name: &BinaryName, version: &Version) -> (r:
    String)
    ensures
        r@ == plugin_dir_chars(binaries_cache_dir@, *name, *version),
{
    let mut s = String::from_str(binaries_cache_dir);
    s.append("/");
    s.append(name.owner.as_str());
    s.append("/");
    s.append(name.name.as_str());
    s.append("/");
    let v = version.to_display_string();
    s.append(v.as_str());
    proof {
        reveal_strlit("/");
        assert(s@ =~= plugin_dir_chars(binaries_cache_dir@, *name, *version));
    }
    s
}

/// Resolves a command name to the one executable path to invoke.  An
/// explicit binding to an installed binary wins over the system PATH,
/// and the PATH wins over diagnostics about installed candidates.
/// `path_executable_path` is the executable the environment found for
/// the command on the system PATH outside the manager's own shims, if
/// any.
#[verifier::loop_isolation(false)]
pub fn get_global_binary_file_name(
    plugin_manifest: &PluginsManifest,
    command_name: &str,
    path_executable_path: Option<&str>,
    binaries_cache_dir: &str,
) -> (r: Result<String, ResolutionError>)
    requires
        plugin_manifest.wf(),
    ensures
        ({
            match plugin_manifest.location_for(command_name@) {
                Some(GlobalBinaryLocation::Path) => (match path_executable_path {
                    Some(p) => r matches Ok(s) && s@ == p@,
                    None => r matches Err(e) && (e matches ResolutionError::ShimOnlyOnPath {
                        command,
                    } && command@ == command_name@),
                }),
                Some(GlobalBinaryLocation::Bvm(id)) => (match plugin_manifest.binary_for(id) {
                    Some(item) => if provides_command(item, command_name@) {
                        r matches Ok(s) && exists|k: int|
                            {
                                &&& 0 <= k < item.commands@.len()
                                &&& (#[trigger] item.commands@[k]).name@ == command_name@
                                &&& forall|j: int|
                                    0 <= j < k ==> item.commands@[j].name@ != command_name@
                                &&& s@ == plugin_dir_chars(
                                    binaries_cache_dir@,
                                    item.name,
                                    item.version,
                                ) + seq!['/'] + item.commands@[k].path@
                            }
                    } else {
                        r matches Err(e) && (e matches ResolutionError::MissingCommandPath {
                            command,
                        } && command@ == command_name@)
                    },
                    None => r matches Err(e) && (e matches ResolutionError::StaleBinding {
                        command,
                    } && command@ == command_name@),
                }),
                None => (match path_executable_path {
                    Some(p) => r matches Ok(s) && s@ == p@,
                    None => ({
                        let candidates = plugin_manifest.with_command(command_name@);
                        if candidates.len() == 0 {
                            r matches Err(e) && (e matches ResolutionError::CommandNotFound {
                                command,
                            } && command@ == command_name@)
                        } else {
                            r matches Err(e) && (e
                                matches ResolutionError::NoGlobalVersionSelected {
                                command,
                                installed,
                            } && command@ == command_name@ && installed@.len() == candidates.len()
                                && display_lines_for(candidates, installed@))
                        }
                    }),
                }),
            }
        }),
{
    match plugin_manifest.get_global_binary_location(command_name) {
        Some(location) => match location {
            GlobalBinaryLocation::Path => {
                match path_executable_path {
                    Some(p) => Ok(String::from_str(p)),
                    None => Err(
                        ResolutionError::ShimOnlyOnPath { command: String::from_str(command_name) },
                    ),
                }
            },
            GlobalBinaryLocation::Bvm(identifier) => {
                match plugin_manifest.get_binary(identifier) {
                    Some(item) => {
                        let mut k: usize = 0;
                        while k < item.commands.len()
                            invariant
                                k <= item.commands@.len(),
                                forall|j: int|
                                    0 <= j < k ==> item.commands@[j].name@ != command_name@,
                            decreases item.commands@.len() - k,
                        {
                            if str_eq(item.commands[k].name.as_str(), command_name) {
                                let plugin_cache_dir = get_plugin_dir(
                                    binaries_cache_dir,
                                    &item.name,
                                    &item.version,
                                );
                                let mut full = plugin_cache_dir;
                                full.append("/");
                                full.append(item.commands[k].path.as_str());
                                proof {
                                    reveal_strlit("/");
                                    assert(full@ =~= plugin_dir_chars(
                                        binaries_cache_dir@,
                                        item.name,
                                        item.version,
                                    ) + seq!['/'] + item.commands@[k as int].path@);
                                }
                                return Ok(full);
                            }
                            k = k + 1;
                        }
                        Err(
                            ResolutionError::MissingCommandPath {
                                command: String::from_str(command_name),
                            },
                        )
                    },
                    None => Err(
                        ResolutionError::StaleBinding { command: String::from_str(command_name) },
                    ),
                }
            },
        },
        None => {
            match path_executable_path {
                Some(p) => Ok(String::from_str(p)),
                None => {
                    let binaries = plugin_manifest.get_binaries_with_command(command_name);
                    if binaries.len() == 0 {
                        Err(
                            ResolutionError::CommandNotFound {
                                command: String::from_str(command_name),
                            },
                        )
                    } else {
                        Err(
                            ResolutionError::NoGlobalVersionSelected {
                                command: String::from_str(command_name),
                                installed: display_binaries_versions(binaries),
                            },
                        )
                    }
                },
            }
        },
    }
}

} // verus!
