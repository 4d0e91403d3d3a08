use bvm_resolution::config::ConfigFileBinary;
use bvm_resolution::errors::ResolutionError;
use bvm_resolution::helpers::display_binaries_versions;
use bvm_resolution::helpers::get_binary_with_name_and_version;
use bvm_resolution::helpers::get_global_binary_file_name;
use bvm_resolution::helpers::get_have_same_owner;
use bvm_resolution::helpers::get_installed_binary_if_associated_config_file_binary;
use bvm_resolution::helpers::get_latest_binary;
use bvm_resolution::helpers::get_latest_binary_matching_name_and_version;
use bvm_resolution::helpers::get_plugin_dir;
use bvm_resolution::helpers::sort_binaries;
use bvm_resolution::manifest::BinaryManifestItem;
use bvm_resolution::manifest::CommandInfo;
use bvm_resolution::manifest::GlobalBinaryLocation;
use bvm_resolution::manifest::GlobalLocationBinding;
use bvm_resolution::manifest::PluginsManifest;
use bvm_resolution::manifest::UrlAssociation;
use bvm_resolution::names::BinaryIdentifier;
use bvm_resolution::names::BinaryName;
use bvm_resolution::names::NameSelector;
use bvm_resolution::version::Version;
use bvm_resolution::version::VersionSelector;

fn ver(major: u64, minor: u64, patch: u64) -> Version {
    Version { major, minor, patch }
}

fn bname(owner: &str, name: &str) -> BinaryName {
    BinaryName {
        owner: owner.to_string(),
        name: name.to_string(),
    }
}

fn item(owner: &str, name: &str, v: Version, commands: &[(&str, &str)]) -> BinaryManifestItem {
    BinaryManifestItem {
        name: bname(owner, name),
        version: v,
        commands: commands
            .iter()
            .map(|(cname, cpath)| CommandInfo {
                name: cname.to_string(),
                path: cpath.to_string(),
            })
            .collect(),
    }
}

fn name_sel(name: &str) -> NameSelector {
    NameSelector {
        owner: None,
        name: name.to_string(),
    }
}

fn empty_manifest() -> PluginsManifest {
    PluginsManifest {
        binaries: Vec::new(),
        url_associations: Vec::new(),
        global_locations: Vec::new(),
    }
}

#[test]
fn latest_picks_max_version_with_shared_owner() {
    let a = item("acme", "fmt", ver(1, 2, 0), &[("fmt", "fmt-bin")]);
    let b = item("acme", "fmt", ver(2, 0, 1), &[("fmt", "fmt-bin")]);
    let c = item("acme", "fmt", ver(1, 9, 9), &[("fmt", "fmt-bin")]);
    let candidates = vec![&a, &b, &c];
    let latest = get_latest_binary(&candidates).expect("non-empty set has a latest");
    assert_eq!(latest.version, ver(2, 0, 1));
}

#[test]
fn latest_of_singleton_is_that_item() {
    let a = item("acme", "fmt", ver(0, 1, 0), &[]);
    let candidates = vec![&a];
    let latest = get_latest_binary(&candidates).expect("singleton has a latest");
    assert_eq!(latest.version, ver(0, 1, 0));
    assert_eq!(latest.name.owner, "acme");
}

#[test]
fn latest_of_empty_is_none() {
    let candidates: Vec<&BinaryManifestItem> = Vec::new();
    assert!(get_latest_binary(&candidates).is_none());
}

#[test]
fn latest_prefers_first_among_equal_keys() {
    let a = item("acme", "fmt", ver(1, 0, 0), &[]);
    let b = item("zeta", "fmt", ver(1, 0, 0), &[]);
    let candidates = vec![&a, &b];
    let latest = get_latest_binary(&candidates).unwrap();
    assert_eq!(latest.name.owner, "acme");
}

#[test]
fn two_owners_yield_multiple_owners_error() {
    let manifest = PluginsManifest {
        binaries: vec![
            item("acme", "fmt", ver(1, 0, 0), &[]),
            item("zeta", "fmt", ver(1, 0, 0), &[]),
        ],
        url_associations: Vec::new(),
        global_locations: Vec::new(),
    };
    let r = get_binary_with_name_and_version(
        &manifest,
        &name_sel("fmt"),
        &VersionSelector::Exact(ver(1, 0, 0)),
    );
    assert!(matches!(
        r,
        Err(ResolutionError::MultipleOwners { .. })
    ));
}

#[test]
fn owner_constraint_disambiguates_owners() {
    let manifest = PluginsManifest {
        binaries: vec![
            item("acme", "fmt", ver(1, 0, 0), &[]),
            item("zeta", "fmt", ver(1, 0, 0), &[]),
        ],
        url_associations: Vec::new(),
        global_locations: Vec::new(),
    };
    let selector = NameSelector {
        owner: Some("zeta".to_string()),
        name: "fmt".to_string(),
    };
    let r = get_binary_with_name_and_version(
        &manifest,
        &selector,
        &VersionSelector::Exact(ver(1, 0, 0)),
    );
    let b = r.expect("owner-qualified lookup succeeds");
    assert_eq!(b.name.owner, "zeta");
}

#[test]
fn range_satisfied_by_single_owner_picks_latest() {
    let manifest = PluginsManifest {
        binaries: vec![
            item("acme", "fmt", ver(1, 0, 0), &[]),
            item("acme", "fmt", ver(1, 4, 2), &[]),
            item("acme", "fmt", ver(2, 0, 0), &[]),
        ],
        url_associations: Vec::new(),
        global_locations: Vec::new(),
    };
    let r = get_binary_with_name_and_version(
        &manifest,
        &name_sel("fmt"),
        &VersionSelector::Range(ver(1, 0, 0), ver(2, 0, 0)),
    );
    let b = r.expect("single-owner range lookup succeeds");
    assert_eq!(b.version, ver(1, 4, 2));
}

#[test]
fn version_mismatch_reported_distinctly_from_not_found() {
    let manifest = PluginsManifest {
        binaries: vec![item("acme", "fmt", ver(1, 0, 0), &[])],
        url_associations: Vec::new(),
        global_locations: Vec::new(),
    };
    let r = get_binary_with_name_and_version(
        &manifest,
        &name_sel("fmt"),
        &VersionSelector::Exact(ver(9, 9, 9)),
    );
    match r {
        Err(ResolutionError::VersionMismatch { installed, .. }) => {
            assert_eq!(installed, vec!["1.0.0".to_string()]);
        }
        other => panic!("expected VersionMismatch, got {:?}", other),
    }
}

#[test]
fn unknown_name_reports_not_found() {
    let manifest = empty_manifest();
    let r = get_binary_with_name_and_version(&manifest, &name_sel("fmt"), &VersionSelector::Any);
    assert!(matches!(r, Err(ResolutionError::BinaryNotFound { .. })));
}

#[test]
fn display_of_empty_set_is_empty() {
    let candidates: Vec<&BinaryManifestItem> = Vec::new();
    let lines = display_binaries_versions(candidates);
    assert!(lines.is_empty());
}

#[test]
fn display_of_uniform_owner_uses_bare_versions() {
    let a = item("acme", "fmt", ver(2, 0, 0), &[]);
    let b = item("acme", "fmt", ver(1, 4, 2), &[]);
    let lines = display_binaries_versions(vec![&a, &b]);
    assert_eq!(lines, vec!["1.4.2".to_string(), "2.0.0".to_string()]);
}

#[test]
fn display_of_mixed_owners_includes_names() {
    let a = item("zeta", "fmt", ver(1, 0, 0), &[]);
    let b = item("acme", "fmt", ver(2, 0, 0), &[]);
    let lines = display_binaries_versions(vec![&a, &b]);
    assert_eq!(
        lines,
        vec!["zeta/fmt 1.0.0".to_string(), "acme/fmt 2.0.0".to_string()]
    );
}

#[test]
fn display_sorts_by_name_then_version() {
    let a = item("zeta", "zip", ver(1, 0, 0), &[]);
    let b = item("acme", "fmt", ver(2, 0, 0), &[]);
    let c = item("acme", "fmt", ver(1, 0, 0), &[]);
    let lines = display_binaries_versions(vec![&a, &b, &c]);
    assert_eq!(
        lines,
        vec![
            "acme/fmt 1.0.0".to_string(),
            "acme/fmt 2.0.0".to_string(),
            "zeta/zip 1.0.0".to_string()
        ]
    );
}

#[test]
fn display_with_uniform_owner_and_mixed_names_stays_bare() {
    let a = item("acme", "zip", ver(1, 0, 0), &[]);
    let b = item("acme", "fmt", ver(2, 0, 0), &[]);
    let lines = display_binaries_versions(vec![&a, &b]);
    assert_eq!(lines, vec!["2.0.0".to_string(), "1.0.0".to_string()]);
}

#[test]
fn sort_orders_versions_numerically_not_textually() {
    let a = item("acme", "fmt", ver(10, 0, 0), &[]);
    let b = item("acme", "fmt", ver(9, 0, 0), &[]);
    let sorted = sort_binaries(vec![&a, &b]);
    assert_eq!(sorted[0].version, ver(9, 0, 0));
    assert_eq!(sorted[1].version, ver(10, 0, 0));
}

#[test]
fn same_owner_checks() {
    let a = item("acme", "fmt", ver(1, 0, 0), &[]);
    let b = item("acme", "zip", ver(2, 0, 0), &[]);
    let c = item("zeta", "fmt", ver(1, 0, 0), &[]);
    let empty: Vec<&BinaryManifestItem> = Vec::new();
    assert!(get_have_same_owner(&empty));
    assert!(get_have_same_owner(&vec![&a, &b]));
    assert!(!get_have_same_owner(&vec![&a, &c]));
}

#[test]
fn unassociated_url_resolves_to_none() {
    let manifest = PluginsManifest {
        binaries: vec![item("acme", "fmt", ver(1, 0, 0), &[])],
        url_associations: Vec::new(),
        global_locations: Vec::new(),
    };
    let without_version = ConfigFileBinary {
        path: "https://example.com/acme/fmt.json".to_string(),
        version: None,
    };
    let with_version = ConfigFileBinary {
        path: "https://example.com/acme/fmt.json".to_string(),
        version: Some(VersionSelector::Any),
    };
    assert!(get_installed_binary_if_associated_config_file_binary(&manifest, &without_version)
        .is_none());
    assert!(get_installed_binary_if_associated_config_file_binary(&manifest, &with_version)
        .is_none());
}

#[test]
fn url_pinned_exact_version_wins() {
    let url = "https://example.com/acme/fmt.json".to_string();
    let manifest = PluginsManifest {
        binaries: vec![
            item("acme", "fmt", ver(1, 0, 0), &[]),
            item("acme", "fmt", ver(2, 0, 0), &[]),
        ],
        url_associations: vec![UrlAssociation {
            url: url.clone(),
            identifier: BinaryIdentifier {
                name: bname("acme", "fmt"),
                version: ver(1, 0, 0),
            },
        }],
        global_locations: Vec::new(),
    };
    let config = ConfigFileBinary {
        path: url,
        version: Some(VersionSelector::Any),
    };
    let b = get_installed_binary_if_associated_config_file_binary(&manifest, &config)
        .expect("pinned version is installed");
    assert_eq!(b.version, ver(1, 0, 0));
}

#[test]
fn uninstalled_pin_falls_back_to_latest_matching_version() {
    let url = "https://example.com/acme/fmt.json".to_string();
    let manifest = PluginsManifest {
        binaries: vec![
            item("acme", "fmt", ver(1, 2, 0), &[]),
            item("acme", "fmt", ver(1, 8, 0), &[]),
            item("acme", "fmt", ver(3, 0, 0), &[]),
        ],
        url_associations: vec![UrlAssociation {
            url: url.clone(),
            identifier: BinaryIdentifier {
                name: bname("acme", "fmt"),
                version: ver(2, 0, 0),
            },
        }],
        global_locations: Vec::new(),
    };
    let config = ConfigFileBinary {
        path: url.clone(),
        version: Some(VersionSelector::Range(ver(1, 0, 0), ver(2, 0, 0))),
    };
    let b = get_installed_binary_if_associated_config_file_binary(&manifest, &config)
        .expect("a version in range is installed");
    assert_eq!(b.version, ver(1, 8, 0));

    let config_without_version = ConfigFileBinary {
        path: url,
        version: None,
    };
    assert!(get_installed_binary_if_associated_config_file_binary(
        &manifest,
        &config_without_version
    )
    .is_none());
}

#[test]
fn latest_matching_name_and_version_empty_when_nothing_matches() {
    let manifest = PluginsManifest {
        binaries: vec![item("acme", "fmt", ver(1, 0, 0), &[])],
        url_associations: Vec::new(),
        global_locations: Vec::new(),
    };
    let r = get_latest_binary_matching_name_and_version(
        &manifest,
        &name_sel("zip"),
        &VersionSelector::Any,
    );
    assert!(r.is_none());
}

#[test]
fn bvm_binding_resolves_to_cache_dir_joined_with_command_path() {
    let id = BinaryIdentifier {
        name: bname("acme", "fmt"),
        version: ver(1, 2, 0),
    };
    let manifest = PluginsManifest {
        binaries: vec![item("acme", "fmt", ver(1, 2, 0), &[("fmt", "fmt-bin")])],
        url_associations: Vec::new(),
        global_locations: vec![GlobalLocationBinding {
            command: "fmt".to_string(),
            location: GlobalBinaryLocation::Bvm(id),
        }],
    };
    let r = get_global_binary_file_name(&manifest, "fmt", None, "/cache/binaries");
    let expected_dir = get_plugin_dir("/cache/binaries", &bname("acme", "fmt"), &ver(1, 2, 0));
    assert_eq!(expected_dir, "/cache/binaries/acme/fmt/1.2.0");
    assert_eq!(r.unwrap(), format!("{}/fmt-bin", expected_dir));
}

#[test]
fn bvm_binding_wins_over_path_executable() {
    let id = BinaryIdentifier {
        name: bname("acme", "fmt"),
        version: ver(1, 2, 0),
    };
    let manifest = PluginsManifest {
        binaries: vec![item("acme", "fmt", ver(1, 2, 0), &[("fmt", "fmt-bin")])],
        url_associations: Vec::new(),
        global_locations: vec![GlobalLocationBinding {
            command: "fmt".to_string(),
            location: GlobalBinaryLocation::Bvm(id),
        }],
    };
    let r = get_global_binary_file_name(&manifest, "fmt", Some("/usr/bin/fmt"), "/cache/binaries");
    assert_eq!(r.unwrap(), "/cache/binaries/acme/fmt/1.2.0/fmt-bin");
}

#[test]
fn stale_binding_is_an_error_not_a_panic() {
    let id = BinaryIdentifier {
        name: bname("acme", "fmt"),
        version: ver(1, 2, 0),
    };
    let manifest = PluginsManifest {
        binaries: Vec::new(),
        url_associations: Vec::new(),
        global_locations: vec![GlobalLocationBinding {
            command: "fmt".to_string(),
            location: GlobalBinaryLocation::Bvm(id),
        }],
    };
    let r = get_global_binary_file_name(&manifest, "fmt", None, "/cache/binaries");
    assert!(matches!(r, Err(ResolutionError::StaleBinding { .. })));
}

#[test]
fn bound_binary_without_the_command_is_a_defect() {
    let id = BinaryIdentifier {
        name: bname("acme", "fmt"),
        version: ver(1, 2, 0),
    };
    let manifest = PluginsManifest {
        binaries: vec![item("acme", "fmt", ver(1, 2, 0), &[("other", "other-bin")])],
        url_associations: Vec::new(),
        global_locations: vec![GlobalLocationBinding {
            command: "fmt".to_string(),
            location: GlobalBinaryLocation::Bvm(id),
        }],
    };
    let r = get_global_binary_file_name(&manifest, "fmt", None, "/cache/binaries");
    assert!(matches!(r, Err(ResolutionError::MissingCommandPath { .. })));
}

#[test]
fn path_binding_uses_path_executable() {
    let manifest = PluginsManifest {
        binaries: Vec::new(),
        url_associations: Vec::new(),
        global_locations: vec![GlobalLocationBinding {
            command: "fmt".to_string(),
            location: GlobalBinaryLocation::Path,
        }],
    };
    let r = get_global_binary_file_name(&manifest, "fmt", Some("/usr/bin/fmt"), "/cache/binaries");
    assert_eq!(r.unwrap(), "/usr/bin/fmt");
}

#[test]
fn path_binding_with_only_shim_is_an_error() {
    let manifest = PluginsManifest {
        binaries: Vec::new(),
        url_associations: Vec::new(),
        global_locations: vec![GlobalLocationBinding {
            command: "fmt".to_string(),
            location: GlobalBinaryLocation::Path,
        }],
    };
    let r = get_global_binary_file_name(&manifest, "fmt", None, "/cache/binaries");
    assert!(matches!(r, Err(ResolutionError::ShimOnlyOnPath { .. })));
}

#[test]
fn unbound_command_falls_back_to_path() {
    let manifest = empty_manifest();
    let r = get_global_binary_file_name(&manifest, "fmt", Some("/usr/bin/fmt"), "/cache/binaries");
    assert_eq!(r.unwrap(), "/usr/bin/fmt");
}

#[test]
fn unbound_command_without_path_lists_the_one_candidate() {
    let manifest = PluginsManifest {
        binaries: vec![
            item("acme", "fmt", ver(1, 0, 0), &[("fmt", "fmt-bin")]),
            item("acme", "fmt", ver(2, 0, 0), &[("fmt", "fmt-bin")]),
            item("acme", "zip", ver(9, 0, 0), &[("zip", "zip-bin")]),
        ],
        url_associations: Vec::new(),
        global_locations: Vec::new(),
    };
    let r = get_global_binary_file_name(&manifest, "fmt", None, "/cache/binaries");
    match r {
        Err(ResolutionError::NoGlobalVersionSelected { installed, .. }) => {
            assert_eq!(installed, vec!["1.0.0".to_string(), "2.0.0".to_string()]);
        }
        other => panic!("expected NoGlobalVersionSelected, got {:?}", other),
    }
}

#[test]
fn unbound_command_without_candidates_is_not_found() {
    let manifest = empty_manifest();
    let r = get_global_binary_file_name(&manifest, "fmt", None, "/cache/binaries");
    assert!(matches!(r, Err(ResolutionError::CommandNotFound { .. })));
}

#[test]
fn item_order_compares_name_then_version() {
    let a = item("acme", "fmt", ver(2, 0, 0), &[]);
    let b = item("zeta", "zip", ver(1, 0, 0), &[]);
    assert!(a.le(&b), "names decide before versions");
    assert!(!b.le(&a));
    let c = item("acme", "fmt", ver(2, 0, 1), &[]);
    assert!(a.le(&c));
    assert!(!c.le(&a));
}

#[test]
fn provides_command_checks_the_command_list() {
    let a = item("acme", "fmt", ver(1, 0, 0), &[("fmt", "fmt-bin"), ("fmt2", "fmt2-bin")]);
    assert!(a.provides_command("fmt"));
    assert!(a.provides_command("fmt2"));
    assert!(!a.provides_command("zip"));
}

#[test]
fn latest_matching_name_and_version_picks_highest_match() {
    let manifest = PluginsManifest {
        binaries: vec![
            item("acme", "fmt", ver(1, 0, 0), &[]),
            item("acme", "fmt", ver(1, 5, 0), &[]),
            item("acme", "zip", ver(9, 0, 0), &[]),
        ],
        url_associations: Vec::new(),
        global_locations: Vec::new(),
    };
    let b = get_latest_binary_matching_name_and_version(
        &manifest,
        &name_sel("fmt"),
        &VersionSelector::Any,
    )
    .expect("fmt is installed");
    assert_eq!(b.version, ver(1, 5, 0));
}
