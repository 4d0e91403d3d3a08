use bvm_resolution::errors::join_lines;
use bvm_resolution::errors::ResolutionError;
use bvm_resolution::names::BinaryName;
use bvm_resolution::names::NameSelector;
use bvm_resolution::text::str_eq;
use bvm_resolution::text::str_le;
use bvm_resolution::text::u64_to_string;
use bvm_resolution::version::Version;
use bvm_resolution::version::VersionSelector;

fn ver(major: u64, minor: u64, patch: u64) -> Version {
    Version { major, minor, patch }
}

#[test]
fn decimal_rendering() {
    assert_eq!(u64_to_string(0), "0");
    assert_eq!(u64_to_string(7), "7");
    assert_eq!(u64_to_string(10), "10");
    assert_eq!(u64_to_string(90217), "90217");
}

#[test]
fn version_rendering() {
    assert_eq!(ver(1, 2, 0).to_display_string(), "1.2.0");
    assert_eq!(ver(10, 0, 33).to_display_string(), "10.0.33");
}

#[test]
fn version_selector_rendering() {
    assert_eq!(
        VersionSelector::Exact(ver(1, 2, 3)).to_display_string(),
        "1.2.3"
    );
    assert_eq!(
        VersionSelector::Range(ver(1, 0, 0), ver(2, 0, 0)).to_display_string(),
        ">=1.0.0 <2.0.0"
    );
    assert_eq!(VersionSelector::Any.to_display_string(), "*");
}

#[test]
fn version_order() {
    assert!(ver(1, 9, 9).le(&ver(2, 0, 0)));
    assert!(!ver(2, 0, 0).le(&ver(1, 9, 9)));
    assert!(ver(1, 2, 3).le(&ver(1, 2, 3)));
    assert!(ver(1, 2, 3).le(&ver(1, 3, 0)));
}

#[test]
fn version_selector_matching() {
    assert!(VersionSelector::Exact(ver(1, 2, 3)).matches(&ver(1, 2, 3)));
    assert!(!VersionSelector::Exact(ver(1, 2, 3)).matches(&ver(1, 2, 4)));
    let range = VersionSelector::Range(ver(1, 0, 0), ver(2, 0, 0));
    assert!(range.matches(&ver(1, 0, 0)), "lower bound is inclusive");
    assert!(range.matches(&ver(1, 9, 9)));
    assert!(!range.matches(&ver(2, 0, 0)), "upper bound is exclusive");
    assert!(VersionSelector::Any.matches(&ver(0, 0, 0)));
}

#[test]
fn name_selector_matching() {
    let n = BinaryName {
        owner: "acme".to_string(),
        name: "fmt".to_string(),
    };
    let unqualified = NameSelector {
        owner: None,
        name: "fmt".to_string(),
    };
    let right_owner = NameSelector {
        owner: Some("acme".to_string()),
        name: "fmt".to_string(),
    };
    let wrong_owner = NameSelector {
        owner: Some("zeta".to_string()),
        name: "fmt".to_string(),
    };
    assert!(unqualified.matches(&n));
    assert!(right_owner.matches(&n));
    assert!(!wrong_owner.matches(&n));
    assert!(n.to_selector().matches(&n));
}

#[test]
fn name_rendering() {
    let n = BinaryName {
        owner: "acme".to_string(),
        name: "fmt".to_string(),
    };
    assert_eq!(n.to_display_string(), "acme/fmt");
    let unqualified = NameSelector {
        owner: None,
        name: "fmt".to_string(),
    };
    assert_eq!(unqualified.to_display_string(), "fmt");
    assert_eq!(n.to_selector().to_display_string(), "acme/fmt");
}

#[test]
fn string_order() {
    assert!(str_le("fmt", "zip"));
    assert!(!str_le("zip", "fmt"));
    assert!(str_le("", "a"));
    assert!(str_le("ab", "abc"));
    assert!(str_eq("fmt", "fmt"));
    assert!(!str_eq("fmt", "fm"));
}

#[test]
fn joining_lines() {
    let no_lines: Vec<String> = Vec::new();
    assert_eq!(join_lines(&no_lines), "");
    let one = vec!["1.0.0".to_string()];
    assert_eq!(join_lines(&one), "1.0.0");
    let two = vec!["1.0.0".to_string(), "2.0.0".to_string()];
    assert_eq!(join_lines(&two), "1.0.0\n  2.0.0");
}

#[test]
fn not_found_message_text() {
    let e = ResolutionError::BinaryNotFound {
        name: NameSelector {
            owner: None,
            name: "fmt".to_string(),
        },
    };
    assert_eq!(
        e.message(),
        "Could not find any installed binaries named 'fmt'"
    );
}

#[test]
fn version_mismatch_message_text() {
    let e = ResolutionError::VersionMismatch {
        name: NameSelector {
            owner: None,
            name: "fmt".to_string(),
        },
        version: VersionSelector::Exact(ver(9, 0, 0)),
        installed: vec!["1.0.0".to_string(), "2.0.0".to_string()],
    };
    assert_eq!(
        e.message(),
        "Could not find binary 'fmt' that matched version '9.0.0'\n\nInstalled versions:\n  1.0.0\n  2.0.0"
    );
}

#[test]
fn stale_binding_message_text() {
    let e = ResolutionError::StaleBinding {
        command: "fmt".to_string(),
    };
    assert_eq!(
        e.message(),
        "The global version for 'fmt' refers to a binary that is no longer installed. \
         Run `bvm use fmt <some other version>` to select a version to run."
    );
}

#[test]
fn defect_message_mentions_reporting_a_bug() {
    let e = ResolutionError::MissingCommandPath {
        command: "fmt".to_string(),
    };
    assert!(e.message().contains("Report this as a bug"));
}
