use cargo_prebuilt::install::{check_entry, contains_separator, install_path, plan_install, ArchiveEntry, InstallError};
use cargo_prebuilt::manifest::{Digest, Manifest, ManifestEntry};
use cargo_prebuilt::policy::VerificationPolicy;
use cargo_prebuilt::types::{SigType, VerifyType};
use cargo_prebuilt::verify::compute_digest;

fn entry(name: &str, exists: bool) -> ArchiveEntry {
    ArchiveEntry { name: name.to_string(), target_exists: exists, data: name.as_bytes().to_vec() }
}

fn bins(names: &[&str]) -> Vec<String> {
    names.iter().map(|s| s.to_string()).collect()
}

/// A manifest that lists, for each name, the SHA-256 of the bytes `entry` gives it.
fn manifest(names: &[&str]) -> Manifest {
    Manifest {
        entries: names
            .iter()
            .map(|n| ManifestEntry {
                path: n.to_string(),
                digests: vec![Digest { alg: VerifyType::Sha256, value: compute_digest(VerifyType::Sha256, n.as_bytes()).unwrap() }],
            })
            .collect(),
    }
}

fn policy() -> VerificationPolicy {
    VerificationPolicy::new(&vec![VerifyType::Sha512, VerifyType::Sha256], SigType::MiniSign)
}

#[test]
fn separators_are_found() {
    assert!(contains_separator("../evil"));
    assert!(contains_separator("a\\b"));
    assert!(contains_separator("/"));
    assert!(!contains_separator("foo"));
    assert!(!contains_separator(""));
    assert!(!contains_separator(".."));
}

#[test]
fn traversal_entry_is_unsafe_path() {
    let names = ["foo", "../evil"];
    let r = plan_install(&vec![entry("../evil", false)], &bins(&names), false, &manifest(&names), &policy());
    assert_eq!(r, Err(InstallError::UnsafePath));
}

#[test]
fn separator_anywhere_refuses_whole_archive() {
    let names = ["foo", "bar", "sub/baz"];
    let es = vec![entry("foo", false), entry("bar", false), entry("sub/baz", false)];
    let r = plan_install(&es, &bins(&names), false, &manifest(&names), &policy());
    assert_eq!(r, Err(InstallError::UnsafePath));
}

#[test]
fn unexpected_entry_refuses_archive() {
    let es = vec![entry("foo", false), entry("README", false)];
    let m = manifest(&["foo", "README"]);
    assert_eq!(plan_install(&es, &bins(&["foo"]), false, &m, &policy()), Err(InstallError::UnexpectedEntry));
    assert_eq!(
        check_entry(&entry("README", false), &bins(&["foo"]), false, &m, &policy()),
        Err(InstallError::UnexpectedEntry)
    );
}

#[test]
fn member_must_match_its_own_manifest_entry() {
    let m = manifest(&["foo"]);
    let tampered = ArchiveEntry { name: "foo".to_string(), target_exists: false, data: b"evil".to_vec() };
    assert_eq!(plan_install(&vec![tampered], &bins(&["foo"]), false, &m, &policy()), Err(InstallError::DigestMismatch));
    let unlisted = manifest(&["bar"]);
    assert_eq!(
        plan_install(&vec![entry("foo", false)], &bins(&["foo"]), false, &unlisted, &policy()),
        Err(InstallError::DigestMismatch)
    );
}

#[test]
fn hashing_disabled_skips_member_digests() {
    let off = VerificationPolicy::new(&vec![VerifyType::Disabled], SigType::Disabled);
    let tampered = ArchiveEntry { name: "foo".to_string(), target_exists: false, data: b"evil".to_vec() };
    assert_eq!(plan_install(&vec![tampered], &bins(&["foo"]), false, &manifest(&[]), &off), Ok(bins(&["foo"])));
}

#[test]
fn safe_mode_conflicts_on_existing_binary() {
    let m = manifest(&["foo"]);
    let first = vec![entry("foo", false)];
    assert_eq!(plan_install(&first, &bins(&["foo"]), true, &m, &policy()), Ok(bins(&["foo"])));
    let again = vec![entry("foo", true)];
    assert_eq!(plan_install(&again, &bins(&["foo"]), true, &m, &policy()), Err(InstallError::Conflict));
}

#[test]
fn default_mode_overwrites_the_same_way() {
    let names = ["foo", "foo-helper"];
    let m = manifest(&names);
    let first = vec![entry("foo", false), entry("foo-helper", false)];
    let again = vec![entry("foo", true), entry("foo-helper", true)];
    let expected = bins(&names);
    let a = plan_install(&first, &expected, false, &m, &policy());
    let b = plan_install(&again, &expected, false, &m, &policy());
    assert_eq!(a, Ok(expected.clone()));
    assert_eq!(a, b);
}

#[test]
fn empty_archive_installs_nothing() {
    assert_eq!(plan_install(&vec![], &bins(&["foo"]), true, &manifest(&[]), &policy()), Ok(vec![]));
}

#[test]
fn install_path_joins_directory_and_name() {
    assert_eq!(install_path("/home/u/.cargo/bin", "foo"), "/home/u/.cargo/bin/foo");
}
