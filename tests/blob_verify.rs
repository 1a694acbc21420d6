use cargo_prebuilt::manifest::{find_entry, select_algorithm, Digest, Manifest, ManifestEntry};
use cargo_prebuilt::policy::VerificationPolicy;
use cargo_prebuilt::types::{SigType, VerifyType};
use cargo_prebuilt::verify::{compute_digest, digest_matches, digests_equal, verify_blob};

fn hex(b: &[u8]) -> String {
    b.iter().map(|x| format!("{:02x}", x)).collect()
}

fn manifest_for(path: &str, digests: Vec<(VerifyType, Vec<u8>)>) -> Manifest {
    Manifest {
        entries: vec![ManifestEntry {
            path: path.to_string(),
            digests: digests.into_iter().map(|(alg, value)| Digest { alg, value }).collect(),
        }],
    }
}

fn all_algorithms() -> VerificationPolicy {
    VerificationPolicy::new(
        &vec![VerifyType::Sha3_512, VerifyType::Sha3_256, VerifyType::Sha512, VerifyType::Sha256],
        SigType::MiniSign,
    )
}

#[test]
fn digests_of_abc_match_known_values() {
    let abc = b"abc";
    assert_eq!(
        hex(&compute_digest(VerifyType::Sha256, abc).unwrap()),
        "ba7816bf8f01cfea414140de5dae2223b00361a396177a9cb410ff61f20015ad"
    );
    assert_eq!(
        hex(&compute_digest(VerifyType::Sha512, abc).unwrap()),
        "ddaf35a193617abacc417349ae20413112e6fa4e89a97ea20a9eeee64b55d39a2192992a274fc1a836ba3c23a3feebbd454d4423643ce80e2a9ac94fa54ca49f"
    );
    assert_eq!(
        hex(&compute_digest(VerifyType::Sha3_256, abc).unwrap()),
        "3a985da74fe225b2045c172d6bd390bd855f086e3e9d525b46bfe24511431532"
    );
    assert_eq!(
        hex(&compute_digest(VerifyType::Sha3_512, abc).unwrap()),
        "b751850b1a57168a5693cd924b6b096e08f621827444f70d884f5d0240d2712e10e116e9192af3c91a7ec57647e3934057340b4cf408d5a56592f8274eec53f0"
    );
    assert!(compute_digest(VerifyType::Disabled, abc).is_none());
}

#[test]
fn correct_digest_verifies_and_mutated_byte_fails() {
    let blob = b"release archive bytes".to_vec();
    let d = compute_digest(VerifyType::Sha3_512, &blob).unwrap();
    let m = manifest_for("x86_64-unknown-linux-gnu.tar.gz", vec![(VerifyType::Sha3_512, d)]);
    let policy = all_algorithms();
    assert!(verify_blob(&blob, "x86_64-unknown-linux-gnu.tar.gz", &m, &policy));
    let mut bad = blob.clone();
    bad[3] ^= 1;
    assert!(!verify_blob(&bad, "x86_64-unknown-linux-gnu.tar.gz", &m, &policy));
    assert!(!verify_blob(&blob, "other.tar.gz", &m, &policy));
}

#[test]
fn weaker_algorithm_is_used_when_strongest_is_missing() {
    let blob = b"payload".to_vec();
    let d = compute_digest(VerifyType::Sha256, &blob).unwrap();
    let m = manifest_for("a.tar.gz", vec![(VerifyType::Sha256, d)]);
    let policy = all_algorithms();
    let e = find_entry(&m, "a.tar.gz").unwrap();
    assert_eq!(select_algorithm(policy.algorithms(), e), Some(VerifyType::Sha256));
    assert!(verify_blob(&blob, "a.tar.gz", &m, &policy));
}

#[test]
fn first_policy_algorithm_wins_over_later_ones() {
    let blob = b"payload".to_vec();
    let good = compute_digest(VerifyType::Sha512, &blob).unwrap();
    // The weaker digest is wrong, but it is never consulted.
    let m = manifest_for("a.tar.gz", vec![(VerifyType::Sha256, vec![0u8; 32]), (VerifyType::Sha512, good)]);
    let policy = all_algorithms();
    assert!(verify_blob(&blob, "a.tar.gz", &m, &policy));
    let weak_only = VerificationPolicy::new(&vec![VerifyType::Sha256], SigType::MiniSign);
    assert!(!verify_blob(&blob, "a.tar.gz", &m, &weak_only));
}

#[test]
fn no_shared_algorithm_fails() {
    let blob = b"payload".to_vec();
    let d = compute_digest(VerifyType::Sha3_256, &blob).unwrap();
    let m = manifest_for("a.tar.gz", vec![(VerifyType::Sha3_256, d)]);
    let policy = VerificationPolicy::new(&vec![VerifyType::Sha512, VerifyType::Sha256], SigType::MiniSign);
    let e = find_entry(&m, "a.tar.gz").unwrap();
    assert_eq!(select_algorithm(policy.algorithms(), e), None);
    assert!(!verify_blob(&blob, "a.tar.gz", &m, &policy));
}

#[test]
fn policy_keeps_first_occurrence_order() {
    let p = VerificationPolicy::new(
        &vec![VerifyType::Sha256, VerifyType::Sha512, VerifyType::Sha256, VerifyType::Disabled],
        SigType::Disabled,
    );
    assert_eq!(p.algorithms(), &vec![VerifyType::Sha256, VerifyType::Sha512, VerifyType::Disabled]);
    assert!(p.hashing_disabled());
    assert_eq!(p.signature(), SigType::Disabled);
    assert!(!all_algorithms().hashing_disabled());
}

#[test]
fn digest_comparison_is_exact() {
    assert!(digests_equal(&[1, 2, 3], &[1, 2, 3]));
    assert!(!digests_equal(&[1, 2, 3], &[1, 2, 4]));
    assert!(!digests_equal(&[1, 2, 3], &[1, 2]));
    assert!(digests_equal(&[], &[]));
    let e = ManifestEntry {
        path: "p".to_string(),
        digests: vec![Digest { alg: VerifyType::Sha256, value: vec![9, 9] }],
    };
    assert!(digest_matches(&[9, 9], VerifyType::Sha256, &e));
    assert!(!digest_matches(&[9, 8], VerifyType::Sha256, &e));
    assert!(!digest_matches(&[9, 9], VerifyType::Sha512, &e));
}
