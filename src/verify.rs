use vstd::prelude::*;
use crate::manifest::{Manifest, entry_for, digest_for, first_shared, find_entry, find_digest, select_algorithm, lemma_digest_for_some};
use crate::policy::VerificationPolicy;
use crate::types::VerifyType;

verus! {

/// What SHA-256 makes of the bytes.
pub uninterp spec fn sha256_of(b: Seq<u8>) -> Seq<u8>;

/// What SHA-512 makes of the bytes.
pub uninterp spec fn sha512_of(b: Seq<u8>) -> Seq<u8>;

/// What SHA3-256 makes of the bytes.
pub uninterp spec fn sha3_256_of(b: Seq<u8>) -> Seq<u8>;

/// What SHA3-512 makes of the bytes.
pub uninterp spec fn sha3_512_of(b: Seq<u8>) -> Seq<u8>;

/// Relies on sha2::Sha256::digest: a 32-byte digest that depends on the bytes alone.
#[verifier::external_body]
fn sha256(b: &[u8]) -> (r: Vec<u8>)
    ensures
        r@ == sha256_of(b@),
        r@.len() == 32,
{
    <sha2::Sha256 as sha2::Digest>::digest(b).to_vec()
}

/// Relies on sha2::Sha512::digest: a 64-byte digest that depends on the bytes alone.
#[verifier::external_body]
fn sha512(b: &[u8]) -> (r: Vec<u8>)
    ensures
        r@ == sha512_of(b@),
        r@.len() == 64,
{
    <sha2::Sha512 as sha2::Digest>::digest(b).to_vec()
}

/// Relies on sha3::Sha3_256::digest: a 32-byte digest that depends on the bytes alone.
#[verifier::external_body]
fn sha3_256(b: &[u8]) -> (r: Vec<u8>)
    ensures
        r@ == sha3_256_of(b@),
        r@.len() == 32,
{
    <sha3::Sha3_256 as sha3::Digest>::digest(b).to_vec()
}

/// Relies on sha3::Sha3_512::digest: a 64-byte digest that depends on the bytes alone.
#[verifier::external_body]
fn sha3_512(b: &[u8]) -> (r: Vec<u8>)
    ensures
        r@ == sha3_512_of(b@),
        r@.len() == 64,
{
    <sha3::Sha3_512 as sha3::Digest>::digest(b).to_vec()
}

/// The digest of `b` under `alg`; `Disabled` hashes nothing.
pub open spec fn digest_of(alg: VerifyType, b: Seq<u8>) -> Option<Seq<u8>> {
    match alg {
        VerifyType::Disabled => None,
        VerifyType::Sha3_512 => Some(sha3_512_of(b)),
        VerifyType::Sha3_256 => Some(sha3_256_of(b)),
        VerifyType::Sha512 => Some(sha512_of(b)),
        VerifyType::Sha256 => Some(sha256_of(b)),
    }
}

pub fn compute_digest(alg: VerifyType, b: &[u8]) -> (r: Option<Vec<u8>>)
    ensures
        match digest_of(alg, b@) {
            None => r is None,
            Some(d) => r is Some && r->Some_0@ == d,
        },
{
    match alg {
        VerifyType::Disabled => None,
        VerifyType::Sha3_512 => Some(sha3_512(b)),
        VerifyType::Sha3_256 => Some(sha3_256(b)),
        VerifyType::Sha512 => Some(sha512(b)),
        VerifyType::Sha256 => Some(sha256(b)),
    }
}

/// Compares two digests over their whole common length, so that the time
/// taken does not tell where the first difference stands.
pub fn digests_equal(a: &[u8], b: &[u8]) -> (r: bool)
    ensures
        r == (a@ == b@),
{
    if a.len() != b.len() {
        return false;
    }
    let mut same: bool = true;
    let mut i: usize = 0;
    assert(a@.subrange(0, 0) =~= b@.subrange(0, 0));
    while i < a.len()
        invariant
            i <= a.len(),
            a.len() == b.len(),
            same == (a@.subrange(0, i as int) == b@.subrange(0, i as int)),
        decreases a.len() - i,
    {
        let eq = a[i] == b[i];
        proof {
            let (pa, pb) = (a@.subrange(0, i + 1), b@.subrange(0, i + 1));
            assert(pa.drop_last() =~= a@.subrange(0, i as int));
            assert(pb.drop_last() =~= b@.subrange(0, i as int));
            if pa == pb {
                assert(pa[i as int] == pb[i as int]);
            }
            if same && eq {
                assert(pa =~= pb);
            }
        }
        if !eq {
            same = false;
        }
        i = i + 1;
    }
    assert(a@.subrange(0, i as int) =~= a@);
    assert(b@.subrange(0, i as int) =~= b@);
    same
}

/// Whether `blob`, published as `path`, matches the manifest under the first
/// algorithm of the policy's order that the manifest lists for it.
pub open spec fn blob_verified(
    blob: Seq<u8>,
    path: Seq<char>,
    m: Seq<(Seq<char>, Seq<(VerifyType, Seq<u8>)>)>,
    policy: Seq<VerifyType>,
) -> bool {
    match entry_for(m, path) {
        None => false,
        Some(ds) => match first_shared(policy, ds) {
            None => false,
            Some(alg) => digest_of(alg, blob) is Some && digest_for(ds, alg) == digest_of(alg, blob),
        },
    }
}

/// Whether a digest already computed under `alg` matches the one that the
/// entry lists for `alg`.
pub fn digest_matches(computed: &[u8], alg: VerifyType, e: &crate::manifest::ManifestEntry) -> (r: bool)
    ensures
        r == (digest_for(e@.1, alg) == Some(computed@)),
{
    match find_digest(e, alg) {
        None => false,
        Some(expected) => digests_equal(expected.as_slice(), computed),
    }
}

pub fn verify_blob(blob: &[u8], path: &str, m: &Manifest, policy: &VerificationPolicy) -> (r: bool)
    ensures
        r == blob_verified(blob@, path@, m@, policy.spec_algorithms()),
{
    match find_entry(m, path) {
        None => false,
        Some(e) => match select_algorithm(policy.algorithms(), e) {
            None => false,
            Some(alg) => match compute_digest(alg, blob) {
                None => false,
                Some(d) => digest_matches(d.as_slice(), alg, e),
            },
        },
    }
}

pub proof fn lemma_first_shared_found(policy: Seq<VerifyType>, ds: Seq<(VerifyType, Seq<u8>)>, alg: VerifyType)
    requires
        policy.contains(alg),
        alg != VerifyType::Disabled,
        exists|j: int| 0 <= j < ds.len() && ds[j].0 == alg,
    ensures
        first_shared(policy, ds) is Some,
        policy.contains(first_shared(policy, ds)->Some_0),
        digest_for(ds, first_shared(policy, ds)->Some_0) is Some,
        first_shared(policy, ds)->Some_0 != VerifyType::Disabled,
    decreases policy.len(),
{
    lemma_digest_for_some(ds, alg);
    if policy[0] != VerifyType::Disabled && digest_for(ds, policy[0]) is Some {
        assert(policy[0] == policy[0]);
    } else {
        let k = choose|k: int| 0 <= k < policy.len() && policy[k] == alg;
        assert(k != 0);
        assert(policy.drop_first()[k - 1] == alg);
        lemma_first_shared_found(policy.drop_first(), ds, alg);
        let f = first_shared(policy, ds)->Some_0;
        let k2 = choose|k2: int| 0 <= k2 < policy.len() - 1 && policy.drop_first()[k2] == f;
        assert(policy[k2 + 1] == f);
    }
}

pub proof fn lemma_first_shared_none(policy: Seq<VerifyType>, ds: Seq<(VerifyType, Seq<u8>)>)
    requires
        forall|j: int| 0 <= j < ds.len() ==> !policy.contains(#[trigger] ds[j].0),
    ensures
        first_shared(policy, ds) is None,
    decreases policy.len(),
{
    if policy.len() > 0 {
        lemma_digest_for_some(ds, policy[0]);
        if exists|j: int| 0 <= j < ds.len() && ds[j].0 == policy[0] {
            let j = choose|j: int| 0 <= j < ds.len() && ds[j].0 == policy[0];
            assert(policy.contains(ds[j].0));
        }
        assert forall|j: int| 0 <= j < ds.len() implies !policy.drop_first().contains(#[trigger] ds[j].0) by {
            if policy.drop_first().contains(ds[j].0) {
                let k = choose|k: int| 0 <= k < policy.len() - 1 && policy.drop_first()[k] == ds[j].0;
                assert(policy[k + 1] == ds[j].0);
            }
        }
        lemma_first_shared_none(policy.drop_first(), ds);
    }
}

/// Where the policy and the manifest entry for `path` share a hashing
/// algorithm, and the entry lists the true digest of the blob under every
/// algorithm it names, the blob is accepted. And whenever the digest of the
/// blob under the algorithm that is picked differs from the listed one (as it
/// does for a blob with a byte changed, unless the hash collides), the blob is
/// refused.
pub proof fn law_correct_digest_accepted(
    blob: Seq<u8>,
    other: Seq<u8>,
    path: Seq<char>,
    m: Seq<(Seq<char>, Seq<(VerifyType, Seq<u8>)>)>,
    policy: Seq<VerifyType>,
    shared: VerifyType,
)
    requires
        entry_for(m, path) is Some,
        policy.contains(shared),
        shared != VerifyType::Disabled,
        exists|j: int| 0 <= j < entry_for(m, path)->Some_0.len() && entry_for(m, path)->Some_0[j].0 == shared,
        forall|a: VerifyType| a != VerifyType::Disabled && #[trigger] digest_for(entry_for(m, path)->Some_0, a) is Some
            ==> digest_for(entry_for(m, path)->Some_0, a) == digest_of(a, blob),
        forall|a: VerifyType| a != VerifyType::Disabled ==> #[trigger] digest_of(a, other) != digest_of(a, blob),
    ensures
        blob_verified(blob, path, m, policy),
        !blob_verified(other, path, m, policy),
{
    let ds = entry_for(m, path)->Some_0;
    lemma_first_shared_found(policy, ds, shared);
    let alg = first_shared(policy, ds)->Some_0;
    assert(digest_for(ds, alg) == digest_of(alg, blob));
    assert(digest_of(alg, other) != digest_of(alg, blob));
}

/// A manifest entry that lists only a weaker algorithm than the policy's
/// first choice is still checked, with that algorithm; one that shares no
/// algorithm with the policy is refused whatever the blob.
pub proof fn law_algorithm_fallback(
    blob: Seq<u8>,
    path: Seq<char>,
    m: Seq<(Seq<char>, Seq<(VerifyType, Seq<u8>)>)>,
    policy: Seq<VerifyType>,
    weaker: VerifyType,
)
    requires
        entry_for(m, path) is Some,
        policy.contains(weaker),
        weaker != VerifyType::Disabled,
        forall|j: int| 0 <= j < entry_for(m, path)->Some_0.len()
            ==> #[trigger] entry_for(m, path)->Some_0[j].0 == weaker,
        entry_for(m, path)->Some_0.len() > 0,
    ensures
        first_shared(policy, entry_for(m, path)->Some_0) == Some(weaker),
        blob_verified(blob, path, m, policy)
            <==> digest_for(entry_for(m, path)->Some_0, weaker) == digest_of(weaker, blob),
{
    let ds = entry_for(m, path)->Some_0;
    assert(ds[0].0 == weaker);
    lemma_first_shared_found(policy, ds, weaker);
    let f = first_shared(policy, ds)->Some_0;
    lemma_digest_for_some(ds, f);
    let j = choose|j: int| 0 <= j < ds.len() && ds[j].0 == f;
    assert(ds[j].0 == weaker);
}

/// With no algorithm in common between the policy and the entry for `path`,
/// no blob is accepted.
pub proof fn law_no_shared_algorithm(
    blob: Seq<u8>,
    path: Seq<char>,
    m: Seq<(Seq<char>, Seq<(VerifyType, Seq<u8>)>)>,
    policy: Seq<VerifyType>,
)
    requires
        entry_for(m, path) is Some,
        forall|j: int| 0 <= j < entry_for(m, path)->Some_0.len()
            ==> !policy.contains(#[trigger] entry_for(m, path)->Some_0[j].0),
    ensures
        !blob_verified(blob, path, m, policy),
{
    lemma_first_shared_none(policy, entry_for(m, path)->Some_0);
}

} // verus!
