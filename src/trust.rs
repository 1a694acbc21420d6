use vstd::prelude::*;
use crate::types::{SigType, str_eq};

verus! {

/// Whether minisign accepts `sig` as a signature of `doc` by the base64 public key `key`.
pub uninterp spec fn minisign_accepts(key: Seq<char>, doc: Seq<u8>, sig: Seq<char>) -> bool;

/// Relies on minisign_verify: PublicKey::from_base64 decodes the key,
/// Signature::decode the signature text, and PublicKey::verify checks the
/// document, prehashed signatures only. The outcome depends on the three
/// arguments alone; a key or signature that does not decode is refused.
#[verifier::external_body]
fn minisign_check(key: &str, doc: &[u8], sig: &str) -> (r: bool)
    ensures
        r == minisign_accepts(key@, doc@, sig@),
{
    match (minisign_verify::PublicKey::from_base64(key), minisign_verify::Signature::decode(sig)) {
        (Ok(pk), Ok(s)) => pk.verify(doc, &s, false).is_ok(),
        _ => false,
    }
}

/// A public key that may sign the documents of one index.
#[derive(Debug)]
pub struct TrustedKey {
    pub identity: String,
    pub key: String,
}

/// Index identity to the keys allowed to sign its documents, in the order
/// they were added. Keys only accumulate.
#[derive(Debug)]
pub struct TrustStore {
    pairs: Vec<TrustedKey>,
}

/// The keys held for `id`, oldest first.
pub open spec fn keys_of(v: Seq<(Seq<char>, Seq<char>)>, id: Seq<char>) -> Seq<Seq<char>>
    decreases v.len(),
{
    if v.len() == 0 {
        Seq::<Seq<char>>::empty()
    } else if v.last().0 == id {
        keys_of(v.drop_last(), id).push(v.last().1)
    } else {
        keys_of(v.drop_last(), id)
    }
}

pub proof fn lemma_keys_of_contains(v: Seq<(Seq<char>, Seq<char>)>, id: Seq<char>, k: Seq<char>)
    ensures
        keys_of(v, id).contains(k) <==> v.contains((id, k)),
    decreases v.len(),
{
    if v.len() > 0 {
        let p = v.drop_last();
        lemma_keys_of_contains(p, id, k);
        let r = keys_of(p, id);
        if v.contains((id, k)) && v.last() != (id, k) {
            let j = choose|j: int| 0 <= j < v.len() && v[j] == (id, k);
            assert(p[j] == (id, k));
        }
        if p.contains((id, k)) {
            let j = choose|j: int| 0 <= j < p.len() && p[j] == (id, k);
            assert(v[j] == (id, k));
        }
        if v.last().0 == id {
            if r.push(v.last().1).contains(k) && v.last().1 != k {
                let j = choose|j: int| 0 <= j < r.len() + 1 && r.push(v.last().1)[j] == k;
                assert(r[j] == k);
            }
            if r.contains(k) {
                let j = choose|j: int| 0 <= j < r.len() && r[j] == k;
                assert(r.push(v.last().1)[j] == k);
            }
            assert(r.push(v.last().1)[r.len() as int] == v.last().1);
        }
        assert(v[v.len() - 1] == v.last());
    }
}

/// Signature `sig` of `doc` is accepted for `keys` under `scheme`.
pub open spec fn signature_accepted(keys: Seq<Seq<char>>, doc: Seq<u8>, sig: Seq<char>, scheme: SigType) -> bool {
    match scheme {
        SigType::Disabled => true,
        SigType::MiniSign => exists|i: int| 0 <= i < keys.len() && minisign_accepts(#[trigger] keys[i], doc, sig),
    }
}

/// Why the trust configuration cannot be used.
#[derive(Debug, Clone, Copy, PartialEq, Eq, Structural)]
pub enum TrustError {
    /// Signatures are mandatory and no key is trusted for the index.
    NoKeys,
}

impl View for TrustStore {
    type V = Seq<(Seq<char>, Seq<char>)>;

    closed spec fn view(&self) -> Self::V {
        self.pairs@.map_values(|p: TrustedKey| (p.identity@, p.key@))
    }
}

impl TrustStore {
    pub open spec fn wf(&self) -> bool {
        self@.no_duplicates()
    }

    pub open spec fn spec_keys(&self, id: Seq<char>) -> Seq<Seq<char>> {
        keys_of(self@, id)
    }

    pub fn new() -> (r: TrustStore)
        ensures
            r.wf(),
            r@ == Seq::<(Seq<char>, Seq<char>)>::empty(),
    {
        let r = TrustStore { pairs: Vec::new() };
        assert(r@ =~= Seq::<(Seq<char>, Seq<char>)>::empty());
        r
    }

    /// Whether `key` is held for `identity`.
    pub fn holds(&self, identity: &str, key: &str) -> (r: bool)
        ensures
            r == self@.contains((identity@, key@)),
    {
        let mut i: usize = 0;
        while i < self.pairs.len()
            invariant
                i <= self.pairs.len(),
                forall|j: int| 0 <= j < i ==> self@[j] != (identity@, key@),
            decreases self.pairs.len() - i,
        {
            if str_eq(self.pairs[i].identity.as_str(), identity) && str_eq(self.pairs[i].key.as_str(), key) {
                assert(self@[i as int] == (identity@, key@));
                return true;
            }
            i = i + 1;
        }
        false
    }

    /// Adds `key` for `identity`; a key already held is not added twice.
    pub fn add_key(&mut self, identity: &str, key: &str)
        requires
            old(self).wf(),
        ensures
            final(self).wf(),
            final(self)@ == if old(self)@.contains((identity@, key@)) {
                old(self)@
            } else {
                old(self)@.push((identity@, key@))
            },
            final(self).spec_keys(identity@) == if old(self).spec_keys(identity@).contains(key@) {
                old(self).spec_keys(identity@)
            } else {
                old(self).spec_keys(identity@).push(key@)
            },
            forall|other: Seq<char>| other != identity@
                ==> #[trigger] final(self).spec_keys(other) == old(self).spec_keys(other),
    {
        proof {
            lemma_keys_of_contains(self@, identity@, key@);
        }
        if !self.holds(identity, key) {
            let ghost before = self@;
            self.pairs.push(TrustedKey { identity: identity.to_string(), key: key.to_string() });
            assert(self@ =~= before.push((identity@, key@)));
            assert(self@.drop_last() =~= before);
            proof {
                assert forall|i: int, j: int| 0 <= i < self@.len() && 0 <= j < self@.len() && i != j
                    implies self@[i] != self@[j] by {
                    if i < before.len() && j < before.len() {
                    } else if i < before.len() {
                        assert(before.contains(self@[i]));
                    } else {
                        assert(before.contains(self@[j]));
                    }
                }
            }
        }
    }

    /// Whether any key is held for `identity`.
    pub fn has_keys(&self, identity: &str) -> (r: bool)
        ensures
            r == (self.spec_keys(identity@).len() > 0),
    {
        let mut i: usize = 0;
        while i < self.pairs.len()
            invariant
                i <= self.pairs.len(),
                forall|j: int| 0 <= j < i ==> self@[j].0 != identity@,
            decreases self.pairs.len() - i,
        {
            if str_eq(self.pairs[i].identity.as_str(), identity) {
                proof {
                    lemma_keys_of_contains(self@, identity@, self@[i as int].1);
                    assert(self@.contains((identity@, self@[i as int].1)));
                }
                return true;
            }
            i = i + 1;
        }
        proof {
            if self.spec_keys(identity@).len() > 0 {
                let k = self.spec_keys(identity@)[0];
                lemma_keys_of_contains(self@, identity@, k);
                let j = choose|j: int| 0 <= j < self@.len() && self@[j] == (identity@, k);
                assert(self@[j].0 == identity@);
            }
        }
        false
    }

    /// Fails closed: signatures that are mandatory need at least one key.
    pub fn check_ready(&self, identity: &str, scheme: SigType) -> (r: Result<(), TrustError>)
        ensures
            r is Err <==> (scheme == SigType::MiniSign && self.spec_keys(identity@).len() == 0),
            r is Err ==> r == Err::<(), TrustError>(TrustError::NoKeys),
    {
        match scheme {
            SigType::Disabled => Ok(()),
            SigType::MiniSign => if self.has_keys(identity) {
                Ok(())
            } else {
                Err(TrustError::NoKeys)
            },
        }
    }

    /// Checks `sig` over `doc` against every key held for `identity`, until one accepts it.
    pub fn verify_signature(&self, doc: &[u8], sig: &str, identity: &str, scheme: SigType) -> (r: bool)
        ensures
            r == signature_accepted(self.spec_keys(identity@), doc@, sig@, scheme),
    {
        if scheme == SigType::Disabled {
            return true;
        }
        let ghost keys = self.spec_keys(identity@);
        let mut i: usize = 0;
        while i < self.pairs.len()
            invariant
                i <= self.pairs.len(),
                keys == self.spec_keys(identity@),
                forall|j: int| 0 <= j < i && #[trigger] self@[j].0 == identity@
                    ==> !minisign_accepts(self@[j].1, doc@, sig@),
            decreases self.pairs.len() - i,
        {
            if str_eq(self.pairs[i].identity.as_str(), identity) {
                if minisign_check(self.pairs[i].key.as_str(), doc, sig) {
                    proof {
                        let k = self@[i as int].1;
                        lemma_keys_of_contains(self@, identity@, k);
                        assert(self@.contains((identity@, k)));
                        let m = choose|m: int| 0 <= m < keys.len() && keys[m] == k;
                        assert(minisign_accepts(keys[m], doc@, sig@));
                    }
                    return true;
                }
            }
            i = i + 1;
        }
        proof {
            if signature_accepted(keys, doc@, sig@, scheme) {
                let m = choose|m: int| 0 <= m < keys.len() && minisign_accepts(#[trigger] keys[m], doc@, sig@);
                assert(keys.contains(keys[m]));
                lemma_keys_of_contains(self@, identity@, keys[m]);
                let j = choose|j: int| 0 <= j < self@.len() && self@[j] == (identity@, keys[m]);
                assert(self@[j].0 == identity@);
            }
        }
        false
    }
}

/// Adding a key for an index never removes a key already held, for that
/// index or any other; and a signature that any one held key accepts is
/// accepted.
pub proof fn law_trust_union(
    before: TrustStore,
    after: TrustStore,
    identity: Seq<char>,
    key: Seq<char>,
    doc: Seq<u8>,
    sig: Seq<char>,
)
    requires
        after@ == if before@.contains((identity, key)) {
            before@
        } else {
            before@.push((identity, key))
        },
    ensures
        forall|id: Seq<char>, k: Seq<char>| #[trigger] before.spec_keys(id).contains(k)
            ==> after.spec_keys(id).contains(k),
        after.spec_keys(identity).contains(key),
        forall|k: Seq<char>| #[trigger] after.spec_keys(identity).contains(k) && minisign_accepts(k, doc, sig)
            ==> signature_accepted(after.spec_keys(identity), doc, sig, SigType::MiniSign),
{
    assert forall|id: Seq<char>, k: Seq<char>| #[trigger] before.spec_keys(id).contains(k)
        implies after.spec_keys(id).contains(k) by {
        lemma_keys_of_contains(before@, id, k);
        lemma_keys_of_contains(after@, id, k);
        if !before@.contains((identity, key)) {
            let j = choose|j: int| 0 <= j < before@.len() && before@[j] == (id, k);
            assert(after@[j] == (id, k));
        }
    }
    lemma_keys_of_contains(after@, identity, key);
    if !before@.contains((identity, key)) {
        assert(after@[before@.len() as int] == (identity, key));
    }
    assert forall|k: Seq<char>| #[trigger] after.spec_keys(identity).contains(k) && minisign_accepts(k, doc, sig)
        implies signature_accepted(after.spec_keys(identity), doc, sig, SigType::MiniSign) by {
        let ks = after.spec_keys(identity);
        let m = choose|m: int| 0 <= m < ks.len() && ks[m] == k;
        assert(minisign_accepts(ks[m], doc, sig));
    }
}

} // verus!
