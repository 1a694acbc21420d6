use vstd::prelude::*;
use crate::types::VerifyType;

verus! {

/// One digest of a file, as raw bytes.
#[derive(Debug)]
pub struct Digest {
    pub alg: VerifyType,
    pub value: Vec<u8>,
}

/// The digests the index publishes for one file of a release.
#[derive(Debug)]
pub struct ManifestEntry {
    pub path: String,
    pub digests: Vec<Digest>,
}

/// Relative path to algorithm to digest, for one release.
#[derive(Debug)]
pub struct Manifest {
    pub entries: Vec<ManifestEntry>,
}

pub open spec fn digests_view(ds: Seq<Digest>) -> Seq<(VerifyType, Seq<u8>)> {
    ds.map_values(|d: Digest| (d.alg, d.value@))
}

impl View for ManifestEntry {
    type V = (Seq<char>, Seq<(VerifyType, Seq<u8>)>);

    open spec fn view(&self) -> Self::V {
        (self.path@, digests_view(self.digests@))
    }
}

impl View for Manifest {
    type V = Seq<(Seq<char>, Seq<(VerifyType, Seq<u8>)>)>;

    open spec fn view(&self) -> Self::V {
        self.entries@.map_values(|e: ManifestEntry| e@)
    }
}

/// The digests listed for `path`: the first entry that names it wins.
pub open spec fn entry_for(
    m: Seq<(Seq<char>, Seq<(VerifyType, Seq<u8>)>)>,
    path: Seq<char>,
) -> Option<Seq<(VerifyType, Seq<u8>)>>
    decreases m.len(),
{
    if m.len() == 0 {
        None
    } else if m[0].0 == path {
        Some(m[0].1)
    } else {
        entry_for(m.drop_first(), path)
    }
}

/// The digest listed for `alg`: the first one wins.
pub open spec fn digest_for(ds: Seq<(VerifyType, Seq<u8>)>, alg: VerifyType) -> Option<Seq<u8>>
    decreases ds.len(),
{
    if ds.len() == 0 {
        None
    } else if ds[0].0 == alg {
        Some(ds[0].1)
    } else {
        digest_for(ds.drop_first(), alg)
    }
}

/// The first algorithm of the policy's order that hashes and that the entry lists.
pub open spec fn first_shared(
    policy: Seq<VerifyType>,
    ds: Seq<(VerifyType, Seq<u8>)>,
) -> Option<VerifyType>
    decreases policy.len(),
{
    if policy.len() == 0 {
        None
    } else if policy[0] != VerifyType::Disabled && digest_for(ds, policy[0]) is Some {
        Some(policy[0])
    } else {
        first_shared(policy.drop_first(), ds)
    }
}

pub proof fn lemma_digest_for_some(ds: Seq<(VerifyType, Seq<u8>)>, alg: VerifyType)
    ensures
        digest_for(ds, alg) is Some <==> exists|j: int| 0 <= j < ds.len() && ds[j].0 == alg,
    decreases ds.len(),
{
    if ds.len() > 0 {
        lemma_digest_for_some(ds.drop_first(), alg);
        if exists|j: int| 0 <= j < ds.len() && ds[j].0 == alg {
            let j = choose|j: int| 0 <= j < ds.len() && ds[j].0 == alg;
            if j > 0 {
                assert(ds.drop_first()[j - 1].0 == alg);
            }
        }
        if exists|j: int| 0 <= j < ds.len() - 1 && ds.drop_first()[j].0 == alg {
            let j = choose|j: int| 0 <= j < ds.len() - 1 && ds.drop_first()[j].0 == alg;
            assert(ds[j + 1].0 == alg);
        }
    }
}

/// Finds the entry for `path`.
pub fn find_entry<'a>(m: &'a Manifest, path: &str) -> (r: Option<&'a ManifestEntry>)
    ensures
        match entry_for(m@, path@) {
            None => r is None,
            Some(ds) => r is Some && r->Some_0@ == (path@, ds),
        },
{
    let mut i: usize = 0;
    assert(m@.subrange(0, m@.len() as int) =~= m@);
    while i < m.entries.len()
        invariant
            i <= m.entries.len(),
            entry_for(m@, path@) == entry_for(m@.subrange(i as int, m@.len() as int), path@),
        decreases m.entries.len() - i,
    {
        let ghost rest = m@.subrange(i as int, m@.len() as int);
        assert(rest.drop_first() =~= m@.subrange(i + 1, m@.len() as int));
        assert(rest[0] == m.entries@[i as int]@);
        if crate::types::str_eq(m.entries[i].path.as_str(), path) {
            return Some(&m.entries[i]);
        }
        i = i + 1;
    }
    assert(m@.subrange(i as int, m@.len() as int).len() == 0);
    None
}

/// Finds the digest listed for `alg`.
pub fn find_digest<'a>(e: &'a ManifestEntry, alg: VerifyType) -> (r: Option<&'a Vec<u8>>)
    ensures
        match digest_for(e@.1, alg) {
            None => r is None,
            Some(v) => r is Some && r->Some_0@ == v,
        },
{
    let ghost ds = e@.1;
    let mut i: usize = 0;
    assert(ds.subrange(0, ds.len() as int) =~= ds);
    while i < e.digests.len()
        invariant
            i <= e.digests.len(),
            ds == digests_view(e.digests@),
            digest_for(ds, alg) == digest_for(ds.subrange(i as int, ds.len() as int), alg),
        decreases e.digests.len() - i,
    {
        let ghost rest = ds.subrange(i as int, ds.len() as int);
        assert(rest.drop_first() =~= ds.subrange(i + 1, ds.len() as int));
        if e.digests[i].alg == alg {
            return Some(&e.digests[i].value);
        }
        i = i + 1;
    }
    assert(ds.subrange(i as int, ds.len() as int).len() == 0);
    None
}

/// Walks the policy's order and picks the first algorithm that the entry lists.
pub fn select_algorithm(policy: &Vec<VerifyType>, e: &ManifestEntry) -> (r: Option<VerifyType>)
    ensures
        r == first_shared(policy@, e@.1),
{
    let mut i: usize = 0;
    assert(policy@.subrange(0, policy@.len() as int) =~= policy@);
    while i < policy.len()
        invariant
            i <= policy.len(),
            first_shared(policy@, e@.1) == first_shared(policy@.subrange(i as int, policy@.len() as int), e@.1),
        decreases policy.len() - i,
    {
        let ghost rest = policy@.subrange(i as int, policy@.len() as int);
        assert(rest.drop_first() =~= policy@.subrange(i + 1, policy@.len() as int));
        let a = policy[i];
        if a != VerifyType::Disabled {
            if find_digest(e, a).is_some() {
                return Some(a);
            }
        }
        i = i + 1;
    }
    assert(policy@.subrange(i as int, policy@.len() as int).len() == 0);
    None
}

} // verus!
