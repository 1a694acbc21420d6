use vstd::prelude::*;
use crate::types::{SigType, VerifyType};

verus! {

/// `s` with every repeat of an earlier element left out, order kept.
pub open spec fn dedup(s: Seq<VerifyType>) -> Seq<VerifyType>
    decreases s.len(),
{
    if s.len() == 0 {
        Seq::<VerifyType>::empty()
    } else {
        let d = dedup(s.drop_last());
        if d.contains(s.last()) {
            d
        } else {
            d.push(s.last())
        }
    }
}

pub proof fn lemma_dedup_contains(s: Seq<VerifyType>, x: VerifyType)
    ensures
        dedup(s).contains(x) <==> s.contains(x),
    decreases s.len(),
{
    if s.len() > 0 {
        lemma_dedup_contains(s.drop_last(), x);
        let d = dedup(s.drop_last());
        if s.contains(x) && x != s.last() {
            let j = choose|j: int| 0 <= j < s.len() && s[j] == x;
            assert(s.drop_last()[j] == x);
        }
        if d.push(s.last()).contains(x) && x != s.last() {
            let j = choose|j: int| 0 <= j < d.len() + 1 && d.push(s.last())[j] == x;
            assert(d[j] == x);
        }
        if s.drop_last().contains(x) {
            let j = choose|j: int| 0 <= j < s.len() - 1 && s.drop_last()[j] == x;
            assert(s[j] == x);
        }
        if d.contains(x) {
            let j = choose|j: int| 0 <= j < d.len() && d[j] == x;
            assert(d.push(s.last())[j] == x);
        }
        assert(d.push(s.last())[d.len() as int] == s.last());
        assert(s[s.len() - 1] == s.last());
    }
}

pub proof fn lemma_dedup_no_duplicates(s: Seq<VerifyType>)
    ensures
        dedup(s).no_duplicates(),
    decreases s.len(),
{
    if s.len() > 0 {
        lemma_dedup_no_duplicates(s.drop_last());
        let d = dedup(s.drop_last());
        if !d.contains(s.last()) {
            let e = d.push(s.last());
            assert forall|i: int, j: int| 0 <= i < e.len() && 0 <= j < e.len() && i != j
                implies e[i] != e[j] by {
                if i < d.len() && j < d.len() {
                } else if i < d.len() {
                    assert(e[i] == d[i]);
                } else {
                    assert(e[j] == d[j]);
                }
            }
        }
    }
}

/// The hash algorithms to try, strongest first, and the signature scheme of
/// the index documents. Built once per run and only read afterwards.
pub struct VerificationPolicy {
    algorithms: Vec<VerifyType>,
    signature: SigType,
}

impl VerificationPolicy {
    pub closed spec fn spec_algorithms(&self) -> Seq<VerifyType> {
        self.algorithms@
    }

    pub closed spec fn spec_signature(&self) -> SigType {
        self.signature
    }

    /// No algorithm twice, and at least one entry; turning hashing off is
    /// the entry `Disabled`, never an empty list.
    pub open spec fn wf(&self) -> bool {
        &&& self.spec_algorithms().no_duplicates()
        &&& self.spec_algorithms().len() > 0
    }

    /// Blob hashes are not checked when the user listed `Disabled`.
    pub open spec fn spec_hashing_disabled(&self) -> bool {
        self.spec_algorithms().contains(VerifyType::Disabled)
    }

    /// Keeps the given order; a repeated algorithm counts once, where it first stood.
    pub fn new(algorithms: &Vec<VerifyType>, signature: SigType) -> (r: VerificationPolicy)
        requires
            algorithms@.len() > 0,
        ensures
            r.wf(),
            r.spec_algorithms() == dedup(algorithms@),
            r.spec_signature() == signature,
    {
        let mut out: Vec<VerifyType> = Vec::new();
        let mut i: usize = 0;
        while i < algorithms.len()
            invariant
                i <= algorithms.len(),
                out@ == dedup(algorithms@.subrange(0, i as int)),
            decreases algorithms.len() - i,
        {
            let a = algorithms[i];
            let ghost prefix = algorithms@.subrange(0, i as int);
            let ghost next = algorithms@.subrange(0, i + 1);
            assert(next.drop_last() =~= prefix);
            proof {
                lemma_dedup_contains(prefix, a);
            }
            if !contains_algorithm(&out, a) {
                out.push(a);
            }
            i = i + 1;
        }
        assert(algorithms@.subrange(0, algorithms.len() as int) =~= algorithms@);
        proof {
            lemma_dedup_no_duplicates(algorithms@);
            lemma_dedup_contains(algorithms@, algorithms@[0]);
            assert(algorithms@.contains(algorithms@[0]));
        }
        VerificationPolicy { algorithms: out, signature }
    }

    pub fn algorithms(&self) -> (r: &Vec<VerifyType>)
        ensures
            r@ == self.spec_algorithms(),
    {
        &self.algorithms
    }

    pub fn signature(&self) -> (r: SigType)
        ensures
            r == self.spec_signature(),
    {
        self.signature
    }

    pub fn hashing_disabled(&self) -> (r: bool)
        ensures
            r == self.spec_hashing_disabled(),
    {
        contains_algorithm(&self.algorithms, VerifyType::Disabled)
    }
}

pub fn contains_algorithm(s: &Vec<VerifyType>, a: VerifyType) -> (r: bool)
    ensures
        r == s@.contains(a),
{
    let mut i: usize = 0;
    while i < s.len()
        invariant
            i <= s.len(),
            forall|j: int| 0 <= j < i ==> s@[j] != a,
        decreases s.len() - i,
    {
        if s[i] == a {
            return true;
        }
        i = i + 1;
    }
    false
}

} // verus!
