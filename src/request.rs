use vstd::prelude::*;
use indexmap::IndexSet;

verus! {

/// The names an ordered set of package tokens holds, in insertion order.
pub uninterp spec fn package_set_items(s: IndexSet<String>) -> Seq<Seq<char>>;

/// Relies on IndexSet::new: the new set is empty.
#[verifier::external_body]
fn package_set_new() -> (r: IndexSet<String>)
    ensures
        package_set_items(r) == Seq::<Seq<char>>::empty(),
{
    IndexSet::new()
}

/// Relies on IndexSet::insert: a string not yet held is appended at the end;
/// one already held leaves the set and its order as they were.
#[verifier::external_body]
fn package_set_insert(s: &mut IndexSet<String>, v: String) -> (r: bool)
    ensures
        r == !package_set_items(*old(s)).contains(v@),
        package_set_items(*final(s)) == if package_set_items(*old(s)).contains(v@) {
            package_set_items(*old(s))
        } else {
            package_set_items(*old(s)).push(v@)
        },
{
    s.insert(v)
}

/// The pieces of `s` between the occurrences of `sep`; an empty string is one empty piece.
pub open spec fn split_on(s: Seq<char>, sep: char) -> Seq<Seq<char>>
    decreases s.len(),
{
    if s.len() == 0 {
        seq![Seq::<char>::empty()]
    } else {
        let p = split_on(s.drop_last(), sep);
        if s.last() == sep {
            p.push(Seq::<char>::empty())
        } else {
            p.update(p.len() - 1, p.last().push(s.last()))
        }
    }
}

/// `s` with every repeat of an earlier string left out, order kept.
pub open spec fn dedup_strs(s: Seq<Seq<char>>) -> Seq<Seq<char>>
    decreases s.len(),
{
    if s.len() == 0 {
        Seq::<Seq<char>>::empty()
    } else {
        let d = dedup_strs(s.drop_last());
        if d.contains(s.last()) {
            d
        } else {
            d.push(s.last())
        }
    }
}

/// Splits a comma-separated list of `package[@version]` tokens, keeping the
/// first occurrence of each token.
pub fn parse_package_list(s: &str) -> (r: IndexSet<String>)
    ensures
        package_set_items(r) == dedup_strs(split_on(s@, ',')),
{
    let n = s.unicode_len();
    let mut out = package_set_new();
    let mut start: usize = 0;
    let mut i: usize = 0;
    let ghost mut pieces: Seq<Seq<char>> = Seq::empty();
    assert(s@.subrange(0, 0) =~= Seq::<char>::empty());
    assert(s@.subrange(0, 0).subrange(0, 0) =~= Seq::<char>::empty());
    while i < n
        invariant
            n == s@.len(),
            start <= i <= n,
            split_on(s@.subrange(0, i as int), ',') == pieces.push(s@.subrange(start as int, i as int)),
            package_set_items(out) == dedup_strs(pieces),
        decreases n - i,
    {
        let c = s.get_char(i);
        let ghost pre = s@.subrange(0, i as int);
        let ghost next = s@.subrange(0, i + 1);
        assert(next.drop_last() =~= pre);
        assert(next.last() == c);
        if c == ',' {
            let piece = s.substring_char(start, i);
            proof {
                assert(dedup_strs(pieces.push(piece@)).len() >= 0);
                assert(pieces.push(piece@).drop_last() =~= pieces);
            }
            package_set_insert(&mut out, piece.to_string());
            proof {
                pieces = pieces.push(piece@);
                assert(s@.subrange(i + 1, i + 1) =~= Seq::<char>::empty());
            }
            start = i + 1;
        } else {
            proof {
                let p = pieces.push(s@.subrange(start as int, i as int));
                assert(s@.subrange(start as int, i as int).push(c) =~= s@.subrange(start as int, i + 1));
                assert(p.last() == s@.subrange(start as int, i as int));
                assert(p.update(p.len() - 1, p.last().push(c)) =~= pieces.push(s@.subrange(start as int, i + 1)));
            }
        }
        i = i + 1;
    }
    let piece = s.substring_char(start, n);
    assert(s@.subrange(0, n as int) =~= s@);
    proof {
        assert(pieces.push(piece@).drop_last() =~= pieces);
    }
    package_set_insert(&mut out, piece.to_string());
    out
}

/// A package to install and, if given, the version wanted.
#[derive(Debug)]
pub struct PackageRequest {
    pub id: String,
    pub version: Option<String>,
}

impl PackageRequest {
    /// `id@version` names a version; a token without `@` asks for the latest.
    /// The first `@` splits the token.
    pub fn parse(token: &str) -> (r: PackageRequest)
        ensures
            forall|k: int| 0 <= k < token@.len() && token@[k] == '@' && (forall|j: int| 0 <= j < k ==> token@[j] != '@')
                ==> r.id@ == token@.subrange(0, k) && r.version is Some
                    && r.version->Some_0@ == token@.subrange(k + 1, token@.len() as int),
            (forall|j: int| 0 <= j < token@.len() ==> token@[j] != '@') ==> r.id@ == token@ && r.version is None,
    {
        let n = token.unicode_len();
        let mut i: usize = 0;
        while i < n
            invariant
                n == token@.len(),
                i <= n,
                forall|j: int| 0 <= j < i ==> token@[j] != '@',
            decreases n - i,
        {
            if token.get_char(i) == '@' {
                let id = token.substring_char(0, i).to_string();
                let version = token.substring_char(i + 1, n).to_string();
                proof {
                    assert forall|k: int| 0 <= k < token@.len() && token@[k] == '@' && (forall|j: int| 0 <= j < k ==> token@[j] != '@')
                        implies k == i by {
                        if k < i {
                        } else if k > i {
                            assert(token@[i as int] == '@');
                        }
                    }
                }
                return PackageRequest { id, version: Some(version) };
            }
            i = i + 1;
        }
        PackageRequest { id: token.to_string(), version: None }
    }
}

} // verus!
