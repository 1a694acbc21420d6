use vstd::prelude::*;
use crate::manifest::Manifest;
use crate::policy::VerificationPolicy;
use crate::types::{VerifyType, str_eq};
use crate::verify::{blob_verified, verify_blob};

verus! {

/// Why an archive is refused; the whole archive is refused, not one entry.
#[derive(Debug, Clone, Copy, PartialEq, Eq, Structural)]
pub enum InstallError {
    /// An entry's name holds a path separator.
    UnsafePath,
    /// An entry is not one of the release's binaries.
    UnexpectedEntry,
    /// A member's bytes do not match its own manifest entry.
    DigestMismatch,
    /// Safe mode and the binary is already installed.
    Conflict,
}

pub open spec fn is_separator(c: char) -> bool {
    c == '/' || c == '\\'
}

pub open spec fn has_separator(s: Seq<char>) -> bool {
    exists|i: int| 0 <= i < s.len() && is_separator(#[trigger] s[i])
}

/// Whether the decoded name holds a path separator.
pub fn contains_separator(name: &str) -> (r: bool)
    ensures
        r == has_separator(name@),
{
    let n = name.unicode_len();
    let mut i: usize = 0;
    while i < n
        invariant
            n == name@.len(),
            i <= n,
            forall|j: int| 0 <= j < i ==> !is_separator(#[trigger] name@[j]),
        decreases n - i,
    {
        let c = name.get_char(i);
        if c == '/' || c == '\\' {
            assert(is_separator(name@[i as int]));
            return true;
        }
        i = i + 1;
    }
    false
}

/// One member of the release archive: its decoded name, whether a file of
/// that name already stands in the install directory, and its bytes.
#[derive(Debug)]
pub struct ArchiveEntry {
    pub name: String,
    pub target_exists: bool,
    pub data: Vec<u8>,
}

impl View for ArchiveEntry {
    type V = (Seq<char>, bool, Seq<u8>);

    open spec fn view(&self) -> Self::V {
        (self.name@, self.target_exists, self.data@)
    }
}

pub open spec fn names_view(v: Seq<String>) -> Seq<Seq<char>> {
    v.map_values(|s: String| s@)
}

pub open spec fn entries_view(v: Seq<ArchiveEntry>) -> Seq<(Seq<char>, bool, Seq<u8>)> {
    v.map_values(|e: ArchiveEntry| e@)
}

/// Whether a member's bytes match the manifest entry for its own name, under
/// the first policy algorithm that entry lists; always so when the policy
/// turns hashing off.
pub open spec fn member_verified(
    e: (Seq<char>, bool, Seq<u8>),
    m: Seq<(Seq<char>, Seq<(VerifyType, Seq<u8>)>)>,
    algs: Seq<VerifyType>,
) -> bool {
    algs.contains(VerifyType::Disabled) || blob_verified(e.2, e.0, m, algs)
}

/// What one entry's check gives.
pub open spec fn entry_verdict(
    e: (Seq<char>, bool, Seq<u8>),
    expected: Seq<Seq<char>>,
    safe: bool,
    m: Seq<(Seq<char>, Seq<(VerifyType, Seq<u8>)>)>,
    algs: Seq<VerifyType>,
) -> Option<InstallError> {
    if has_separator(e.0) {
        Some(InstallError::UnsafePath)
    } else if !expected.contains(e.0) {
        Some(InstallError::UnexpectedEntry)
    } else if !member_verified(e, m, algs) {
        Some(InstallError::DigestMismatch)
    } else if safe && e.1 {
        Some(InstallError::Conflict)
    } else {
        None
    }
}

/// The outcome for a whole archive: the first refused entry decides; else
/// every entry is installed, in archive order.
pub open spec fn install_plan(
    entries: Seq<(Seq<char>, bool, Seq<u8>)>,
    expected: Seq<Seq<char>>,
    safe: bool,
    m: Seq<(Seq<char>, Seq<(VerifyType, Seq<u8>)>)>,
    algs: Seq<VerifyType>,
) -> Result<Seq<Seq<char>>, InstallError>
    decreases entries.len(),
{
    if entries.len() == 0 {
        Ok(Seq::<Seq<char>>::empty())
    } else {
        match entry_verdict(entries[0], expected, safe, m, algs) {
            Some(err) => Err(err),
            None => match install_plan(entries.drop_first(), expected, safe, m, algs) {
                Err(err) => Err(err),
                Ok(rest) => Ok(seq![entries[0].0] + rest),
            },
        }
    }
}

pub fn contains_name(names: &Vec<String>, name: &str) -> (r: bool)
    ensures
        r == names_view(names@).contains(name@),
{
    let ghost nv = names_view(names@);
    let mut i: usize = 0;
    while i < names.len()
        invariant
            i <= names.len(),
            nv == names_view(names@),
            forall|j: int| 0 <= j < i ==> nv[j] != name@,
        decreases names.len() - i,
    {
        if str_eq(names[i].as_str(), name) {
            assert(nv[i as int] == name@);
            return true;
        }
        i = i + 1;
    }
    false
}

/// Checks one entry: its name first, then that it is expected, then its
/// bytes against its manifest entry, then the overwrite policy.
pub fn check_entry(
    entry: &ArchiveEntry,
    expected: &Vec<String>,
    safe: bool,
    m: &Manifest,
    policy: &VerificationPolicy,
) -> (r: Result<(), InstallError>)
    ensures
        match entry_verdict(entry@, names_view(expected@), safe, m@, policy.spec_algorithms()) {
            Some(err) => r == Err::<(), InstallError>(err),
            None => r is Ok,
        },
{
    if contains_separator(entry.name.as_str()) {
        Err(InstallError::UnsafePath)
    } else if !contains_name(expected, entry.name.as_str()) {
        Err(InstallError::UnexpectedEntry)
    } else if !policy.hashing_disabled() && !verify_blob(entry.data.as_slice(), entry.name.as_str(), m, policy) {
        Err(InstallError::DigestMismatch)
    } else if safe && entry.target_exists {
        Err(InstallError::Conflict)
    } else {
        Ok(())
    }
}

/// Decides, before anything is written, which names an archive installs.
/// Checking stops at the first refused entry.
pub fn plan_install(
    entries: &Vec<ArchiveEntry>,
    expected: &Vec<String>,
    safe: bool,
    m: &Manifest,
    policy: &VerificationPolicy,
) -> (r: Result<Vec<String>, InstallError>)
    ensures
        match install_plan(entries_view(entries@), names_view(expected@), safe, m@, policy.spec_algorithms()) {
            Err(err) => r == Err::<Vec<String>, InstallError>(err),
            Ok(names) => r is Ok && names_view(r->Ok_0@) == names,
        },
{
    let ghost ev = entries_view(entries@);
    let ghost xv = names_view(expected@);
    let ghost mv = m@;
    let ghost algs = policy.spec_algorithms();
    let mut out: Vec<String> = Vec::new();
    let mut i: usize = 0;
    assert(ev.subrange(0, ev.len() as int) =~= ev);
    while i < entries.len()
        invariant
            i <= entries.len(),
            ev == entries_view(entries@),
            xv == names_view(expected@),
            mv == m@,
            algs == policy.spec_algorithms(),
            install_plan(ev, xv, safe, mv, algs) == match install_plan(ev.subrange(i as int, ev.len() as int), xv, safe, mv, algs) {
                Err(err) => Err(err),
                Ok(rest) => Ok(names_view(out@) + rest),
            },
        decreases entries.len() - i,
    {
        let ghost rest = ev.subrange(i as int, ev.len() as int);
        assert(rest.drop_first() =~= ev.subrange(i + 1, ev.len() as int));
        assert(rest[0] == entries@[i as int]@);
        match check_entry(&entries[i], expected, safe, m, policy) {
            Err(err) => {
                return Err(err);
            },
            Ok(()) => {
                let ghost before = names_view(out@);
                out.push(entries[i].name.clone());
                proof {
                    assert(names_view(out@) =~= before.push(entries@[i as int].name@));
                    match install_plan(ev.subrange(i + 1, ev.len() as int), xv, safe, mv, algs) {
                        Err(_) => {},
                        Ok(tail) => {
                            assert(before + (seq![rest[0].0] + tail) =~= names_view(out@) + tail);
                        },
                    }
                }
            },
        }
        i = i + 1;
    }
    proof {
        assert(ev.subrange(i as int, ev.len() as int).len() == 0);
        assert(names_view(out@) + Seq::<Seq<char>>::empty() =~= names_view(out@));
    }
    Ok(out)
}

/// Where the binary named `name` is written in `dest`.
pub fn install_path(dest: &str, name: &str) -> (r: String)
    ensures
        r@ == dest@ + "/"@ + name@,
{
    let d = dest.to_string();
    let with_sep = d.concat("/");
    with_sep.concat(name)
}

proof fn lemma_plan_err_at(
    entries: Seq<(Seq<char>, bool, Seq<u8>)>,
    expected: Seq<Seq<char>>,
    safe: bool,
    m: Seq<(Seq<char>, Seq<(VerifyType, Seq<u8>)>)>,
    algs: Seq<VerifyType>,
    k: int,
)
    requires
        0 <= k < entries.len(),
        entry_verdict(entries[k], expected, safe, m, algs) is Some,
    ensures
        install_plan(entries, expected, safe, m, algs) is Err,
    decreases entries.len(),
{
    if k > 0 && entry_verdict(entries[0], expected, safe, m, algs) is None {
        assert(entries.drop_first()[k - 1] == entries[k]);
        lemma_plan_err_at(entries.drop_first(), expected, safe, m, algs, k - 1);
    }
}

/// Where every entry is accepted, each one was checked: its name is safe and
/// expected, and its bytes match its own manifest entry (unless the policy
/// turns hashing off).
pub proof fn law_installed_members_verified(
    entries: Seq<(Seq<char>, bool, Seq<u8>)>,
    expected: Seq<Seq<char>>,
    safe: bool,
    m: Seq<(Seq<char>, Seq<(VerifyType, Seq<u8>)>)>,
    algs: Seq<VerifyType>,
)
    requires
        install_plan(entries, expected, safe, m, algs) is Ok,
    ensures
        install_plan(entries, expected, safe, m, algs)->Ok_0 == entries.map_values(|e: (Seq<char>, bool, Seq<u8>)| e.0),
        forall|k: int| 0 <= k < entries.len() ==> {
            &&& !has_separator((#[trigger] entries[k]).0)
            &&& expected.contains(entries[k].0)
            &&& member_verified(entries[k], m, algs)
        },
    decreases entries.len(),
{
    assert forall|k: int| 0 <= k < entries.len() implies entry_verdict(#[trigger] entries[k], expected, safe, m, algs) is None by {
        if entry_verdict(entries[k], expected, safe, m, algs) is Some {
            lemma_plan_err_at(entries, expected, safe, m, algs, k);
        }
    }
    if entries.len() > 0 {
        law_installed_members_verified(entries.drop_first(), expected, safe, m, algs);
        let tail = install_plan(entries.drop_first(), expected, safe, m, algs)->Ok_0;
        assert(seq![entries[0].0] + tail =~= entries.map_values(|e: (Seq<char>, bool, Seq<u8>)| e.0));
    } else {
        assert(Seq::<Seq<char>>::empty() =~= entries.map_values(|e: (Seq<char>, bool, Seq<u8>)| e.0));
    }
}

/// An archive with an entry whose name holds a path separator is refused
/// whole: nothing of it is written, whatever the install directory, the
/// expected names, the manifest or the overwrite policy.
pub proof fn law_separator_refuses_archive(
    entries: Seq<(Seq<char>, bool, Seq<u8>)>,
    expected: Seq<Seq<char>>,
    safe: bool,
    m: Seq<(Seq<char>, Seq<(VerifyType, Seq<u8>)>)>,
    algs: Seq<VerifyType>,
    k: int,
)
    requires
        0 <= k < entries.len(),
        has_separator(entries[k].0),
    ensures
        install_plan(entries, expected, safe, m, algs) is Err,
{
    lemma_plan_err_at(entries, expected, safe, m, algs, k);
}

/// Where the first entry that fails does so on its name, the archive's
/// error is `UnsafePath`.
pub proof fn law_leading_unsafe_entry(
    entries: Seq<(Seq<char>, bool, Seq<u8>)>,
    expected: Seq<Seq<char>>,
    safe: bool,
    m: Seq<(Seq<char>, Seq<(VerifyType, Seq<u8>)>)>,
    algs: Seq<VerifyType>,
)
    requires
        entries.len() > 0,
        has_separator(entries[0].0),
    ensures
        install_plan(entries, expected, safe, m, algs) == Err::<Seq<Seq<char>>, InstallError>(InstallError::UnsafePath),
{
}

/// Without safe mode, what is installed does not depend on what the install
/// directory already holds: running the install again on the same archive
/// writes the same names with the same bytes.
pub proof fn law_overwrite_repeatable(
    first: Seq<(Seq<char>, bool, Seq<u8>)>,
    again: Seq<(Seq<char>, bool, Seq<u8>)>,
    expected: Seq<Seq<char>>,
    m: Seq<(Seq<char>, Seq<(VerifyType, Seq<u8>)>)>,
    algs: Seq<VerifyType>,
)
    requires
        first.len() == again.len(),
        forall|i: int| 0 <= i < first.len() ==> #[trigger] first[i].0 == again[i].0 && first[i].2 == again[i].2,
    ensures
        install_plan(first, expected, false, m, algs) == install_plan(again, expected, false, m, algs),
    decreases first.len(),
{
    if first.len() > 0 {
        assert forall|i: int| 0 <= i < first.len() - 1 implies #[trigger] first.drop_first()[i].0 == again.drop_first()[i].0
            && first.drop_first()[i].2 == again.drop_first()[i].2 by {
            assert(first[i + 1].0 == again[i + 1].0);
        }
        law_overwrite_repeatable(first.drop_first(), again.drop_first(), expected, m, algs);
        assert(first[0].0 == again[0].0);
    }
}

/// In safe mode, installing again an archive that installed before, now that
/// its binaries stand in the install directory, is a `Conflict`, and nothing
/// is written.
pub proof fn law_safe_mode_conflict(
    entries: Seq<(Seq<char>, bool, Seq<u8>)>,
    expected: Seq<Seq<char>>,
    m: Seq<(Seq<char>, Seq<(VerifyType, Seq<u8>)>)>,
    algs: Seq<VerifyType>,
)
    requires
        entries.len() > 0,
        install_plan(entries.map_values(|e: (Seq<char>, bool, Seq<u8>)| (e.0, false, e.2)), expected, true, m, algs) is Ok,
        forall|i: int| 0 <= i < entries.len() ==> (#[trigger] entries[i]).1,
    ensures
        install_plan(entries, expected, true, m, algs) == Err::<Seq<Seq<char>>, InstallError>(InstallError::Conflict),
{
    let fresh = entries.map_values(|e: (Seq<char>, bool, Seq<u8>)| (e.0, false, e.2));
    assert(fresh[0] == (entries[0].0, false, entries[0].2));
    if entry_verdict(fresh[0], expected, true, m, algs) is Some {
        lemma_plan_err_at(fresh, expected, true, m, algs, 0);
    }
}

/// An archive holding exactly one member, with a safe name that the release
/// declares, whose bytes match the manifest entry for that name, installs
/// exactly that name when no file of that name stands in the way.
pub proof fn law_single_member_installs(
    name: Seq<char>,
    data: Seq<u8>,
    expected: Seq<Seq<char>>,
    safe: bool,
    m: Seq<(Seq<char>, Seq<(VerifyType, Seq<u8>)>)>,
    algs: Seq<VerifyType>,
)
    requires
        !has_separator(name),
        expected.contains(name),
        member_verified((name, false, data), m, algs),
    ensures
        install_plan(seq![(name, false, data)], expected, safe, m, algs) == Ok::<Seq<Seq<char>>, InstallError>(seq![name]),
{
    let es = seq![(name, false, data)];
    assert(es[0] == (name, false, data));
    assert(entry_verdict(es[0], expected, safe, m, algs) is None);
    assert(es.drop_first() =~= Seq::<(Seq<char>, bool, Seq<u8>)>::empty());
    assert(install_plan(es.drop_first(), expected, safe, m, algs) == Ok::<Seq<Seq<char>>, InstallError>(Seq::<Seq<char>>::empty()));
    assert(seq![es[0].0] + Seq::<Seq<char>>::empty() =~= seq![name]);
}

} // verus!
