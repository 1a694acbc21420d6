use vstd::prelude::*;
use std::collections::HashSet;
use indexmap::IndexSet;
use vstd::std_specs::hash::obeys_key_model;
use vstd::std_specs::hash::builds_valid_hashers;

verus! {

/// Compares two string slices by their characters.
pub fn str_eq(a: &str, b: &str) -> (r: bool)
    ensures
        r == (a@ == b@),
{
    a.to_string() == b.to_string()
}

/// An option value that names nothing this build knows.
#[derive(Debug, Clone)]
pub enum TypingError {
    UnknownValue { t: String, possible: String, val: String },
}

impl TypingError {
    pub open spec fn spec_message(&self) -> Seq<char> {
        match self {
            TypingError::UnknownValue { t, possible, val } =>
                t@ + " contains unknown value "@ + val@ + ". Try "@ + possible@
                    + ". Do you have the right features enabled?"@,
        }
    }

    /// The text shown to the user.
    pub fn message(&self) -> (r: String)
        ensures
            r@ == self.spec_message(),
    {
        match self {
            TypingError::UnknownValue { t, possible, val } => {
                let r = t.clone().concat(" contains unknown value ");
                let r = r.concat(val.as_str());
                let r = r.concat(". Try ");
                let r = r.concat(possible.as_str());
                r.concat(". Do you have the right features enabled?")
            },
        }
    }

    pub open spec fn unknown(t: Seq<char>, possible: Seq<char>, val: Seq<char>, e: TypingError) -> bool {
        match e {
            TypingError::UnknownValue { t: et, possible: ep, val: ev } =>
                et@ == t && ep@ == possible && ev@ == val,
        }
    }
}

/// Whether the index may be used: a local file index needs no transport;
/// every other kind must be reached over HTTPS.
pub fn index_url_allowed(spec: SpecType, url: &str) -> (r: bool)
    ensures
        r == (spec == SpecType::CustomFile || (url@.len() >= 8 && url@.subrange(0, 8) == "https://"@)),
{
    if spec == SpecType::CustomFile {
        return true;
    }
    let n = url.unicode_len();
    if n < 8 {
        return false;
    }
    str_eq(url.substring_char(0, 8), "https://")
}

/// The layout of the remote index.
#[derive(Debug, Clone, Copy, PartialEq, Eq, Structural)]
pub enum SpecType {
    CustomHttp,
    CustomFile,
    GitHubPublic,
}

impl SpecType {
    pub open spec fn spec_parse(s: Seq<char>) -> Option<SpecType> {
        if s == "cuhttp"@ {
            Some(SpecType::CustomHttp)
        } else if s == "cufile"@ {
            Some(SpecType::CustomFile)
        } else if s == "gh-pub"@ {
            Some(SpecType::GitHubPublic)
        } else {
            None
        }
    }

    pub fn default() -> (r: SpecType)
        ensures
            r == SpecType::GitHubPublic,
    {
        SpecType::GitHubPublic
    }

    pub fn from_str(s: &str) -> (r: Result<SpecType, TypingError>)
        ensures
            match SpecType::spec_parse(s@) {
                Some(v) => r == Ok::<SpecType, TypingError>(v),
                None => r is Err && TypingError::unknown("Spec"@, "cuhttp, cufile, gh-pub"@, s@, r->Err_0),
            },
    {
        if str_eq(s, "cuhttp") {
            Ok(SpecType::CustomHttp)
        } else if str_eq(s, "cufile") {
            Ok(SpecType::CustomFile)
        } else if str_eq(s, "gh-pub") {
            Ok(SpecType::GitHubPublic)
        } else {
            Err(TypingError::UnknownValue {
                t: "Spec".to_string(),
                possible: "cuhttp, cufile, gh-pub".to_string(),
                val: s.to_string(),
            })
        }
    }
}

/// How index documents are signed.
#[derive(Debug, Clone, Copy, PartialEq, Eq, Structural)]
pub enum SigType {
    Disabled,
    MiniSign,
}

impl SigType {
    pub open spec fn spec_parse(s: Seq<char>) -> Option<SigType> {
        if s == "none"@ {
            Some(SigType::Disabled)
        } else if s == "minisign"@ {
            Some(SigType::MiniSign)
        } else {
            None
        }
    }

    /// Signatures are checked unless a user turns them off.
    pub fn default() -> (r: SigType)
        ensures
            r == SigType::MiniSign,
    {
        SigType::MiniSign
    }

    pub fn from_str(s: &str) -> (r: Result<SigType, TypingError>)
        ensures
            match SigType::spec_parse(s@) {
                Some(v) => r == Ok::<SigType, TypingError>(v),
                None => r is Err && TypingError::unknown("Sig"@, "none, minisign"@, s@, r->Err_0),
            },
    {
        if str_eq(s, "none") {
            Ok(SigType::Disabled)
        } else if str_eq(s, "minisign") {
            Ok(SigType::MiniSign)
        } else {
            Err(TypingError::UnknownValue {
                t: "Sig".to_string(),
                possible: "none, minisign".to_string(),
                val: s.to_string(),
            })
        }
    }
}

/// A hash algorithm that a blob can be checked with.
#[derive(Debug, Clone, Copy, PartialEq, Eq, Structural, Hash, PartialOrd, Ord)]
pub enum VerifyType {
    Disabled,
    Sha3_512,
    Sha3_256,
    Sha512,
    Sha256,
}

#[verifier::external_type_specification]
#[verifier::external_body]
#[verifier::reject_recursive_types(T)]
#[verifier::reject_recursive_types(S)]
pub struct ExIndexSet<T, S>(IndexSet<T, S>);

/// The algorithms an ordered set holds, in insertion order.
pub uninterp spec fn algorithm_set_items(s: IndexSet<VerifyType>) -> Seq<VerifyType>;

/// Relies on IndexSet::new: the new set is empty.
#[verifier::external_body]
fn algorithm_set_new() -> (r: IndexSet<VerifyType>)
    ensures
        algorithm_set_items(r) == Seq::<VerifyType>::empty(),
{
    IndexSet::new()
}

/// Relies on IndexSet::insert: a value not yet held is appended at the end;
/// one already held leaves the set and its order as they were.
#[verifier::external_body]
fn algorithm_set_insert(s: &mut IndexSet<VerifyType>, v: VerifyType) -> (r: bool)
    ensures
        r == !algorithm_set_items(*old(s)).contains(v),
        algorithm_set_items(*final(s)) == if algorithm_set_items(*old(s)).contains(v) {
            algorithm_set_items(*old(s))
        } else {
            algorithm_set_items(*old(s)).push(v)
        },
{
    s.insert(v)
}

impl VerifyType {
    pub open spec fn spec_parse(s: Seq<char>) -> Option<VerifyType> {
        if s == "none"@ {
            Some(VerifyType::Disabled)
        } else if s == "sha3_512"@ {
            Some(VerifyType::Sha3_512)
        } else if s == "sha3_256"@ {
            Some(VerifyType::Sha3_256)
        } else if s == "sha512"@ {
            Some(VerifyType::Sha512)
        } else if s == "sha256"@ {
            Some(VerifyType::Sha256)
        } else {
            None
        }
    }

    /// The strongest-first order used when none is configured.
    pub open spec fn spec_defaults() -> Seq<VerifyType> {
        seq![VerifyType::Sha3_512, VerifyType::Sha3_256, VerifyType::Sha512, VerifyType::Sha256]
    }

    pub fn get_defaults() -> (r: IndexSet<VerifyType>)
        ensures
            algorithm_set_items(r) == VerifyType::spec_defaults(),
    {
        let mut c = algorithm_set_new();
        algorithm_set_insert(&mut c, VerifyType::Sha3_512);
        algorithm_set_insert(&mut c, VerifyType::Sha3_256);
        algorithm_set_insert(&mut c, VerifyType::Sha512);
        algorithm_set_insert(&mut c, VerifyType::Sha256);
        assert(algorithm_set_items(c) =~= VerifyType::spec_defaults());
        c
    }

    pub fn from_str(s: &str) -> (r: Result<VerifyType, TypingError>)
        ensures
            match VerifyType::spec_parse(s@) {
                Some(v) => r == Ok::<VerifyType, TypingError>(v),
                None => r is Err && TypingError::unknown(
                    "Verify"@,
                    "none, sha256, sha512, sha3_256, sha3_512"@,
                    s@,
                    r->Err_0,
                ),
            },
    {
        if str_eq(s, "none") {
            Ok(VerifyType::Disabled)
        } else if str_eq(s, "sha3_512") {
            Ok(VerifyType::Sha3_512)
        } else if str_eq(s, "sha3_256") {
            Ok(VerifyType::Sha3_256)
        } else if str_eq(s, "sha512") {
            Ok(VerifyType::Sha512)
        } else if str_eq(s, "sha256") {
            Ok(VerifyType::Sha256)
        } else {
            Err(TypingError::UnknownValue {
                t: "Verify".to_string(),
                possible: "none, sha256, sha512, sha3_256, sha3_512".to_string(),
                val: s.to_string(),
            })
        }
    }
}

/// A compliance report and what to do with it.
#[derive(Debug, Clone, Copy, PartialEq, Eq, Structural, Hash)]
pub enum ReportType {
    AuditDL,
    AuditOut,
    DepsDL,
    DepsOut,
    LicenseDL,
    LicenseOut,
}

impl ReportType {
    pub open spec fn spec_parse(s: Seq<char>) -> Option<ReportType> {
        if s == "audit_dl"@ {
            Some(ReportType::AuditDL)
        } else if s == "audit_out"@ {
            Some(ReportType::AuditOut)
        } else if s == "deps_dl"@ {
            Some(ReportType::DepsDL)
        } else if s == "deps_out"@ {
            Some(ReportType::DepsOut)
        } else if s == "license_dl"@ {
            Some(ReportType::LicenseDL)
        } else if s == "license_out"@ {
            Some(ReportType::LicenseOut)
        } else {
            None
        }
    }

    /// Only the license report is fetched unless others are asked for.
    /// (A `HashSet`'s view is exact where its key type follows the hashing model.)
    pub fn get_defaults() -> (r: HashSet<ReportType>)
        ensures
            obeys_key_model::<ReportType>() && builds_valid_hashers::<std::hash::RandomState>()
                ==> r@ == set![ReportType::LicenseDL],
    {
        let mut r = HashSet::new();
        r.insert(ReportType::LicenseDL);
        proof {
            if obeys_key_model::<ReportType>() && builds_valid_hashers::<std::hash::RandomState>() {
                assert(r@ =~= set![ReportType::LicenseDL]);
            }
        }
        r
    }

    pub fn from_str(s: &str) -> (r: Result<ReportType, TypingError>)
        ensures
            match ReportType::spec_parse(s@) {
                Some(v) => r == Ok::<ReportType, TypingError>(v),
                None => r is Err && TypingError::unknown(
                    "Report"@,
                    "audit_dl, audit_out, deps_dl, deps_out, license_dl, license_out"@,
                    s@,
                    r->Err_0,
                ),
            },
    {
        if str_eq(s, "audit_dl") {
            Ok(ReportType::AuditDL)
        } else if str_eq(s, "audit_out") {
            Ok(ReportType::AuditOut)
        } else if str_eq(s, "deps_dl") {
            Ok(ReportType::DepsDL)
        } else if str_eq(s, "deps_out") {
            Ok(ReportType::DepsOut)
        } else if str_eq(s, "license_dl") {
            Ok(ReportType::LicenseDL)
        } else if str_eq(s, "license_out") {
            Ok(ReportType::LicenseOut)
        } else {
            Err(TypingError::UnknownValue {
                t: "Report".to_string(),
                possible: "audit_dl, audit_out, deps_dl, deps_out, license_dl, license_out".to_string(),
                val: s.to_string(),
            })
        }
    }
}

} // verus!
