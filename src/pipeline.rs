use vstd::prelude::*;
use crate::install::{ArchiveEntry, InstallError, entries_view, install_plan, install_path, names_view, plan_install};
use crate::manifest::Manifest;
use crate::policy::VerificationPolicy;
use crate::request::PackageRequest;
use crate::trust::{TrustStore, signature_accepted};
use crate::types::str_eq;
use crate::verify::{blob_verified, verify_blob};

verus! {

/// Why one package was not installed. Each aborts that package only.
#[derive(Debug, Clone, Copy, PartialEq, Eq, Structural)]
pub enum PackageError {
    Network,
    Resolution,
    NotFound,
    Verification,
    UnsafePath,
    UnexpectedEntry,
    Conflict,
    Io,
}

/// Why the whole run stops before any package is processed.
#[derive(Debug, Clone, Copy, PartialEq, Eq, Structural)]
pub enum FatalError {
    /// Signatures are mandatory and no key is trusted for the index.
    NoKeys,
    /// The install or report directory is missing and may not be created.
    DirectoryMissing,
    /// The index would be reached over plaintext.
    PlainTransport,
}

pub open spec fn spec_from_install(e: InstallError) -> PackageError {
    match e {
        InstallError::UnsafePath => PackageError::UnsafePath,
        InstallError::UnexpectedEntry => PackageError::UnexpectedEntry,
        InstallError::DigestMismatch => PackageError::Verification,
        InstallError::Conflict => PackageError::Conflict,
    }
}

pub fn from_install(e: InstallError) -> (r: PackageError)
    ensures
        r == spec_from_install(e),
{
    match e {
        InstallError::UnsafePath => PackageError::UnsafePath,
        InstallError::UnexpectedEntry => PackageError::UnexpectedEntry,
        InstallError::DigestMismatch => PackageError::Verification,
        InstallError::Conflict => PackageError::Conflict,
    }
}

pub open spec fn spec_error_code(e: PackageError) -> i32 {
    match e {
        PackageError::Network => 10,
        PackageError::Resolution => 11,
        PackageError::NotFound => 12,
        PackageError::Verification => 13,
        PackageError::UnsafePath => 14,
        PackageError::UnexpectedEntry => 15,
        PackageError::Conflict => 16,
        PackageError::Io => 17,
    }
}

/// The process status for a package error; each class has its own.
pub fn error_code(e: PackageError) -> (r: i32)
    ensures
        r == spec_error_code(e),
        r != 0,
{
    match e {
        PackageError::Network => 10,
        PackageError::Resolution => 11,
        PackageError::NotFound => 12,
        PackageError::Verification => 13,
        PackageError::UnsafePath => 14,
        PackageError::UnexpectedEntry => 15,
        PackageError::Conflict => 16,
        PackageError::Io => 17,
    }
}

/// The process status for an error that stops the whole run.
pub fn fatal_code(e: FatalError) -> (r: i32)
    ensures
        r == match e {
            FatalError::NoKeys => 20i32,
            FatalError::DirectoryMissing => 21i32,
            FatalError::PlainTransport => 22i32,
        },
{
    match e {
        FatalError::NoKeys => 20,
        FatalError::DirectoryMissing => 21,
        FatalError::PlainTransport => 22,
    }
}

/// 0 when every package was installed; else the status of the first failure.
pub fn exit_code(results: &Vec<Result<(), PackageError>>) -> (r: i32)
    ensures
        (r == 0) <==> (forall|i: int| 0 <= i < results@.len() ==> results@[i] is Ok),
        forall|k: int| 0 <= k < results@.len() && results@[k] is Err
            && (forall|j: int| 0 <= j < k ==> results@[j] is Ok)
            ==> r == spec_error_code(results@[k]->Err_0),
{
    let mut i: usize = 0;
    while i < results.len()
        invariant
            i <= results.len(),
            forall|j: int| 0 <= j < i ==> results@[j] is Ok,
        decreases results.len() - i,
    {
        match results[i] {
            Err(e) => {
                let c = error_code(e);
                proof {
                    assert forall|k: int| 0 <= k < results@.len() && results@[k] is Err
                        && (forall|j: int| 0 <= j < k ==> results@[j] is Ok) implies k == i by {
                        if k > i {
                            assert(results@[i as int] is Ok);
                        }
                    }
                }
                return c;
            },
            Ok(()) => {},
        }
        i = i + 1;
    }
    0
}

/// Where one package's run stands.
#[derive(Debug, Clone, Copy, PartialEq, Eq, Structural)]
pub enum Phase {
    AwaitLatest,
    AwaitVersion,
    AwaitInfo,
    AwaitHashes,
    AwaitBlob,
    AwaitArchive,
    AwaitWrite,
    Done,
    Failed(PackageError),
}

/// What the outside world reports back to a run.
#[derive(Debug)]
pub enum Event {
    /// The index's latest version of the package, or `None` if it has none.
    Latest(Option<String>),
    /// Whether the index publishes the requested version.
    Published(bool),
    /// The info document, its signature, and the binary names it declares.
    Info { doc: Vec<u8>, sig: String, bins: Vec<String> },
    /// The hashes document, its signature, and the manifest it holds.
    Hashes { doc: Vec<u8>, sig: String, manifest: Manifest },
    /// The release archive, as downloaded.
    Blob(Vec<u8>),
    /// The archive's members, decoded, before anything is written.
    Archive(Vec<ArchiveEntry>),
    /// The planned files were written and made executable.
    Written,
    /// The outside work failed.
    Fault(PackageError),
}

/// What the run asks the outside world to do next.
#[derive(Debug)]
pub enum Action {
    QueryLatest,
    /// Ask the index whether the requested version is published.
    CheckVersion,
    FetchInfo,
    FetchHashes,
    FetchBlob,
    OpenArchive,
    /// Write these members of the archive into the install directory.
    Write(Vec<String>),
    /// The event did not fit the phase; nothing changed.
    Ignored,
    Finish(Result<(), PackageError>),
}

/// What stays fixed over a run: trust, policy and where things go.
pub struct RunContext {
    pub trust: TrustStore,
    pub policy: VerificationPolicy,
    /// The index identity whose keys sign its documents.
    pub identity: String,
    /// The archive's name in the manifest.
    pub blob_path: String,
    /// Do not overwrite installed binaries.
    pub safe: bool,
}

/// One package's way through resolve, fetch, verify and install.
pub struct PackageRun {
    pub id: String,
    pub version: Option<String>,
    pub bins: Vec<String>,
    pub manifest: Option<Manifest>,
    pub phase: Phase,
}

pub open spec fn is_terminal(p: Phase) -> bool {
    p is Done || p is Failed
}

/// A version that names one release: present, and not the word `latest`.
pub open spec fn is_concrete(v: Option<String>) -> bool {
    v is Some && v->Some_0@ != "latest"@
}

/// Whether `v` names one release.
pub fn concrete(v: &Option<String>) -> (r: bool)
    ensures
        r == is_concrete(*v),
{
    match v {
        None => false,
        Some(s) => !str_eq(s.as_str(), "latest"),
    }
}

impl PackageRun {
    /// From the index's answer on, a run holds a concrete version.
    pub open spec fn wf(&self) -> bool {
        !(self.phase is AwaitLatest || self.phase is Failed) ==> is_concrete(self.version)
    }

    /// A run first resolves its version: the latest one, when none or
    /// `latest` was requested; else it asks whether the requested one is
    /// published.
    pub fn start(req: PackageRequest) -> (r: (PackageRun, Action))
        ensures
            r.0.wf(),
            r.0.id@ == req.id@,
            r.0.manifest is None,
            r.0.bins@.len() == 0,
            !is_concrete(req.version) ==> r.0.phase == Phase::AwaitLatest && r.1 is QueryLatest && r.0.version is None,
            is_concrete(req.version) ==> r.0.phase == Phase::AwaitVersion && r.1 is CheckVersion
                && r.0.version is Some && r.0.version->Some_0@ == req.version->Some_0@,
    {
        let PackageRequest { id, version } = req;
        if concrete(&version) {
            (PackageRun { id, version, bins: Vec::new(), manifest: None, phase: Phase::AwaitVersion }, Action::CheckVersion)
        } else {
            (PackageRun { id, version: None, bins: Vec::new(), manifest: None, phase: Phase::AwaitLatest }, Action::QueryLatest)
        }
    }

    fn fail(&mut self, e: PackageError) -> (a: Action)
        ensures
            final(self).phase == Phase::Failed(e),
            final(self).id == old(self).id,
            final(self).version == old(self).version,
            a == Action::Finish(Err(e)),
    {
        self.phase = Phase::Failed(e);
        Action::Finish(Err(e))
    }

    /// Takes the outcome of the last action and decides the next one.
    pub fn step(&mut self, ctx: &RunContext, ev: Event) -> (a: Action)
        ensures
            final(self).id == old(self).id,
            old(self).wf() ==> final(self).wf(),
            old(self).phase != Phase::AwaitInfo && final(self).phase == Phase::AwaitInfo ==> is_concrete(final(self).version),
            is_terminal(old(self).phase) ==> final(self).phase == old(self).phase && a == Action::Finish(
                match old(self).phase {
                    Phase::Failed(e) => Err(e),
                    _ => Ok(()),
                },
            ),
            !is_terminal(old(self).phase) && ev is Fault ==> final(self).phase == Phase::Failed(ev->Fault_0)
                && a == Action::Finish(Err(ev->Fault_0)),
            old(self).phase == Phase::AwaitLatest && ev is Latest ==> if is_concrete(ev->Latest_0) {
                final(self).phase == Phase::AwaitInfo && a is FetchInfo
                    && final(self).version is Some && final(self).version->Some_0@ == ev->Latest_0->Some_0@
            } else {
                final(self).phase == Phase::Failed(PackageError::Resolution)
                    && a == Action::Finish(Err(PackageError::Resolution))
            },
            old(self).phase == Phase::AwaitVersion && ev is Published ==> if ev->Published_0 && is_concrete(old(self).version) {
                final(self).phase == Phase::AwaitInfo && a is FetchInfo && final(self).version == old(self).version
            } else {
                final(self).phase == Phase::Failed(PackageError::Resolution)
                    && a == Action::Finish(Err(PackageError::Resolution))
            },
            old(self).phase == Phase::AwaitInfo && ev is Info ==> if signature_accepted(
                ctx.trust.spec_keys(ctx.identity@), ev->Info_doc@, ev->Info_sig@, ctx.policy.spec_signature()) {
                final(self).phase == Phase::AwaitHashes && a is FetchHashes && final(self).bins@ == ev->Info_bins@
            } else {
                final(self).phase == Phase::Failed(PackageError::Verification)
                    && a == Action::Finish(Err(PackageError::Verification))
            },
            old(self).phase == Phase::AwaitHashes && ev is Hashes ==> if signature_accepted(
                ctx.trust.spec_keys(ctx.identity@), ev->Hashes_doc@, ev->Hashes_sig@, ctx.policy.spec_signature()) {
                final(self).phase == Phase::AwaitBlob && a is FetchBlob && final(self).manifest is Some
                    && final(self).manifest->Some_0@ == ev->Hashes_manifest@
            } else {
                final(self).phase == Phase::Failed(PackageError::Verification)
                    && a == Action::Finish(Err(PackageError::Verification))
            },
            old(self).phase == Phase::AwaitBlob && ev is Blob ==> if ctx.policy.spec_hashing_disabled()
                || (old(self).manifest is Some && blob_verified(
                ev->Blob_0@, ctx.blob_path@, old(self).manifest->Some_0@, ctx.policy.spec_algorithms())) {
                final(self).phase == Phase::AwaitArchive && a is OpenArchive
            } else {
                final(self).phase == Phase::Failed(PackageError::Verification)
                    && a == Action::Finish(Err(PackageError::Verification))
            },
            old(self).phase == Phase::AwaitArchive && ev is Archive ==> match old(self).manifest {
                None => final(self).phase == Phase::Failed(PackageError::Verification)
                    && a == Action::Finish(Err(PackageError::Verification)),
                Some(m) => match install_plan(
                    entries_view(ev->Archive_0@), names_view(old(self).bins@), ctx.safe, m@, ctx.policy.spec_algorithms()) {
                    Ok(names) => final(self).phase == Phase::AwaitWrite && a is Write && names_view(a->Write_0@) == names,
                    Err(e) => final(self).phase == Phase::Failed(spec_from_install(e))
                        && a == Action::Finish(Err(spec_from_install(e))),
                },
            },
            old(self).phase == Phase::AwaitWrite && ev is Written ==> final(self).phase == Phase::Done
                && a == Action::Finish(Ok(())),
            !is_terminal(old(self).phase) && !(ev is Fault)
                && !(old(self).phase == Phase::AwaitLatest && ev is Latest)
                && !(old(self).phase == Phase::AwaitVersion && ev is Published)
                && !(old(self).phase == Phase::AwaitInfo && ev is Info)
                && !(old(self).phase == Phase::AwaitHashes && ev is Hashes)
                && !(old(self).phase == Phase::AwaitBlob && ev is Blob)
                && !(old(self).phase == Phase::AwaitArchive && ev is Archive)
                && !(old(self).phase == Phase::AwaitWrite && ev is Written)
                ==> final(self).phase == old(self).phase && a is Ignored,
    {
        match self.phase {
            Phase::Done => {
                return Action::Finish(Ok(()));
            },
            Phase::Failed(e) => {
                return Action::Finish(Err(e));
            },
            _ => {},
        }
        match ev {
            Event::Fault(e) => self.fail(e),
            Event::Latest(v) => {
                if self.phase != Phase::AwaitLatest {
                    return Action::Ignored;
                }
                if concrete(&v) {
                    self.version = v;
                    self.phase = Phase::AwaitInfo;
                    Action::FetchInfo
                } else {
                    self.fail(PackageError::Resolution)
                }
            },
            Event::Published(published) => {
                if self.phase != Phase::AwaitVersion {
                    return Action::Ignored;
                }
                if published && concrete(&self.version) {
                    self.phase = Phase::AwaitInfo;
                    Action::FetchInfo
                } else {
                    self.fail(PackageError::Resolution)
                }
            },
            Event::Info { doc, sig, bins } => {
                if self.phase != Phase::AwaitInfo {
                    return Action::Ignored;
                }
                if ctx.trust.verify_signature(doc.as_slice(), sig.as_str(), ctx.identity.as_str(), ctx.policy.signature()) {
                    self.bins = bins;
                    self.phase = Phase::AwaitHashes;
                    Action::FetchHashes
                } else {
                    self.fail(PackageError::Verification)
                }
            },
            Event::Hashes { doc, sig, manifest } => {
                if self.phase != Phase::AwaitHashes {
                    return Action::Ignored;
                }
                if ctx.trust.verify_signature(doc.as_slice(), sig.as_str(), ctx.identity.as_str(), ctx.policy.signature()) {
                    self.manifest = Some(manifest);
                    self.phase = Phase::AwaitBlob;
                    Action::FetchBlob
                } else {
                    self.fail(PackageError::Verification)
                }
            },
            Event::Blob(blob) => {
                if self.phase != Phase::AwaitBlob {
                    return Action::Ignored;
                }
                let ok = if ctx.policy.hashing_disabled() {
                    true
                } else {
                    match &self.manifest {
                        None => false,
                        Some(m) => verify_blob(blob.as_slice(), ctx.blob_path.as_str(), m, &ctx.policy),
                    }
                };
                if ok {
                    self.phase = Phase::AwaitArchive;
                    Action::OpenArchive
                } else {
                    self.fail(PackageError::Verification)
                }
            },
            Event::Archive(entries) => {
                if self.phase != Phase::AwaitArchive {
                    return Action::Ignored;
                }
                match &self.manifest {
                    None => self.fail(PackageError::Verification),
                    Some(m) => match plan_install(&entries, &self.bins, ctx.safe, m, &ctx.policy) {
                        Ok(names) => {
                            self.phase = Phase::AwaitWrite;
                            Action::Write(names)
                        },
                        Err(e) => self.fail(from_install(e)),
                    },
                }
            },
            Event::Written => {
                if self.phase != Phase::AwaitWrite {
                    return Action::Ignored;
                }
                self.phase = Phase::Done;
                Action::Finish(Ok(()))
            },
        }
    }
}

/// The mode an installed binary gets: rwx for the owner, rx for the rest.
pub const EXECUTABLE_MODE: u32 = 0o755;

/// A binary that was written, for the event stream.
#[derive(Debug)]
pub struct InstalledArtifact {
    pub path: String,
    pub mode: u32,
    pub id: String,
    pub version: String,
}

/// The artifacts that writing `names` into `dest` gives.
pub fn artifacts_for(dest: &str, names: &Vec<String>, id: &str, version: &str) -> (r: Vec<InstalledArtifact>)
    ensures
        r@.len() == names@.len(),
        forall|i: int| 0 <= i < r@.len() ==> {
            &&& (#[trigger] r@[i]).path@ == dest@ + "/"@ + names@[i]@
            &&& r@[i].mode == EXECUTABLE_MODE
            &&& r@[i].id@ == id@
            &&& r@[i].version@ == version@
        },
{
    let mut out: Vec<InstalledArtifact> = Vec::new();
    let mut i: usize = 0;
    while i < names.len()
        invariant
            i <= names.len(),
            out@.len() == i,
            forall|j: int| 0 <= j < i ==> {
                &&& (#[trigger] out@[j]).path@ == dest@ + "/"@ + names@[j]@
                &&& out@[j].mode == EXECUTABLE_MODE
                &&& out@[j].id@ == id@
                &&& out@[j].version@ == version@
            },
        decreases names.len() - i,
    {
        out.push(InstalledArtifact {
            path: install_path(dest, names[i].as_str()),
            mode: EXECUTABLE_MODE,
            id: id.to_string(),
            version: version.to_string(),
        });
        i = i + 1;
    }
    out
}

} // verus!
