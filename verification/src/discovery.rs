//! Requests for an interpreter, the preferences that narrow the search, and the
//! choice among the interpreters that were found and asked about themselves.

use crate::implementation::{lenient_from, ImplementationName, ImplementationView};
use crate::interpreter::{interpreter_key, interpreter_version, Interpreter, PythonSource};
use crate::key::KeyView;
use crate::platform::{Arch, Libc, Os};
use crate::scan::{first_where, is_first_where, lemma_first_where_is};
use crate::version::{version_before, PythonVariant};
use vstd::prelude::*;

verus! {

/// Whether virtual environments take part in a search.
#[derive(Clone, Copy, Debug, PartialEq, Eq, Hash, Structural)]
pub enum EnvironmentPreference {
    /// Only interpreters outside virtual environments.
    OnlySystem,
    /// Only interpreters of virtual environments.
    OnlyVirtual,
    /// Both.
    Any,
}

/// Whether managed or system interpreters are wanted.
#[derive(Clone, Copy, Debug, PartialEq, Eq, Hash, Structural)]
pub enum PythonPreference {
    OnlyManaged,
    /// Managed interpreters first, then those of the system.
    Managed,
    /// Interpreters of the system first, then managed ones.
    System,
    OnlySystem,
}

/// Whether a missing interpreter may be downloaded.
#[derive(Clone, Copy, Debug, PartialEq, Eq, Hash, Structural)]
pub enum PythonDownloads {
    Automatic,
    Manual,
    Never,
}

/// A version that is wanted: the minor and the patch may be left open. A patch
/// without a minor is not looked at.
#[derive(Clone, Copy, Debug, PartialEq, Eq, Hash, Structural)]
pub struct VersionRequest {
    pub major: u8,
    pub minor: Option<u8>,
    pub patch: Option<u8>,
}

/// The platform of the machine that the tool runs on.
#[derive(Clone, Copy, Debug, PartialEq, Eq, Hash, Structural)]
pub struct Platform {
    pub os: Os,
    pub arch: Arch,
    pub libc: Libc,
}

/// What is wanted of a download; every part may be left open.
#[derive(Clone, Copy, Debug, PartialEq, Eq, Hash, Structural)]
pub struct PythonDownloadRequest {
    pub implementation: Option<ImplementationName>,
    pub version: Option<VersionRequest>,
    pub os: Option<Os>,
    pub arch: Option<Arch>,
    pub libc: Option<Libc>,
    pub variant: Option<PythonVariant>,
}

/// What is wanted of an interpreter.
#[derive(Clone, Debug, PartialEq, Eq)]
pub enum PythonRequest {
    /// Any interpreter.
    Default,
    Version(VersionRequest),
    Key(PythonDownloadRequest),
    /// The interpreter whose executable is at this path.
    Path(String),
    ImplementationVersion(ImplementationName, VersionRequest),
}

/// One interpreter that a search came upon, or what went wrong when it looked
/// at one place.
#[derive(Debug)]
pub enum Candidate {
    Found(PythonSource, Interpreter),
    /// A failure. A critical one ends the search; another one is remembered and
    /// the search goes on.
    Failed { critical: bool, message: String },
}

pub open spec fn is_virtual(source: PythonSource) -> bool {
    source == PythonSource::ActiveEnvironment || source == PythonSource::DiscoveredEnvironment
}

/// Whether a search with these preferences takes interpreters from `source`. A
/// path that the caller gave is always taken.
pub open spec fn source_allowed(
    environments: EnvironmentPreference,
    preference: PythonPreference,
    source: PythonSource,
) -> bool {
    source == PythonSource::ProvidedPath || ({
        &&& match environments {
            EnvironmentPreference::OnlySystem => !is_virtual(source),
            EnvironmentPreference::OnlyVirtual => is_virtual(source),
            EnvironmentPreference::Any => true,
        }
        &&& match preference {
            PythonPreference::OnlyManaged => source == PythonSource::Managed || is_virtual(source),
            PythonPreference::OnlySystem => source != PythonSource::Managed,
            _ => true,
        }
    })
}

/// Whether `major.minor.patch` is what `wanted` asks for.
pub open spec fn version_matches(wanted: VersionRequest, major: u8, minor: u8, patch: u8) -> bool {
    &&& wanted.major == major
    &&& match wanted.minor {
        Some(m) => m == minor && match wanted.patch {
            Some(p) => p == patch,
            None => true,
        },
        None => true,
    }
}

/// Whether a key is what a download request asks for.
pub open spec fn download_request_matches(wanted: PythonDownloadRequest, k: KeyView) -> bool {
    &&& match wanted.implementation {
        Some(name) => k.implementation == ImplementationView::Known(name),
        None => true,
    }
    &&& match wanted.version {
        Some(v) => version_matches(v, k.major, k.minor, k.patch),
        None => true,
    }
    &&& match wanted.os {
        Some(os) => k.os == os,
        None => true,
    }
    &&& match wanted.arch {
        Some(arch) => k.arch == arch,
        None => true,
    }
    &&& match wanted.libc {
        Some(libc) => k.libc == libc,
        None => true,
    }
    &&& match wanted.variant {
        Some(variant) => k.variant == variant,
        None => true,
    }
}

/// Whether an interpreter is what a request asks for.
pub open spec fn request_satisfied(request: PythonRequest, interpreter: Interpreter) -> bool {
    match request {
        PythonRequest::Default => true,
        PythonRequest::Version(v) => version_matches(
            v,
            interpreter.major,
            interpreter.minor,
            interpreter.patch,
        ),
        PythonRequest::Key(wanted) => download_request_matches(wanted, interpreter_key(interpreter)),
        PythonRequest::Path(path) => interpreter.sys_executable@ == path@,
        PythonRequest::ImplementationVersion(name, v) => lenient_from(
            interpreter.implementation_name@,
        ) == ImplementationView::Known(name) && version_matches(
            v,
            interpreter.major,
            interpreter.minor,
            interpreter.patch,
        ),
    }
}

/// Whether a candidate is an interpreter that the search may return.
pub open spec fn eligible(
    request: PythonRequest,
    environments: EnvironmentPreference,
    preference: PythonPreference,
    c: Candidate,
) -> bool {
    match c {
        Candidate::Found(source, interpreter) => source_allowed(environments, preference, source)
            && request_satisfied(request, interpreter),
        Candidate::Failed { .. } => false,
    }
}

/// Whether the search ends at a candidate: with an interpreter, or with a
/// critical failure.
pub open spec fn decisive(
    request: PythonRequest,
    environments: EnvironmentPreference,
    preference: PythonPreference,
) -> spec_fn(Candidate) -> bool {
    |c: Candidate|
        eligible(request, environments, preference, c) || (c matches Candidate::Failed {
            critical,
            ..
        } && critical)
}

/// Whether a candidate is a failure that does not end the search.
pub open spec fn soft_failure() -> spec_fn(Candidate) -> bool {
    |c: Candidate| c matches Candidate::Failed { critical, .. } && !critical
}

/// The request with the patch left open.
pub open spec fn without_patch(request: PythonRequest) -> PythonRequest {
    match request {
        PythonRequest::Version(v) => PythonRequest::Version(
            VersionRequest { major: v.major, minor: v.minor, patch: None },
        ),
        PythonRequest::ImplementationVersion(name, v) => PythonRequest::ImplementationVersion(
            name,
            VersionRequest { major: v.major, minor: v.minor, patch: None },
        ),
        _ => request,
    }
}

/// The request with the minor and the patch left open.
pub open spec fn without_minor(request: PythonRequest) -> PythonRequest {
    match request {
        PythonRequest::Version(v) => PythonRequest::Version(
            VersionRequest { major: v.major, minor: None, patch: None },
        ),
        PythonRequest::ImplementationVersion(name, v) => PythonRequest::ImplementationVersion(
            name,
            VersionRequest { major: v.major, minor: None, patch: None },
        ),
        _ => request,
    }
}

/// `i` is the eligible candidate with the highest version; of several with that
/// version, the first.
pub open spec fn is_best(
    request: PythonRequest,
    environments: EnvironmentPreference,
    preference: PythonPreference,
    cands: Seq<Candidate>,
    i: int,
) -> bool {
    &&& 0 <= i < cands.len()
    &&& eligible(request, environments, preference, cands[i])
    &&& forall|j: int|
        0 <= j < cands.len() && eligible(request, environments, preference, #[trigger] cands[j])
            ==> !version_before(
            interpreter_version(cands[i]->Found_1),
            interpreter_version(cands[j]->Found_1),
        ) && (j < i ==> version_before(
            interpreter_version(cands[j]->Found_1),
            interpreter_version(cands[i]->Found_1),
        ))
}

impl VersionRequest {
    /// Whether `major.minor.patch` is what is asked for.
    pub fn matches(&self, major: u8, minor: u8, patch: u8) -> (r: bool)
        ensures
            r == version_matches(*self, major, minor, patch),
    {
        self.major == major && match self.minor {
            Some(m) => m == minor && match self.patch {
                Some(p) => p == patch,
                None => true,
            },
            None => true,
        }
    }
}

impl PythonDownloadRequest {
    /// The request that leaves everything open.
    pub fn any() -> (r: Self)
        ensures
            r == (PythonDownloadRequest {
                implementation: None,
                version: None,
                os: None,
                arch: None,
                libc: None,
                variant: None,
            }),
    {
        PythonDownloadRequest {
            implementation: None,
            version: None,
            os: None,
            arch: None,
            libc: None,
            variant: None,
        }
    }

    /// The download that would serve a request, if the request can be served by
    /// a download at all: a request for a path cannot.
    pub fn from_request(request: &PythonRequest) -> (r: Option<Self>)
        ensures
            r == match *request {
                PythonRequest::Default => Some(
                    PythonDownloadRequest {
                        implementation: None,
                        version: None,
                        os: None,
                        arch: None,
                        libc: None,
                        variant: None,
                    },
                ),
                PythonRequest::Version(v) => Some(
                    PythonDownloadRequest {
                        implementation: None,
                        version: Some(v),
                        os: None,
                        arch: None,
                        libc: None,
                        variant: None,
                    },
                ),
                PythonRequest::Key(wanted) => Some(wanted),
                PythonRequest::Path(_) => None,
                PythonRequest::ImplementationVersion(name, v) => Some(
                    PythonDownloadRequest {
                        implementation: Some(name),
                        version: Some(v),
                        os: None,
                        arch: None,
                        libc: None,
                        variant: None,
                    },
                ),
            },
    {
        match request {
            PythonRequest::Default => Some(PythonDownloadRequest::any()),
            PythonRequest::Version(v) => {
                let mut r = PythonDownloadRequest::any();
                r.version = Some(*v);
                Some(r)
            },
            PythonRequest::Key(wanted) => Some(*wanted),
            PythonRequest::Path(_) => None,
            PythonRequest::ImplementationVersion(name, v) => {
                let mut r = PythonDownloadRequest::any();
                r.implementation = Some(*name);
                r.version = Some(*v);
                Some(r)
            },
        }
    }

    /// Fills what the request leaves open with the defaults of the host: the
    /// implementation becomes CPython, the platform that of the host. The
    /// version and the variant stay as they are.
    pub fn fill(self, host: &Platform) -> (r: Self)
        ensures
            r == (PythonDownloadRequest {
                implementation: Some(
                    match self.implementation {
                        Some(name) => name,
                        None => ImplementationName::CPython,
                    },
                ),
                version: self.version,
                os: Some(
                    match self.os {
                        Some(os) => os,
                        None => host.os,
                    },
                ),
                arch: Some(
                    match self.arch {
                        Some(arch) => arch,
                        None => host.arch,
                    },
                ),
                libc: Some(
                    match self.libc {
                        Some(libc) => libc,
                        None => host.libc,
                    },
                ),
                variant: self.variant,
            }),
    {
        PythonDownloadRequest {
            implementation: Some(
                match self.implementation {
                    Some(name) => name,
                    None => ImplementationName::CPython,
                },
            ),
            version: self.version,
            os: Some(
                match self.os {
                    Some(os) => os,
                    None => host.os,
                },
            ),
            arch: Some(
                match self.arch {
                    Some(arch) => arch,
                    None => host.arch,
                },
            ),
            libc: Some(
                match self.libc {
                    Some(libc) => libc,
                    None => host.libc,
                },
            ),
            variant: self.variant,
        }
    }

    /// Whether a key is what is asked for.
    pub fn satisfied_by(&self, key: &crate::key::PythonInstallationKey) -> (r: bool)
        ensures
            r == download_request_matches(*self, key@),
    {
        let implementation_ok = match self.implementation {
            Some(name) => match key.implementation() {
                crate::implementation::LenientImplementationName::Known(found) => *found == name,
                crate::implementation::LenientImplementationName::Unknown(_) => false,
            },
            None => true,
        };
        let version_ok = match self.version {
            Some(v) => v.matches(key.major(), key.minor(), key.patch()),
            None => true,
        };
        let os_ok = match self.os {
            Some(os) => *key.os() == os,
            None => true,
        };
        let arch_ok = match self.arch {
            Some(arch) => *key.arch() == arch,
            None => true,
        };
        let libc_ok = match self.libc {
            Some(libc) => *key.libc() == libc,
            None => true,
        };
        let variant_ok = match self.variant {
            Some(variant) => *key.variant() == variant,
            None => true,
        };
        implementation_ok && version_ok && os_ok && arch_ok && libc_ok && variant_ok
    }
}

impl PythonRequest {
    /// Whether an interpreter is what is asked for.
    pub fn satisfied_by(&self, interpreter: &Interpreter) -> (r: bool)
        ensures
            r == request_satisfied(*self, *interpreter),
    {
        match self {
            PythonRequest::Default => true,
            PythonRequest::Version(v) => v.matches(
                interpreter.major,
                interpreter.minor,
                interpreter.patch,
            ),
            PythonRequest::Key(wanted) => {
                let key = interpreter.key();
                wanted.satisfied_by(&key)
            },
            PythonRequest::Path(path) => interpreter.sys_executable == *path,
            PythonRequest::ImplementationVersion(name, v) => {
                let found = crate::implementation::LenientImplementationName::from_name(
                    interpreter.implementation_name.as_str(),
                );
                let same = match found {
                    crate::implementation::LenientImplementationName::Known(n) => n == *name,
                    crate::implementation::LenientImplementationName::Unknown(_) => false,
                };
                same && v.matches(interpreter.major, interpreter.minor, interpreter.patch)
            },
        }
    }

    /// The request with the patch left open.
    pub fn without_patch(&self) -> (r: Self)
        ensures
            r == without_patch(*self),
    {
        match self {
            PythonRequest::Default => PythonRequest::Default,
            PythonRequest::Version(v) => PythonRequest::Version(
                VersionRequest { major: v.major, minor: v.minor, patch: None },
            ),
            PythonRequest::Key(wanted) => PythonRequest::Key(*wanted),
            PythonRequest::Path(path) => PythonRequest::Path(path.clone()),
            PythonRequest::ImplementationVersion(name, v) => PythonRequest::ImplementationVersion(
                *name,
                VersionRequest { major: v.major, minor: v.minor, patch: None },
            ),
        }
    }

    /// The request with the minor and the patch left open.
    pub fn without_minor(&self) -> (r: Self)
        ensures
            r == without_minor(*self),
    {
        match self {
            PythonRequest::Default => PythonRequest::Default,
            PythonRequest::Version(v) => PythonRequest::Version(
                VersionRequest { major: v.major, minor: None, patch: None },
            ),
            PythonRequest::Key(wanted) => PythonRequest::Key(*wanted),
            PythonRequest::Path(path) => PythonRequest::Path(path.clone()),
            PythonRequest::ImplementationVersion(name, v) => PythonRequest::ImplementationVersion(
                *name,
                VersionRequest { major: v.major, minor: None, patch: None },
            ),
        }
    }
}

impl EnvironmentPreference {
    /// Whether interpreters from `source` take part.
    pub fn allows(self, source: PythonSource) -> (r: bool)
        ensures
            r == match self {
                EnvironmentPreference::OnlySystem => !is_virtual(source),
                EnvironmentPreference::OnlyVirtual => is_virtual(source),
                EnvironmentPreference::Any => true,
            },
    {
        let virtual_source = source == PythonSource::ActiveEnvironment || source
            == PythonSource::DiscoveredEnvironment;
        match self {
            EnvironmentPreference::OnlySystem => !virtual_source,
            EnvironmentPreference::OnlyVirtual => virtual_source,
            EnvironmentPreference::Any => true,
        }
    }
}

impl PythonPreference {
    /// Whether managed interpreters may be used at all.
    pub fn allows_managed(self) -> (r: bool)
        ensures
            r == (self != PythonPreference::OnlySystem),
    {
        match self {
            PythonPreference::OnlySystem => false,
            _ => true,
        }
    }

    /// Whether interpreters from `source` take part.
    pub fn allows(self, source: PythonSource) -> (r: bool)
        ensures
            r == match self {
                PythonPreference::OnlyManaged => source == PythonSource::Managed || is_virtual(
                    source,
                ),
                PythonPreference::OnlySystem => source != PythonSource::Managed,
                _ => true,
            },
    {
        let virtual_source = source == PythonSource::ActiveEnvironment || source
            == PythonSource::DiscoveredEnvironment;
        match self {
            PythonPreference::OnlyManaged => source == PythonSource::Managed || virtual_source,
            PythonPreference::OnlySystem => source != PythonSource::Managed,
            _ => true,
        }
    }
}

impl PythonDownloads {
    pub fn is_automatic(self) -> (r: bool)
        ensures
            r == (self == PythonDownloads::Automatic),
    {
        match self {
            PythonDownloads::Automatic => true,
            _ => false,
        }
    }
}

/// Whether a candidate is an interpreter that the search may return.
pub fn is_eligible(
    request: &PythonRequest,
    environments: EnvironmentPreference,
    preference: PythonPreference,
    c: &Candidate,
) -> (r: bool)
    ensures
        r == eligible(*request, environments, preference, *c),
{
    match c {
        Candidate::Found(source, interpreter) => {
            let allowed = *source == PythonSource::ProvidedPath || (environments.allows(*source)
                && preference.allows(*source));
            allowed && request.satisfied_by(interpreter)
        },
        Candidate::Failed { .. } => false,
    }
}

/// The places at which a search looks, in order: the active environment, the
/// environments of the working directory and its parents, then the registry of
/// managed interpreters, the search path and the registries of the platform.
/// Where interpreters of the system are preferred, the managed ones come last.
/// Places that the preferences exclude are left out.
pub open spec fn search_order(
    environments: EnvironmentPreference,
    preference: PythonPreference,
) -> Seq<PythonSource> {
    let virtual_sources = if environments == EnvironmentPreference::OnlySystem {
        Seq::<PythonSource>::empty()
    } else {
        seq![PythonSource::ActiveEnvironment, PythonSource::DiscoveredEnvironment]
    };
    let other_sources = if environments == EnvironmentPreference::OnlyVirtual {
        Seq::<PythonSource>::empty()
    } else {
        match preference {
            PythonPreference::OnlyManaged => seq![PythonSource::Managed],
            PythonPreference::Managed => seq![
                PythonSource::Managed,
                PythonSource::SearchPath,
                PythonSource::Registry,
            ],
            PythonPreference::System => seq![
                PythonSource::SearchPath,
                PythonSource::Registry,
                PythonSource::Managed,
            ],
            PythonPreference::OnlySystem => seq![PythonSource::SearchPath, PythonSource::Registry],
        }
    };
    virtual_sources + other_sources
}

/// A search looks at exactly the places that its preferences allow, but for
/// the path that a caller gives, which is no place to look at.
pub proof fn lemma_search_order_is_what_is_allowed(
    environments: EnvironmentPreference,
    preference: PythonPreference,
    source: PythonSource,
)
    ensures
        search_order(environments, preference).contains(source) <==> source
            != PythonSource::ProvidedPath && source_allowed(environments, preference, source),
{
    let order = search_order(environments, preference);
    if order.contains(source) {
        let i = choose|i: int| 0 <= i < order.len() && order[i] == source;
        assert(order[i] == source);
    }
    if source != PythonSource::ProvidedPath && source_allowed(environments, preference, source) {
        if is_virtual(source) {
            assert(order[0] == PythonSource::ActiveEnvironment);
            assert(order[1] == PythonSource::DiscoveredEnvironment);
        } else {
            let skip = if environments == EnvironmentPreference::OnlySystem {
                0int
            } else {
                2int
            };
            assert(order.len() >= skip + 1);
            if order.len() >= skip + 3 {
                assert(order[skip] == source || order[skip + 1] == source || order[skip + 2]
                    == source);
            } else if order.len() >= skip + 2 {
                assert(order[skip] == source || order[skip + 1] == source);
            } else {
                assert(order[skip] == source);
            }
        }
    }
}

/// The places at which a search looks, in order.
pub fn candidate_sources(environments: EnvironmentPreference, preference: PythonPreference) -> (r:
    Vec<PythonSource>)
    ensures
        r@ == search_order(environments, preference),
{
    let mut sources: Vec<PythonSource> = Vec::new();
    match environments {
        EnvironmentPreference::OnlySystem => {},
        _ => {
            sources.push(PythonSource::ActiveEnvironment);
            sources.push(PythonSource::DiscoveredEnvironment);
        },
    }
    match environments {
        EnvironmentPreference::OnlyVirtual => {},
        _ => {
            match preference {
                PythonPreference::OnlyManaged => {
                    sources.push(PythonSource::Managed);
                },
                PythonPreference::Managed => {
                    sources.push(PythonSource::Managed);
                    sources.push(PythonSource::SearchPath);
                    sources.push(PythonSource::Registry);
                },
                PythonPreference::System => {
                    sources.push(PythonSource::SearchPath);
                    sources.push(PythonSource::Registry);
                    sources.push(PythonSource::Managed);
                },
                PythonPreference::OnlySystem => {
                    sources.push(PythonSource::SearchPath);
                    sources.push(PythonSource::Registry);
                },
            }
        },
    }
    proof {
        assert(sources@ =~= search_order(environments, preference));
    }
    sources
}

/// Where a search through the candidates ends.
pub struct Scan {
    /// The first candidate that ends the search, or the number of candidates.
    pub decisive: usize,
    /// The first failure before `decisive` that does not end the search, or the
    /// number of candidates if there is none.
    pub soft: usize,
}

/// Walks the candidates in order up to the first that ends the search.
pub fn scan_candidates(
    request: &PythonRequest,
    environments: EnvironmentPreference,
    preference: PythonPreference,
    candidates: &Vec<Candidate>,
) -> (r: Scan)
    ensures
        r.decisive == first_where(candidates@, decisive(*request, environments, preference)),
        r.soft == (if first_where(candidates@, soft_failure()) < r.decisive {
            first_where(candidates@, soft_failure())
        } else {
            candidates.len() as int
        }),
{
    let ghost p = decisive(*request, environments, preference);
    let ghost q = soft_failure();
    let n = candidates.len();
    let mut soft: usize = n;
    let mut i: usize = 0;
    while i < n
        invariant
            n == candidates.len(),
            i <= n,
            p == decisive(*request, environments, preference),
            q == soft_failure(),
            forall|k: int| 0 <= k < i ==> !p(#[trigger] candidates@[k]),
            soft == n || soft < i,
            soft < n ==> is_first_where(candidates@, q, soft as int),
            soft == n ==> forall|k: int| 0 <= k < i ==> !q(#[trigger] candidates@[k]),
        decreases n - i,
    {
        let c = &candidates[i];
        let ends = match c {
            Candidate::Failed { critical, .. } => *critical,
            Candidate::Found(_, _) => is_eligible(request, environments, preference, c),
        };
        if ends {
            proof {
                assert(p(candidates@[i as int]));
                lemma_first_where_is(candidates@, p, i as int);
                crate::scan::lemma_first_where(candidates@, q);
                let j = first_where(candidates@, q);
                if soft < n {
                    lemma_first_where_is(candidates@, q, soft as int);
                } else if j < i {
                    assert(q(candidates@[j]));
                }
            }
            return Scan { decisive: i, soft };
        }
        if soft == n {
            match c {
                Candidate::Failed { critical, .. } => {
                    proof {
                        assert(q(candidates@[i as int]));
                    }
                    soft = i;
                },
                Candidate::Found(_, _) => {
                    proof {
                        assert(!q(candidates@[i as int]));
                    }
                },
            }
        }
        i += 1;
    }
    proof {
        lemma_first_where_is(candidates@, p, n as int);
        lemma_first_where_is(candidates@, q, soft as int);
    }
    Scan { decisive: n, soft }
}

/// Finds the eligible candidate with the highest version; of several with that
/// version, the first.
pub fn best_candidate(
    request: &PythonRequest,
    environments: EnvironmentPreference,
    preference: PythonPreference,
    candidates: &Vec<Candidate>,
) -> (r: Option<usize>)
    ensures
        match r {
            Some(i) => is_best(*request, environments, preference, candidates@, i as int),
            None => forall|j: int|
                0 <= j < candidates.len() ==> !eligible(
                    *request,
                    environments,
                    preference,
                    #[trigger] candidates@[j],
                ),
        },
{
    let n = candidates.len();
    let mut best: Option<usize> = None;
    let mut i: usize = 0;
    while i < n
        invariant
            n == candidates.len(),
            i <= n,
            match best {
                Some(b) => b < i && eligible(
                    *request,
                    environments,
                    preference,
                    candidates@[b as int],
                ) && forall|j: int|
                    0 <= j < i && eligible(
                        *request,
                        environments,
                        preference,
                        #[trigger] candidates@[j],
                    ) ==> !version_before(
                        interpreter_version(candidates@[b as int]->Found_1),
                        interpreter_version(candidates@[j]->Found_1),
                    ) && (j < b ==> version_before(
                        interpreter_version(candidates@[j]->Found_1),
                        interpreter_version(candidates@[b as int]->Found_1),
                    )),
                None => forall|j: int|
                    0 <= j < i ==> !eligible(
                        *request,
                        environments,
                        preference,
                        #[trigger] candidates@[j],
                    ),
            },
        decreases n - i,
    {
        let c = &candidates[i];
        if is_eligible(request, environments, preference, c) {
            match c {
                Candidate::Found(_, interpreter) => {
                    let version = interpreter.python_version();
                    match best {
                        None => {
                            best = Some(i);
                        },
                        Some(b) => {
                            let held = match &candidates[b] {
                                Candidate::Found(_, other) => other.python_version(),
                                Candidate::Failed { .. } => version,
                            };
                            if held.precedes(&version) {
                                best = Some(i);
                            }
                        },
                    }
                },
                Candidate::Failed { .. } => {},
            }
        }
        i += 1;
    }
    best
}

} // verus!
