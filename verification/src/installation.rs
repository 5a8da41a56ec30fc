//! An interpreter together with the place it was found at, the search for one,
//! and the decisions around fetching one that is missing.

use crate::discovery::{
    best_candidate, decisive, eligible, is_best, scan_candidates, soft_failure, without_minor,
    without_patch, Candidate, EnvironmentPreference, Platform, PythonDownloadRequest,
    PythonDownloads, PythonPreference, PythonRequest,
};
use crate::implementation::{
    lenient_from, ImplementationName, ImplementationView, LenientImplementationName,
};
use crate::interpreter::{interpreter_key, interpreter_version, Interpreter, PythonSource};
use crate::key::PythonInstallationKey;
use crate::platform::{Arch, Libc, Os};
use crate::scan::{first_where, lemma_first_where};
use crate::version::PythonVersion;
use vstd::prelude::*;

verus! {

/// What can go wrong on the way to an interpreter.
#[derive(Debug)]
pub enum Error {
    /// No interpreter is what the request asks for.
    MissingPython,
    /// Looking at one place failed. A critical failure ended the search.
    Discovery { critical: bool, message: String },
    /// The catalog has no download for the request.
    NoDownloadFound,
    /// The network failed.
    Transport(String),
    /// The file system failed.
    Io(String),
}

/// A Python interpreter and where it was found.
#[derive(Debug)]
pub struct PythonInstallation {
    pub source: PythonSource,
    pub interpreter: Interpreter,
}

/// What is to be done after a search.
#[derive(Debug)]
pub enum FindOutcome {
    /// The search found an interpreter.
    Found(PythonInstallation),
    /// The search failed and nothing is to be fetched.
    Failed(Error),
    /// The search failed with the error given; the download is to be fetched,
    /// and [`PythonInstallation::after_fetch`] says what the result is.
    Fetch(PythonDownloadRequest, Error),
}

/// The error that a failed candidate stands for.
pub open spec fn failure_of(c: Candidate) -> Error {
    match c {
        Candidate::Failed { critical, message } => Error::Discovery { critical, message },
        Candidate::Found(_, _) => Error::MissingPython,
    }
}

/// The installation that a found candidate stands for.
pub open spec fn installation_of(c: Candidate) -> PythonInstallation {
    PythonInstallation { source: c->Found_0, interpreter: c->Found_1 }
}

/// The result of a search: the first candidate that may be returned, unless a
/// critical failure comes before it. If the search ends nowhere, its error is
/// the first other failure, and if there was none, that the interpreter is
/// missing.
pub open spec fn find_result(
    request: PythonRequest,
    environments: EnvironmentPreference,
    preference: PythonPreference,
    cands: Seq<Candidate>,
) -> Result<PythonInstallation, Error> {
    let i = first_where(cands, decisive(request, environments, preference));
    if i < cands.len() {
        match cands[i] {
            Candidate::Found(source, interpreter) => Ok(PythonInstallation { source, interpreter }),
            Candidate::Failed { critical, message } => Err(Error::Discovery { critical, message }),
        }
    } else {
        let j = first_where(cands, soft_failure());
        if j < cands.len() {
            Err(failure_of(cands[j]))
        } else {
            Err(Error::MissingPython)
        }
    }
}

/// Whether some candidate may be returned for a request.
pub open spec fn has_eligible(
    request: PythonRequest,
    environments: EnvironmentPreference,
    preference: PythonPreference,
    cands: Seq<Candidate>,
) -> bool {
    exists|j: int| 0 <= j < cands.len() && eligible(request, environments, preference, cands[j])
}

/// Whether `r` is the result of the search that falls back to the best
/// available interpreter. An exact match or a critical failure stands as it is.
/// After a miss the patch is left open, then the minor too; of the interpreters
/// that the weaker request takes, the one with the highest version is returned.
/// If even that finds nothing, the error of the exact search stays.
pub open spec fn is_find_best_result(
    request: PythonRequest,
    environments: EnvironmentPreference,
    preference: PythonPreference,
    cands: Seq<Candidate>,
    r: Result<PythonInstallation, Error>,
) -> bool {
    let exact = find_result(request, environments, preference, cands);
    let no_patch = without_patch(request);
    let no_minor = without_minor(request);
    if exact is Ok || first_where(cands, decisive(request, environments, preference))
        < cands.len() {
        r == exact
    } else if has_eligible(no_patch, environments, preference, cands) {
        exists|i: int|
            is_best(no_patch, environments, preference, cands, i) && r == Ok::<
                PythonInstallation,
                Error,
            >(installation_of(cands[i]))
    } else if has_eligible(no_minor, environments, preference, cands) {
        exists|i: int|
            is_best(no_minor, environments, preference, cands, i) && r == Ok::<
                PythonInstallation,
                Error,
            >(installation_of(cands[i]))
    } else {
        r == exact
    }
}

/// Whether a missing interpreter may be fetched: managed interpreters must be
/// allowed, downloads automatic, and the network reachable.
pub open spec fn downloads_enabled(
    preference: PythonPreference,
    python_downloads: PythonDownloads,
    online: bool,
) -> bool {
    preference != PythonPreference::OnlySystem && python_downloads == PythonDownloads::Automatic
        && online
}

/// Whether a failed search may be followed by a download.
pub open spec fn recoverable(e: Error) -> bool {
    match e {
        Error::MissingPython => true,
        Error::Discovery { critical, .. } => !critical,
        _ => false,
    }
}

/// What a request turns into when it is to be served by a download from
/// `host`.
pub open spec fn download_for(request: PythonRequest, host: Platform) -> Option<
    PythonDownloadRequest,
> {
    let open_request = PythonDownloadRequest {
        implementation: None,
        version: None,
        os: None,
        arch: None,
        libc: None,
        variant: None,
    };
    let wanted = match request {
        PythonRequest::Default => Some(open_request),
        PythonRequest::Version(v) => Some(
            PythonDownloadRequest { version: Some(v), ..open_request },
        ),
        PythonRequest::Key(wanted) => Some(wanted),
        PythonRequest::Path(_) => None,
        PythonRequest::ImplementationVersion(name, v) => Some(
            PythonDownloadRequest { implementation: Some(name), version: Some(v), ..open_request },
        ),
    };
    match wanted {
        Some(w) => Some(
            PythonDownloadRequest {
                implementation: Some(
                    match w.implementation {
                        Some(name) => name,
                        None => ImplementationName::CPython,
                    },
                ),
                version: w.version,
                os: Some(
                    match w.os {
                        Some(os) => os,
                        None => host.os,
                    },
                ),
                arch: Some(
                    match w.arch {
                        Some(arch) => arch,
                        None => host.arch,
                    },
                ),
                libc: Some(
                    match w.libc {
                        Some(libc) => libc,
                        None => host.libc,
                    },
                ),
                variant: w.variant,
            },
        ),
        None => None,
    }
}

/// What is to be done after a search that ended with `found`.
pub open spec fn outcome_after(
    request: PythonRequest,
    found: Result<PythonInstallation, Error>,
    preference: PythonPreference,
    python_downloads: PythonDownloads,
    online: bool,
    host: Platform,
) -> FindOutcome {
    match found {
        Ok(installation) => FindOutcome::Found(installation),
        Err(e) => {
            if !downloads_enabled(preference, python_downloads, online) || !recoverable(e) {
                FindOutcome::Failed(e)
            } else {
                match download_for(request, host) {
                    Some(wanted) => FindOutcome::Fetch(wanted, e),
                    None => FindOutcome::Failed(e),
                }
            }
        },
    }
}

/// The steps of fetching an interpreter, in the order in which they are taken.
#[derive(Clone, Copy, Debug, PartialEq, Eq, Hash, Structural)]
pub enum FetchStep {
    /// Take the lock of the registry.
    Lock,
    /// Find the download in the catalog.
    Plan,
    /// Download and unpack into the scratch directory, then move into place.
    Download,
    /// Mark the installation as externally managed.
    MarkExternallyManaged,
    /// Patch the paths in the interpreter's sysconfig.
    PatchSysconfig,
    /// Create the canonical executables.
    LinkExecutables,
    /// Fix up the dynamic library; a failure is a warning only.
    PatchDylib,
    /// Ask the installed interpreter about itself.
    Query,
}

/// What follows a step of fetching.
#[derive(Debug)]
pub enum FetchNext {
    /// Take this step next; `warn` tells whether the step before failed in a way
    /// that is only to be reported.
    Step { step: FetchStep, warn: bool },
    /// The interpreter is installed.
    Installed,
    /// Fetching failed.
    Abort(Error),
}

/// The place of a step in the order of steps.
pub open spec fn step_rank(step: FetchStep) -> int {
    match step {
        FetchStep::Lock => 0,
        FetchStep::Plan => 1,
        FetchStep::Download => 2,
        FetchStep::MarkExternallyManaged => 3,
        FetchStep::PatchSysconfig => 4,
        FetchStep::LinkExecutables => 5,
        FetchStep::PatchDylib => 6,
        FetchStep::Query => 7,
    }
}

/// The step that follows `step`, if there is one.
pub open spec fn step_after(step: FetchStep) -> Option<FetchStep> {
    match step {
        FetchStep::Lock => Some(FetchStep::Plan),
        FetchStep::Plan => Some(FetchStep::Download),
        FetchStep::Download => Some(FetchStep::MarkExternallyManaged),
        FetchStep::MarkExternallyManaged => Some(FetchStep::PatchSysconfig),
        FetchStep::PatchSysconfig => Some(FetchStep::LinkExecutables),
        FetchStep::LinkExecutables => Some(FetchStep::PatchDylib),
        FetchStep::PatchDylib => Some(FetchStep::Query),
        FetchStep::Query => None,
    }
}

/// What follows `step` when it ended with `outcome`. Each step is followed by
/// the next in order. A failure ends fetching, but that of the dynamic library
/// fix-up, which is only reported.
pub open spec fn fetch_next(step: FetchStep, outcome: Result<(), Error>) -> FetchNext {
    match outcome {
        Err(e) if step != FetchStep::PatchDylib => FetchNext::Abort(e),
        _ => match step_after(step) {
            Some(next) => FetchNext::Step { step: next, warn: outcome is Err },
            None => FetchNext::Installed,
        },
    }
}

/// Every step is followed by the step of the next rank, so the hooks that mark
/// and patch an installation run after the download and before the interpreter
/// is asked about itself, and with that before it is returned as installed.
pub proof fn lemma_fetch_order(step: FetchStep)
    ensures
        match fetch_next(step, Ok(())) {
            FetchNext::Step { step: next, warn } => step_rank(next) == step_rank(step) + 1 && !warn,
            FetchNext::Installed => step == FetchStep::Query,
            FetchNext::Abort(_) => false,
        },
        step_rank(FetchStep::Download) < step_rank(FetchStep::MarkExternallyManaged) < step_rank(
            FetchStep::PatchSysconfig,
        ) < step_rank(FetchStep::LinkExecutables) < step_rank(FetchStep::PatchDylib) < step_rank(
            FetchStep::Query,
        ),
{
}

/// `base` doubled `times` times, or the greatest number if that is less.
pub open spec fn doubled(base: nat, times: nat) -> nat
    decreases times,
{
    if times == 0 {
        base
    } else {
        let before = doubled(base, (times - 1) as nat);
        if 2 * before > u64::MAX {
            u64::MAX as nat
        } else {
            2 * before
        }
    }
}

/// How long to wait before a download is tried again after it failed for the
/// `attempt`-th time, the first failure being attempt 0: only a failure of the
/// network is tried again, at most `limit` times, and every wait is twice as
/// long as the one before, starting from `base`.
pub open spec fn retry_wait(e: Error, attempt: u32, limit: u32, base: u64) -> Option<u64> {
    if e is Transport && attempt < limit {
        Some(doubled(base as nat, attempt as nat) as u64)
    } else {
        None
    }
}

proof fn lemma_doubled_bound(base: nat, times: nat)
    requires
        base <= u64::MAX,
    ensures
        doubled(base, times) <= u64::MAX,
    decreases times,
{
    if times > 0 {
        lemma_doubled_bound(base, (times - 1) as nat);
    }
}

/// Says whether a failed download is to be tried again, and after what wait.
pub fn retry_after(e: &Error, attempt: u32, limit: u32, base: u64) -> (r: Option<u64>)
    ensures
        r == retry_wait(*e, attempt, limit, base),
{
    match e {
        Error::Transport(_) => {},
        _ => {
            return None;
        },
    }
    if attempt >= limit {
        return None;
    }
    let mut wait = base;
    let mut i: u32 = 0;
    while i < attempt
        invariant
            i <= attempt,
            wait as nat == doubled(base as nat, i as nat),
        decreases attempt - i,
    {
        proof {
            lemma_doubled_bound(base as nat, i as nat);
        }
        wait = if wait > u64::MAX / 2 {
            u64::MAX
        } else {
            2 * wait
        };
        i += 1;
    }
    Some(wait)
}

impl Error {
    /// Whether a search that failed with this error may be followed by a
    /// download.
    pub fn is_recoverable(&self) -> (r: bool)
        ensures
            r == recoverable(*self),
    {
        match self {
            Error::MissingPython => true,
            Error::Discovery { critical, .. } => !*critical,
            _ => false,
        }
    }
}

impl PythonInstallation {
    /// Create a new [`PythonInstallation`] from a source, interpreter tuple.
    pub fn from_tuple(tuple: (PythonSource, Interpreter)) -> (r: Self)
        ensures
            r.source == tuple.0,
            r.interpreter == tuple.1,
    {
        let (source, interpreter) = tuple;
        PythonInstallation { source, interpreter }
    }

    /// Find an installed [`PythonInstallation`] among the candidates of a
    /// search, which are given in the order in which the search came upon them.
    pub fn find(
        request: &PythonRequest,
        environments: EnvironmentPreference,
        preference: PythonPreference,
        candidates: Vec<Candidate>,
    ) -> (r: Result<Self, Error>)
        ensures
            r == find_result(*request, environments, preference, candidates@),
    {
        let mut candidates = candidates;
        let ghost cands = candidates@;
        let scan = scan_candidates(request, environments, preference, &candidates);
        let n = candidates.len();
        proof {
            lemma_first_where(cands, decisive(*request, environments, preference));
            lemma_first_where(cands, soft_failure());
        }
        if scan.decisive < n {
            match candidates.swap_remove(scan.decisive) {
                Candidate::Found(source, interpreter) => Ok(
                    PythonInstallation { source, interpreter },
                ),
                Candidate::Failed { critical, message } => Err(
                    Error::Discovery { critical, message },
                ),
            }
        } else if scan.soft < n {
            match candidates.swap_remove(scan.soft) {
                Candidate::Failed { critical, message } => Err(
                    Error::Discovery { critical, message },
                ),
                Candidate::Found(_, _) => Err(Error::MissingPython),
            }
        } else {
            Err(Error::MissingPython)
        }
    }

    /// Find an installed [`PythonInstallation`] that satisfies a requested
    /// version; if the request cannot be satisfied, fall back to the best
    /// available Python installation.
    pub fn find_best(
        request: &PythonRequest,
        environments: EnvironmentPreference,
        preference: PythonPreference,
        candidates: Vec<Candidate>,
    ) -> (r: Result<Self, Error>)
        ensures
            is_find_best_result(*request, environments, preference, candidates@, r),
    {
        let mut candidates = candidates;
        let ghost cands = candidates@;
        let n = candidates.len();
        let scan = scan_candidates(request, environments, preference, &candidates);
        proof {
            lemma_first_where(cands, decisive(*request, environments, preference));
            lemma_first_where(cands, soft_failure());
        }
        if scan.decisive < n {
            return match candidates.swap_remove(scan.decisive) {
                Candidate::Found(source, interpreter) => Ok(
                    PythonInstallation { source, interpreter },
                ),
                Candidate::Failed { critical, message } => Err(
                    Error::Discovery { critical, message },
                ),
            };
        }
        let no_patch = request.without_patch();
        match best_candidate(&no_patch, environments, preference, &candidates) {
            Some(i) => {
                proof {
                    assert(eligible(no_patch, environments, preference, cands[i as int]));
                }
                return match candidates.swap_remove(i) {
                    Candidate::Found(source, interpreter) => Ok(
                        PythonInstallation { source, interpreter },
                    ),
                    Candidate::Failed { .. } => Err(Error::MissingPython),
                };
            },
            None => {},
        }
        let no_minor = request.without_minor();
        match best_candidate(&no_minor, environments, preference, &candidates) {
            Some(i) => {
                proof {
                    assert(eligible(no_minor, environments, preference, cands[i as int]));
                }
                return match candidates.swap_remove(i) {
                    Candidate::Found(source, interpreter) => Ok(
                        PythonInstallation { source, interpreter },
                    ),
                    Candidate::Failed { .. } => Err(Error::MissingPython),
                };
            },
            None => {},
        }
        if scan.soft < n {
            match candidates.swap_remove(scan.soft) {
                Candidate::Failed { critical, message } => Err(
                    Error::Discovery { critical, message },
                ),
                Candidate::Found(_, _) => Err(Error::MissingPython),
            }
        } else {
            Err(Error::MissingPython)
        }
    }

    /// Find a [`PythonInstallation`], or say what is to be fetched. Unlike
    /// [`PythonInstallation::find`], a missing interpreter leads to a download
    /// where downloads are enabled and the request can be served by one.
    pub fn find_or_download(
        request: Option<&PythonRequest>,
        environments: EnvironmentPreference,
        preference: PythonPreference,
        python_downloads: PythonDownloads,
        online: bool,
        host: &Platform,
        candidates: Vec<Candidate>,
    ) -> (r: FindOutcome)
        ensures
            r == outcome_after(
                match request {
                    Some(wanted) => *wanted,
                    None => PythonRequest::Default,
                },
                find_result(
                    match request {
                        Some(wanted) => *wanted,
                        None => PythonRequest::Default,
                    },
                    environments,
                    preference,
                    candidates@,
                ),
                preference,
                python_downloads,
                online,
                *host,
            ),
    {
        let default_request = PythonRequest::Default;
        let request = match request {
            Some(wanted) => wanted,
            None => &default_request,
        };
        // Search for the installation
        let found = Self::find(request, environments, preference, candidates);
        Self::after_find(request, found, preference, python_downloads, online, host)
    }

    /// What is to be done after a search for `request` that ended with `found`.
    pub fn after_find(
        request: &PythonRequest,
        found: Result<Self, Error>,
        preference: PythonPreference,
        python_downloads: PythonDownloads,
        online: bool,
        host: &Platform,
    ) -> (r: FindOutcome)
        ensures
            r == outcome_after(*request, found, preference, python_downloads, online, *host),
    {
        let err = match found {
            Ok(installation) => {
                return FindOutcome::Found(installation);
            },
            Err(err) => err,
        };
        let downloads_enabled = preference.allows_managed() && python_downloads.is_automatic()
            && online;
        if !downloads_enabled {
            return FindOutcome::Failed(err);
        }
        // If Python is missing, or the search failed in a way that is not
        // critical, a download is attempted; anything else is fatal.
        if !err.is_recoverable() {
            return FindOutcome::Failed(err);
        }
        // If the request cannot be served by a download, the error stays.
        match PythonDownloadRequest::from_request(request) {
            Some(wanted) => FindOutcome::Fetch(wanted.fill(host), err),
            None => FindOutcome::Failed(err),
        }
    }

    /// The result of a search that was followed by a download: the interpreter
    /// that was fetched; the error of the search, if the catalog had no such
    /// download; else the error of fetching.
    pub fn after_fetch(search_error: Error, fetched: Result<Self, Error>) -> (r: Result<
        Self,
        Error,
    >)
        ensures
            r == match fetched {
                Ok(installation) => Ok::<PythonInstallation, Error>(installation),
                Err(Error::NoDownloadFound) => Err(search_error),
                Err(e) => Err(e),
            },
    {
        match fetched {
            Ok(installation) => Ok(installation),
            // The error of the search stays if we couldn't find a download
            Err(Error::NoDownloadFound) => Err(search_error),
            // But if the download failed, throw that error
            Err(err) => Err(err),
        }
    }

    /// What follows a step of fetching that ended with `outcome`.
    pub fn fetch(step: FetchStep, outcome: Result<(), Error>) -> (r: FetchNext)
        ensures
            r == fetch_next(step, outcome),
    {
        let failed = outcome.is_err();
        match outcome {
            Err(e) => {
                match step {
                    FetchStep::PatchDylib => {},
                    _ => {
                        return FetchNext::Abort(e);
                    },
                }
            },
            Ok(_) => {},
        }
        match step {
            FetchStep::Lock => FetchNext::Step { step: FetchStep::Plan, warn: failed },
            FetchStep::Plan => FetchNext::Step { step: FetchStep::Download, warn: failed },
            FetchStep::Download => FetchNext::Step {
                step: FetchStep::MarkExternallyManaged,
                warn: failed,
            },
            FetchStep::MarkExternallyManaged => FetchNext::Step {
                step: FetchStep::PatchSysconfig,
                warn: failed,
            },
            FetchStep::PatchSysconfig => FetchNext::Step {
                step: FetchStep::LinkExecutables,
                warn: failed,
            },
            FetchStep::LinkExecutables => FetchNext::Step {
                step: FetchStep::PatchDylib,
                warn: failed,
            },
            FetchStep::PatchDylib => FetchNext::Step { step: FetchStep::Query, warn: failed },
            FetchStep::Query => FetchNext::Installed,
        }
    }

    /// The installation that a fetch ends with: the interpreter that was asked
    /// about itself, as a managed one.
    pub fn fetched(interpreter: Interpreter) -> (r: Self)
        ensures
            r.source == PythonSource::Managed,
            r.interpreter == interpreter,
    {
        PythonInstallation { source: PythonSource::Managed, interpreter }
    }

    /// Create a [`PythonInstallation`] from an existing [`Interpreter`].
    pub fn from_interpreter(interpreter: Interpreter) -> (r: Self)
        ensures
            r.source == PythonSource::ProvidedPath,
            r.interpreter == interpreter,
    {
        PythonInstallation { source: PythonSource::ProvidedPath, interpreter }
    }

    /// Return the [`PythonSource`] of the Python installation, indicating where
    /// it was found.
    pub fn source(&self) -> (r: &PythonSource)
        ensures
            *r == self.source,
    {
        &self.source
    }

    pub fn key(&self) -> (r: PythonInstallationKey)
        ensures
            r@ == interpreter_key(self.interpreter),
    {
        self.interpreter.key()
    }

    /// Return the version of the Python installation as reported by its
    /// interpreter.
    pub fn python_version(&self) -> (r: PythonVersion)
        ensures
            r == interpreter_version(self.interpreter),
    {
        self.interpreter.python_version()
    }

    /// Return the [`LenientImplementationName`] of the Python installation as
    /// reported by its interpreter.
    pub fn implementation(&self) -> (r: LenientImplementationName)
        ensures
            r@ == lenient_from(self.interpreter.implementation_name@),
    {
        LenientImplementationName::from_name(self.interpreter.implementation_name())
    }

    /// Whether this is an alternative implementation, e.g., PyPy: anything but
    /// CPython.
    pub fn is_alternative_implementation(&self) -> (r: bool)
        ensures
            r == (lenient_from(self.interpreter.implementation_name@) != ImplementationView::Known(
                ImplementationName::CPython,
            )),
    {
        self.implementation().is_alternative()
    }

    /// Return the [`Arch`] of the Python installation as reported by its
    /// interpreter.
    pub fn arch(&self) -> (r: Arch)
        ensures
            r == self.interpreter.arch,
    {
        self.interpreter.arch()
    }

    /// Return the [`Libc`] of the Python installation as reported by its
    /// interpreter.
    pub fn libc(&self) -> (r: Libc)
        ensures
            r == self.interpreter.libc,
    {
        self.interpreter.libc()
    }

    /// Return the [`Os`] of the Python installation as reported by its
    /// interpreter.
    pub fn os(&self) -> (r: Os)
        ensures
            r == self.interpreter.os,
    {
        self.interpreter.os()
    }

    /// Return the [`Interpreter`] for the Python installation.
    pub fn interpreter(&self) -> (r: &Interpreter)
        ensures
            *r == self.interpreter,
    {
        &self.interpreter
    }

    /// Consume the [`PythonInstallation`] and return the [`Interpreter`].
    pub fn into_interpreter(self) -> (r: Interpreter)
        ensures
            r == self.interpreter,
    {
        self.interpreter
    }
}

} // verus!
