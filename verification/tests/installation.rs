use python_provision::discovery::{
    best_candidate, candidate_sources, is_eligible, scan_candidates, Candidate,
    EnvironmentPreference, Platform, PythonDownloadRequest, PythonDownloads, PythonPreference,
    PythonRequest, VersionRequest,
};
use python_provision::downloads::plan_download;
use python_provision::implementation::{ImplementationName, LenientImplementationName};
use python_provision::installation::{
    retry_after, Error, FetchNext, FetchStep, FindOutcome, PythonInstallation,
};
use python_provision::interpreter::{Interpreter, PythonSource, Scheme};
use python_provision::key::PythonInstallationKey;
use python_provision::platform::{Arch, Libc, Os};
use python_provision::version::{PythonVariant, PythonVersion};

fn python(implementation: &str, version: &str) -> Interpreter {
    let v = PythonVersion::from_str(version).unwrap();
    Interpreter {
        implementation_name: implementation.to_string(),
        platform_python_implementation: implementation.to_string(),
        major: v.major(),
        minor: v.minor(),
        patch: v.patch().unwrap_or(0),
        prerelease: v.pre(),
        os: Os::Linux,
        arch: Arch::X86_64,
        libc: Libc::Gnu,
        variant: PythonVariant::Default,
        virtualenv: Scheme {
            purelib: "lib".to_string(),
            platlib: "lib".to_string(),
            scripts: "bin".to_string(),
            data: String::new(),
            headers: "include".to_string(),
        },
        sys_executable: format!("/opt/{implementation}-{version}/bin/python"),
        sys_base_executable: None,
        managed: false,
        standalone: false,
        pointer_size_64: true,
        os_name: "posix".to_string(),
        sys_platform: "linux".to_string(),
    }
}

fn found(source: PythonSource, implementation: &str, version: &str) -> Candidate {
    Candidate::Found(source, python(implementation, version))
}

fn failed(critical: bool, message: &str) -> Candidate {
    Candidate::Failed { critical, message: message.to_string() }
}

fn wanted(major: u8, minor: Option<u8>, patch: Option<u8>) -> PythonRequest {
    PythonRequest::Version(VersionRequest { major, minor, patch })
}

fn host() -> Platform {
    Platform { os: Os::Macos, arch: Arch::Aarch64, libc: Libc::Absent }
}

/// What a search ended with, in a form that can be compared.
fn told(result: Result<PythonInstallation, Error>) -> String {
    match result {
        Ok(installation) => format!(
            "{:?} {}",
            installation.source,
            installation.key().to_string()
        ),
        Err(Error::MissingPython) => "missing".to_string(),
        Err(Error::Discovery { critical, message }) => format!("discovery {critical} {message}"),
        Err(Error::NoDownloadFound) => "no download".to_string(),
        Err(Error::Transport(message)) => format!("transport {message}"),
        Err(Error::Io(message)) => format!("io {message}"),
    }
}

fn find(request: &PythonRequest, candidates: Vec<Candidate>) -> String {
    told(PythonInstallation::find(
        request,
        EnvironmentPreference::Any,
        PythonPreference::Managed,
        candidates,
    ))
}

fn find_best(request: &PythonRequest, candidates: Vec<Candidate>) -> String {
    told(PythonInstallation::find_best(
        request,
        EnvironmentPreference::Any,
        PythonPreference::Managed,
        candidates,
    ))
}

fn several() -> Vec<Candidate> {
    vec![
        found(PythonSource::ActiveEnvironment, "cpython", "3.9.1"),
        found(PythonSource::Managed, "cpython", "3.12.3"),
        found(PythonSource::Managed, "pypy", "3.10.14"),
        found(PythonSource::SearchPath, "cpython", "3.12.7"),
        found(PythonSource::SearchPath, "cpython", "3.10.2"),
        found(PythonSource::Registry, "cpython", "3.12.7"),
    ]
}

#[test]
fn find_returns_the_first_match() {
    assert_eq!(
        find(&PythonRequest::Default, several()),
        "ActiveEnvironment cpython-3.9.1-linux-x86_64-gnu"
    );
    assert_eq!(find(&wanted(3, Some(12), None), several()), "Managed cpython-3.12.3-linux-x86_64-gnu");
    assert_eq!(
        find(&wanted(3, Some(12), Some(7)), several()),
        "SearchPath cpython-3.12.7-linux-x86_64-gnu"
    );
    assert_eq!(find(&wanted(3, Some(10), None), several()), "Managed pypy-3.10.14-linux-x86_64-gnu");
    assert_eq!(
        find(
            &PythonRequest::ImplementationVersion(
                ImplementationName::CPython,
                VersionRequest { major: 3, minor: Some(10), patch: None }
            ),
            several()
        ),
        "SearchPath cpython-3.10.2-linux-x86_64-gnu"
    );
    assert_eq!(
        find(&PythonRequest::Path("/opt/cpython-3.10.2/bin/python".to_string()), several()),
        "SearchPath cpython-3.10.2-linux-x86_64-gnu"
    );
    assert_eq!(find(&wanted(3, Some(13), None), several()), "missing");
    assert_eq!(find(&wanted(2, None, None), several()), "missing");
    assert_eq!(find(&PythonRequest::Default, Vec::new()), "missing");
}

#[test]
fn find_by_key_request() {
    let mut request = PythonDownloadRequest::any();
    request.implementation = Some(ImplementationName::PyPy);
    assert_eq!(
        find(&PythonRequest::Key(request), several()),
        "Managed pypy-3.10.14-linux-x86_64-gnu"
    );
    request.os = Some(Os::Windows);
    assert_eq!(find(&PythonRequest::Key(request), several()), "missing");
    let mut request = PythonDownloadRequest::any();
    request.variant = Some(PythonVariant::Freethreaded);
    assert_eq!(find(&PythonRequest::Key(request), several()), "missing");
    request.variant = Some(PythonVariant::Default);
    request.arch = Some(Arch::X86_64);
    request.libc = Some(Libc::Gnu);
    request.version = Some(VersionRequest { major: 3, minor: Some(12), patch: Some(7) });
    assert_eq!(
        find(&PythonRequest::Key(request), several()),
        "SearchPath cpython-3.12.7-linux-x86_64-gnu"
    );
}

#[test]
fn find_respects_the_preferences() {
    let run = |environments: EnvironmentPreference, preference: PythonPreference| {
        told(PythonInstallation::find(&PythonRequest::Default, environments, preference, several()))
    };
    assert_eq!(
        run(EnvironmentPreference::Any, PythonPreference::Managed),
        "ActiveEnvironment cpython-3.9.1-linux-x86_64-gnu"
    );
    assert_eq!(
        run(EnvironmentPreference::OnlySystem, PythonPreference::Managed),
        "Managed cpython-3.12.3-linux-x86_64-gnu"
    );
    assert_eq!(
        run(EnvironmentPreference::OnlySystem, PythonPreference::OnlySystem),
        "SearchPath cpython-3.12.7-linux-x86_64-gnu"
    );
    assert_eq!(
        run(EnvironmentPreference::OnlyVirtual, PythonPreference::OnlySystem),
        "ActiveEnvironment cpython-3.9.1-linux-x86_64-gnu"
    );
    assert_eq!(
        run(EnvironmentPreference::OnlySystem, PythonPreference::OnlyManaged),
        "Managed cpython-3.12.3-linux-x86_64-gnu"
    );
    let only_system = vec![found(PythonSource::SearchPath, "cpython", "3.12.7")];
    assert_eq!(
        told(PythonInstallation::find(
            &PythonRequest::Default,
            EnvironmentPreference::Any,
            PythonPreference::OnlyManaged,
            only_system
        )),
        "missing"
    );
    // A path that the caller gave is taken whatever the preferences.
    let given = vec![found(PythonSource::ProvidedPath, "cpython", "3.8.0")];
    assert_eq!(
        told(PythonInstallation::find(
            &PythonRequest::Default,
            EnvironmentPreference::OnlyVirtual,
            PythonPreference::OnlyManaged,
            given
        )),
        "ProvidedPath cpython-3.8.0-linux-x86_64-gnu"
    );
}

#[test]
fn find_and_failures() {
    // A failure that is not critical is passed over.
    let candidates = vec![
        failed(false, "permission denied"),
        found(PythonSource::SearchPath, "cpython", "3.12.7"),
    ];
    assert_eq!(find(&PythonRequest::Default, candidates), "SearchPath cpython-3.12.7-linux-x86_64-gnu");
    // If nothing is found, the first such failure is the error.
    let candidates = vec![
        found(PythonSource::SearchPath, "cpython", "3.12.7"),
        failed(false, "first"),
        failed(false, "second"),
    ];
    assert_eq!(find(&wanted(3, Some(9), None), candidates), "discovery false first");
    // A critical failure ends the search.
    let candidates = vec![
        failed(false, "soft"),
        failed(true, "registry is corrupt"),
        found(PythonSource::SearchPath, "cpython", "3.12.7"),
    ];
    assert_eq!(find(&PythonRequest::Default, candidates), "discovery true registry is corrupt");
    // Unless an interpreter was found before it.
    let candidates = vec![
        found(PythonSource::SearchPath, "cpython", "3.12.7"),
        failed(true, "registry is corrupt"),
    ];
    assert_eq!(find(&PythonRequest::Default, candidates), "SearchPath cpython-3.12.7-linux-x86_64-gnu");
}

#[test]
fn find_best_relaxes_the_request() {
    // An exact match is returned as it is found.
    assert_eq!(
        find_best(&wanted(3, Some(12), Some(3)), several()),
        "Managed cpython-3.12.3-linux-x86_64-gnu"
    );
    // Without one the patch is left open, and the highest version wins; of
    // several, the first.
    assert_eq!(
        find_best(&wanted(3, Some(12), Some(99)), several()),
        "SearchPath cpython-3.12.7-linux-x86_64-gnu"
    );
    // Then the minor is left open too.
    assert_eq!(
        find_best(&wanted(3, Some(11), Some(1)), several()),
        "SearchPath cpython-3.12.7-linux-x86_64-gnu"
    );
    assert_eq!(
        find_best(
            &PythonRequest::ImplementationVersion(
                ImplementationName::PyPy,
                VersionRequest { major: 3, minor: Some(12), patch: Some(1) }
            ),
            several()
        ),
        "Managed pypy-3.10.14-linux-x86_64-gnu"
    );
    // The major is never given up.
    assert_eq!(find_best(&wanted(2, Some(7), Some(18)), several()), "missing");
    // Nor is anything of a request without a version.
    assert_eq!(
        find_best(&PythonRequest::Path("/nowhere".to_string()), several()),
        "missing"
    );
    // The error of the exact search stays.
    let mut candidates = several();
    candidates.insert(1, failed(false, "unreadable"));
    assert_eq!(find_best(&wanted(4, None, None), candidates), "discovery false unreadable");
    let mut candidates = several();
    candidates.insert(0, failed(true, "locked"));
    assert_eq!(find_best(&wanted(3, Some(12), Some(3)), candidates), "discovery true locked");
}

#[test]
fn scanning_and_choosing() {
    let candidates = several();
    let request = wanted(3, Some(12), None);
    let scan = scan_candidates(
        &request,
        EnvironmentPreference::Any,
        PythonPreference::Managed,
        &candidates,
    );
    assert_eq!(scan.decisive, 1);
    assert_eq!(
        best_candidate(&request, EnvironmentPreference::Any, PythonPreference::Managed, &candidates),
        Some(3)
    );
    assert_eq!(
        best_candidate(
            &wanted(3, Some(8), None),
            EnvironmentPreference::Any,
            PythonPreference::Managed,
            &candidates
        ),
        None
    );
    assert!(is_eligible(
        &request,
        EnvironmentPreference::Any,
        PythonPreference::OnlySystem,
        &candidates[3]
    ));
    assert!(!is_eligible(
        &request,
        EnvironmentPreference::Any,
        PythonPreference::OnlySystem,
        &candidates[1]
    ));
    assert!(!is_eligible(
        &request,
        EnvironmentPreference::Any,
        PythonPreference::Managed,
        &failed(false, "x")
    ));
}

fn outcome(
    request: Option<&PythonRequest>,
    preference: PythonPreference,
    downloads: PythonDownloads,
    online: bool,
    candidates: Vec<Candidate>,
) -> String {
    match PythonInstallation::find_or_download(
        request,
        EnvironmentPreference::OnlySystem,
        preference,
        downloads,
        online,
        &host(),
        candidates,
    ) {
        FindOutcome::Found(installation) => told(Ok(installation)),
        FindOutcome::Failed(err) => format!("failed: {}", told(Err(err))),
        FindOutcome::Fetch(request, err) => format!("fetch {request:?} after {}", told(Err(err))),
    }
}

#[test]
fn find_or_download_decides() {
    let request = wanted(3, Some(13), None);
    let all = several;
    // Found: nothing else matters.
    assert_eq!(
        outcome(None, PythonPreference::Managed, PythonDownloads::Never, false, all()),
        "Managed cpython-3.12.3-linux-x86_64-gnu"
    );
    // Missing, and downloads are enabled: fetch for the host.
    let filled = PythonDownloadRequest {
        implementation: Some(ImplementationName::CPython),
        version: Some(VersionRequest { major: 3, minor: Some(13), patch: None }),
        os: Some(Os::Macos),
        arch: Some(Arch::Aarch64),
        libc: Some(Libc::Absent),
        variant: None,
    };
    assert_eq!(
        outcome(Some(&request), PythonPreference::Managed, PythonDownloads::Automatic, true, all()),
        format!("fetch {filled:?} after missing")
    );
    assert_eq!(
        outcome(Some(&request), PythonPreference::OnlyManaged, PythonDownloads::Automatic, true, all()),
        format!("fetch {filled:?} after missing")
    );
    assert_eq!(
        outcome(Some(&request), PythonPreference::System, PythonDownloads::Automatic, true, all()),
        format!("fetch {filled:?} after missing")
    );
    // Downloads are not enabled.
    assert_eq!(
        outcome(Some(&request), PythonPreference::OnlySystem, PythonDownloads::Automatic, true, all()),
        "failed: missing"
    );
    assert_eq!(
        outcome(Some(&request), PythonPreference::Managed, PythonDownloads::Manual, true, all()),
        "failed: missing"
    );
    assert_eq!(
        outcome(Some(&request), PythonPreference::Managed, PythonDownloads::Never, true, all()),
        "failed: missing"
    );
    assert_eq!(
        outcome(Some(&request), PythonPreference::Managed, PythonDownloads::Automatic, false, all()),
        "failed: missing"
    );
    // A failure that is not critical may be followed by a download, a critical one not.
    let soft = vec![failed(false, "unreadable")];
    assert_eq!(
        outcome(Some(&request), PythonPreference::Managed, PythonDownloads::Automatic, true, soft),
        format!("fetch {filled:?} after discovery false unreadable")
    );
    let hard = vec![failed(true, "locked")];
    assert_eq!(
        outcome(Some(&request), PythonPreference::Managed, PythonDownloads::Automatic, true, hard),
        "failed: discovery true locked"
    );
    // A path cannot be downloaded.
    let path = PythonRequest::Path("/nowhere".to_string());
    assert_eq!(
        outcome(Some(&path), PythonPreference::Managed, PythonDownloads::Automatic, true, all()),
        "failed: missing"
    );
    // Without a request, any interpreter is wanted.
    let open_request = PythonDownloadRequest {
        implementation: Some(ImplementationName::CPython),
        version: None,
        os: Some(Os::Macos),
        arch: Some(Arch::Aarch64),
        libc: Some(Libc::Absent),
        variant: None,
    };
    assert_eq!(
        outcome(None, PythonPreference::Managed, PythonDownloads::Automatic, true, Vec::new()),
        format!("fetch {open_request:?} after missing")
    );
}

#[test]
fn download_request_from_a_request() {
    let v = VersionRequest { major: 3, minor: Some(12), patch: Some(1) };
    assert_eq!(
        PythonDownloadRequest::from_request(&PythonRequest::Default),
        Some(PythonDownloadRequest::any())
    );
    let mut expected = PythonDownloadRequest::any();
    expected.version = Some(v);
    assert_eq!(PythonDownloadRequest::from_request(&PythonRequest::Version(v)), Some(expected));
    expected.implementation = Some(ImplementationName::GraalPy);
    assert_eq!(
        PythonDownloadRequest::from_request(&PythonRequest::ImplementationVersion(
            ImplementationName::GraalPy,
            v
        )),
        Some(expected)
    );
    let mut key = PythonDownloadRequest::any();
    key.os = Some(Os::Windows);
    key.variant = Some(PythonVariant::Freethreaded);
    assert_eq!(PythonDownloadRequest::from_request(&PythonRequest::Key(key)), Some(key));
    assert_eq!(PythonDownloadRequest::from_request(&PythonRequest::Path("p".to_string())), None);
    // Filling keeps what is given.
    let filled = key.fill(&host());
    assert_eq!(
        filled,
        PythonDownloadRequest {
            implementation: Some(ImplementationName::CPython),
            version: None,
            os: Some(Os::Windows),
            arch: Some(Arch::Aarch64),
            libc: Some(Libc::Absent),
            variant: Some(PythonVariant::Freethreaded),
        }
    );
    assert_eq!(filled.fill(&Platform { os: Os::Linux, arch: Arch::X86, libc: Libc::Musl }), filled);
}

#[test]
fn after_fetch_chooses_the_error() {
    let original = || Error::Discovery { critical: false, message: "unreadable".to_string() };
    let fetched = PythonInstallation::fetched(python("cpython", "3.13.1"));
    assert_eq!(
        told(PythonInstallation::after_fetch(original(), Ok(fetched))),
        "Managed cpython-3.13.1-linux-x86_64-gnu"
    );
    assert_eq!(
        told(PythonInstallation::after_fetch(original(), Err(Error::NoDownloadFound))),
        "discovery false unreadable"
    );
    assert_eq!(
        told(PythonInstallation::after_fetch(Error::MissingPython, Err(Error::NoDownloadFound))),
        "missing"
    );
    assert_eq!(
        told(PythonInstallation::after_fetch(
            original(),
            Err(Error::Transport("timed out".to_string()))
        )),
        "transport timed out"
    );
    assert_eq!(
        told(PythonInstallation::after_fetch(original(), Err(Error::Io("disk full".to_string())))),
        "io disk full"
    );
}

#[test]
fn fetch_takes_its_steps_in_order() {
    let mut step = FetchStep::Lock;
    let mut taken = vec![step];
    loop {
        match PythonInstallation::fetch(step, Ok(())) {
            FetchNext::Step { step: next, warn } => {
                assert!(!warn);
                taken.push(next);
                step = next;
            }
            FetchNext::Installed => break,
            FetchNext::Abort(err) => panic!("{err:?}"),
        }
    }
    assert_eq!(
        taken,
        vec![
            FetchStep::Lock,
            FetchStep::Plan,
            FetchStep::Download,
            FetchStep::MarkExternallyManaged,
            FetchStep::PatchSysconfig,
            FetchStep::LinkExecutables,
            FetchStep::PatchDylib,
            FetchStep::Query,
        ]
    );
}

#[test]
fn fetch_fails_hard_or_soft() {
    let fail = |step: FetchStep| PythonInstallation::fetch(step, Err(Error::Io("x".to_string())));
    for step in [
        FetchStep::Lock,
        FetchStep::Plan,
        FetchStep::Download,
        FetchStep::MarkExternallyManaged,
        FetchStep::PatchSysconfig,
        FetchStep::LinkExecutables,
        FetchStep::Query,
    ] {
        assert!(matches!(fail(step), FetchNext::Abort(Error::Io(message)) if message == "x"));
    }
    assert!(matches!(
        fail(FetchStep::PatchDylib),
        FetchNext::Step { step: FetchStep::Query, warn: true }
    ));
    assert!(matches!(
        PythonInstallation::fetch(FetchStep::Plan, Err(Error::NoDownloadFound)),
        FetchNext::Abort(Error::NoDownloadFound)
    ));
}

#[test]
fn installation_accessors() {
    let mut interpreter = python("pypy", "3.10.14");
    interpreter.os = Os::Windows;
    interpreter.arch = Arch::Aarch64;
    interpreter.libc = Libc::Absent;
    let installation = PythonInstallation::from_interpreter(interpreter.clone());
    assert_eq!(*installation.source(), PythonSource::ProvidedPath);
    assert_eq!(*installation.interpreter(), interpreter);
    assert_eq!(
        installation.implementation(),
        LenientImplementationName::Known(ImplementationName::PyPy)
    );
    assert!(installation.is_alternative_implementation());
    assert_eq!(installation.arch(), Arch::Aarch64);
    assert_eq!(installation.libc(), Libc::Absent);
    assert_eq!(installation.os(), Os::Windows);
    assert_eq!(installation.python_version(), PythonVersion::from_str("3.10.14").unwrap());
    assert_eq!(installation.key().to_string(), "pypy-3.10.14-windows-aarch64-none");
    assert_eq!(installation.into_interpreter(), interpreter);

    let tuple = PythonInstallation::from_tuple((PythonSource::Registry, python("CPython", "3.9.0")));
    assert_eq!(*tuple.source(), PythonSource::Registry);
    assert!(!tuple.is_alternative_implementation());
    let unknown = PythonInstallation::from_interpreter(python("rustpython", "3.12.0"));
    assert_eq!(
        unknown.implementation(),
        LenientImplementationName::Unknown("rustpython".to_string())
    );
    assert!(unknown.is_alternative_implementation());
    assert_eq!(unknown.key().to_string(), "rustpython-3.12.0-linux-x86_64-gnu");
}

#[test]
fn interpreter_accessors() {
    let interpreter = python("cpython", "3.13.0rc1");
    assert_eq!(interpreter.implementation_name(), "cpython");
    assert_eq!(interpreter.python_major(), 3);
    assert_eq!(interpreter.python_minor(), 13);
    assert_eq!(interpreter.python_patch(), 0);
    assert_eq!(interpreter.python_version().to_string(), "3.13.0rc1");
    assert_eq!(interpreter.key().to_string(), "cpython-3.13.0rc1-linux-x86_64-gnu");
    assert_eq!(interpreter.variant(), PythonVariant::Default);
    assert!(!interpreter.is_managed());
    assert!(!interpreter.is_standalone());
    assert_eq!(interpreter.virtualenv().scripts, "bin");
}

#[test]
fn planner_takes_the_highest_version() {
    let catalog: Vec<PythonInstallationKey> = [
        "cpython-3.12.3-linux-x86_64-gnu",
        "cpython-3.12.7-linux-x86_64-gnu",
        "cpython-3.12.7+freethreaded-linux-x86_64-gnu",
        "cpython-3.12.9-macos-aarch64-none",
        "cpython-3.13.0rc2-linux-x86_64-gnu",
        "cpython-3.13.0rc10-linux-x86_64-gnu",
        "pypy-3.12.8-linux-x86_64-gnu",
        "cpython-3.12.7-linux-x86_64-gnu",
    ]
    .iter()
    .map(|text| PythonInstallationKey::from_str(text).unwrap())
    .collect();
    let mut request = PythonDownloadRequest::any();
    request.version = Some(VersionRequest { major: 3, minor: Some(12), patch: None });
    assert_eq!(plan_download(&catalog, &request).ok(), Some(3));
    request.os = Some(Os::Linux);
    assert_eq!(plan_download(&catalog, &request).ok(), Some(6));
    request.implementation = Some(ImplementationName::CPython);
    // Of several with the highest version, the first.
    assert_eq!(plan_download(&catalog, &request).ok(), Some(1));
    request.variant = Some(PythonVariant::Freethreaded);
    assert_eq!(plan_download(&catalog, &request).ok(), Some(2));
    request.variant = None;
    request.version = Some(VersionRequest { major: 3, minor: Some(13), patch: None });
    assert_eq!(plan_download(&catalog, &request).ok(), Some(5));
    request.version = Some(VersionRequest { major: 3, minor: Some(14), patch: None });
    assert!(matches!(plan_download(&catalog, &request), Err(Error::NoDownloadFound)));
    assert!(matches!(
        plan_download(&Vec::new(), &PythonDownloadRequest::any()),
        Err(Error::NoDownloadFound)
    ));
    assert_eq!(plan_download(&catalog, &PythonDownloadRequest::any()).ok(), Some(5));
}

#[test]
fn error_recoverability() {
    assert!(Error::MissingPython.is_recoverable());
    assert!(Error::Discovery { critical: false, message: String::new() }.is_recoverable());
    assert!(!Error::Discovery { critical: true, message: String::new() }.is_recoverable());
    assert!(!Error::NoDownloadFound.is_recoverable());
    assert!(!Error::Transport(String::new()).is_recoverable());
    assert!(!Error::Io(String::new()).is_recoverable());
}

#[test]
fn search_order() {
    use_sources(
        EnvironmentPreference::Any,
        PythonPreference::Managed,
        &[
            PythonSource::ActiveEnvironment,
            PythonSource::DiscoveredEnvironment,
            PythonSource::Managed,
            PythonSource::SearchPath,
            PythonSource::Registry,
        ],
    );
    use_sources(
        EnvironmentPreference::Any,
        PythonPreference::System,
        &[
            PythonSource::ActiveEnvironment,
            PythonSource::DiscoveredEnvironment,
            PythonSource::SearchPath,
            PythonSource::Registry,
            PythonSource::Managed,
        ],
    );
    use_sources(
        EnvironmentPreference::OnlySystem,
        PythonPreference::OnlyManaged,
        &[PythonSource::Managed],
    );
    use_sources(
        EnvironmentPreference::OnlySystem,
        PythonPreference::OnlySystem,
        &[PythonSource::SearchPath, PythonSource::Registry],
    );
    use_sources(
        EnvironmentPreference::OnlyVirtual,
        PythonPreference::System,
        &[PythonSource::ActiveEnvironment, PythonSource::DiscoveredEnvironment],
    );
    use_sources(
        EnvironmentPreference::Any,
        PythonPreference::OnlyManaged,
        &[
            PythonSource::ActiveEnvironment,
            PythonSource::DiscoveredEnvironment,
            PythonSource::Managed,
        ],
    );
}

fn use_sources(
    environments: EnvironmentPreference,
    preference: PythonPreference,
    expected: &[PythonSource],
) {
    assert_eq!(candidate_sources(environments, preference), expected.to_vec());
    // What a search looks at is what it takes interpreters from.
    for source in [
        PythonSource::ActiveEnvironment,
        PythonSource::DiscoveredEnvironment,
        PythonSource::Managed,
        PythonSource::SearchPath,
        PythonSource::Registry,
    ] {
        let taken = is_eligible(
            &PythonRequest::Default,
            environments,
            preference,
            &found(source, "cpython", "3.12.0"),
        );
        assert_eq!(taken, expected.contains(&source));
    }
}

#[test]
fn retries_are_bounded_and_double() {
    let network = Error::Transport("reset".to_string());
    assert_eq!(retry_after(&network, 0, 3, 100), Some(100));
    assert_eq!(retry_after(&network, 1, 3, 100), Some(200));
    assert_eq!(retry_after(&network, 2, 3, 100), Some(400));
    assert_eq!(retry_after(&network, 3, 3, 100), None);
    assert_eq!(retry_after(&network, 4, 3, 100), None);
    assert_eq!(retry_after(&network, 0, 0, 100), None);
    assert_eq!(retry_after(&network, 10, 11, 1), Some(1024));
    assert_eq!(retry_after(&network, 5, 9, 0), Some(0));
    // The wait never overflows.
    assert_eq!(retry_after(&network, 63, 100, 1), Some(1 << 63));
    assert_eq!(retry_after(&network, 64, 100, 1), Some(u64::MAX));
    assert_eq!(retry_after(&network, 99, 100, 7), Some(u64::MAX));
    assert_eq!(retry_after(&network, 1, 2, u64::MAX), Some(u64::MAX));
    // Nothing else is tried again.
    assert_eq!(retry_after(&Error::NoDownloadFound, 0, 3, 100), None);
    assert_eq!(retry_after(&Error::Io("disk full".to_string()), 0, 3, 100), None);
    assert_eq!(retry_after(&Error::MissingPython, 0, 3, 100), None);
    assert_eq!(
        retry_after(&Error::Discovery { critical: false, message: String::new() }, 0, 3, 100),
        None
    );
}
