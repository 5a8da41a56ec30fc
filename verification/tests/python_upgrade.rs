use python_provision::discovery::{
    Candidate, EnvironmentPreference, Platform, PythonDownloadRequest, PythonPreference,
    PythonRequest, VersionRequest,
};
use python_provision::implementation::LenientImplementationName;
use python_provision::installation::{Error, PythonInstallation};
use python_provision::interpreter::{Interpreter, PythonSource, Scheme};
use python_provision::key::PythonInstallationKey;
use python_provision::platform::{Arch, Libc, Os, TargetFamily};
use python_provision::registry::{
    exit_code, installed_lines, patch_warning, Registry, VenvBinding,
};
use python_provision::version::PythonVersion;

/// What a command printed and how it ended.
struct Output {
    exit_code: u8,
    stdout: Vec<String>,
    stderr: Vec<String>,
}

impl Output {
    fn ok(stdout: Vec<String>, stderr: Vec<String>) -> Self {
        Output { exit_code: exit_code(false, false), stdout, stderr }
    }

    fn failed(stderr: Vec<String>) -> Self {
        Output { exit_code: exit_code(true, false), stdout: Vec::new(), stderr }
    }

    fn snapshot(&self) -> String {
        let mut text = format!(
            "success: {}\nexit_code: {}\n----- stdout -----\n",
            self.exit_code == 0,
            self.exit_code
        );
        for line in &self.stdout {
            text.push_str(line);
            text.push('\n');
        }
        text.push_str("\n----- stderr -----\n");
        for line in &self.stderr {
            text.push_str(line);
            text.push('\n');
        }
        text
    }
}

/// Compares what a command printed with what is expected of it, line by line;
/// the indentation of the expected text and empty lines at its ends do not
/// count.
fn expect(output: Output, expected: &str) {
    let lines = |text: &str| -> Vec<String> {
        let all: Vec<String> = text.lines().map(|line| line.trim_end().to_string()).collect();
        let first = all.iter().position(|line| !line.is_empty()).unwrap_or(all.len());
        let last = all.iter().rposition(|line| !line.is_empty()).map_or(first, |at| at + 1);
        all[first..last].to_vec()
    };
    let indent = expected
        .lines()
        .filter(|line| !line.trim().is_empty())
        .map(|line| line.len() - line.trim_start().len())
        .min()
        .unwrap_or(0);
    let expected: String = expected
        .lines()
        .map(|line| if line.len() >= indent { &line[indent..] } else { line.trim_start() })
        .collect::<Vec<&str>>()
        .join("\n");
    assert_eq!(lines(&output.snapshot()), lines(&expected));
}

/// A machine with a catalog of downloads, a registry of managed interpreters,
/// interpreters of the system, and at most one virtual environment and one pin.
struct TestContext {
    host: Platform,
    family: TargetFamily,
    catalog: Vec<PythonInstallationKey>,
    registry: Registry,
    system: Vec<Interpreter>,
    venv: Option<VenvBinding>,
    pin: Option<PythonDownloadRequest>,
}

fn interpreter_for(key: &PythonInstallationKey, managed: bool) -> Interpreter {
    let lib = format!("lib/python{}.{}/site-packages", key.major(), key.minor());
    Interpreter {
        implementation_name: key.implementation().name().to_string(),
        platform_python_implementation: match key.implementation() {
            LenientImplementationName::Known(name) => name.pretty().to_string(),
            LenientImplementationName::Unknown(name) => name.clone(),
        },
        major: key.major(),
        minor: key.minor(),
        patch: key.patch(),
        prerelease: key.prerelease(),
        os: *key.os(),
        arch: *key.arch(),
        libc: *key.libc(),
        variant: *key.variant(),
        virtualenv: Scheme {
            purelib: lib.clone(),
            platlib: lib,
            scripts: "bin".to_string(),
            data: String::new(),
            headers: "include".to_string(),
        },
        sys_executable: format!("/pythons/{}/bin/python", key.to_string()),
        sys_base_executable: None,
        managed,
        standalone: managed,
        pointer_size_64: true,
        os_name: "posix".to_string(),
        sys_platform: "linux".to_string(),
    }
}

impl TestContext {
    fn new_with_versions(versions: &[&str]) -> Self {
        let host = Platform { os: Os::Linux, arch: Arch::X86_64, libc: Libc::Gnu };
        let catalog = [
            "cpython-3.14.0a5-linux-x86_64-gnu",
            "cpython-3.13.2-linux-x86_64-gnu",
            "cpython-3.13.2+freethreaded-linux-x86_64-gnu",
            "cpython-3.12.10-linux-x86_64-gnu",
            "cpython-3.12.11-macos-aarch64-none",
            "cpython-3.12.9-linux-x86_64-gnu",
            "cpython-3.12.8-linux-x86_64-gnu",
            "cpython-3.11.8-linux-x86_64-gnu",
            "cpython-3.11.12-linux-x86_64-gnu",
            "cpython-3.11.13-linux-x86_64-musl",
            "cpython-3.11.11-linux-x86_64-gnu",
            "cpython-3.10.8-linux-x86_64-gnu",
            "cpython-3.10.12-linux-x86_64-gnu",
            "cpython-3.10.17-linux-x86_64-gnu",
            "cpython-3.10.18-linux-aarch64-gnu",
            "cpython-3.10.18-windows-x86_64-none",
            "pypy-3.10.19-linux-x86_64-gnu",
            "cpython-3.10.16-linux-x86_64-gnu",
            "cpython-3.9.21-linux-x86_64-gnu",
        ]
        .iter()
        .map(|text| PythonInstallationKey::from_str(text).unwrap())
        .collect();
        let system = versions
            .iter()
            .map(|version| {
                let version = PythonVersion::from_str(version).unwrap();
                let key = PythonInstallationKey::new_from_version(
                    LenientImplementationName::from_name("cpython"),
                    &version,
                    host.os,
                    host.arch,
                    host.libc,
                    python_provision::version::PythonVariant::Default,
                );
                interpreter_for(&key, false)
            })
            .collect();
        TestContext {
            host,
            family: TargetFamily::Unix,
            catalog,
            registry: Registry::new(),
            system,
            venv: None,
            pin: None,
        }
    }

    /// Replaces what differs from machine to machine.
    fn filtered(&self, lines: Vec<String>) -> Vec<String> {
        let platform =
            format!("{}-{}-{}", self.host.os.name(), self.host.arch.name(), self.host.libc.name());
        lines.into_iter().map(|line| line.replace(&platform, "[PLATFORM]")).collect()
    }

    fn version_request(text: &str) -> VersionRequest {
        let version = PythonVersion::from_str(text).unwrap();
        VersionRequest {
            major: version.major(),
            minor: Some(version.minor()),
            patch: version.patch(),
        }
    }

    fn download_request(&self, text: &str) -> PythonDownloadRequest {
        let mut request = PythonDownloadRequest::any();
        request.version = Some(Self::version_request(text));
        request.variant = Some(python_provision::version::PythonVariant::Default);
        request.fill(&self.host)
    }

    /// `python install <versions>`, with `--preview` where `preview` is set.
    fn python_install(&mut self, versions: &[&str], preview: bool) -> Output {
        let mut fresh = Vec::new();
        for version in versions {
            let request = self.download_request(version);
            match self.registry.fetch(&self.catalog, &request) {
                Ok((key, true)) => fresh.push(key),
                Ok((_, false)) => {}
                Err(Error::NoDownloadFound) => {
                    return Output::failed(vec![format!("error: No download found for {version}")]);
                }
                Err(other) => panic!("{other:?}"),
            }
        }
        let executable = if preview { Some(self.family) } else { None };
        let lines = installed_lines(&fresh, "[TIME]", executable);
        Output::ok(Vec::new(), self.filtered(lines))
    }

    /// `python upgrade <targets>`.
    fn python_upgrade(&mut self, targets: &[&str]) -> Output {
        let targets: Vec<VersionRequest> =
            targets.iter().map(|text| Self::version_request(text)).collect();
        match self.registry.upgrade(&self.catalog, &targets, &self.host) {
            Ok(report) => Output::ok(Vec::new(), self.filtered(report.lines("[TIME]"))),
            Err(err) => Output::failed(vec![format!("error: {}", err.to_string())]),
        }
    }

    /// The interpreters that a search comes upon: the managed ones, newest
    /// first, then those of the system.
    fn candidates(&self) -> Vec<Candidate> {
        let mut managed: Vec<PythonInstallationKey> =
            (0..self.registry.len()).map(|i| self.registry.entry(i).clone()).collect();
        managed.sort_by(|a, b| b.cmp(a));
        let mut candidates: Vec<Candidate> = managed
            .iter()
            .map(|key| Candidate::Found(PythonSource::Managed, interpreter_for(key, true)))
            .collect();
        for interpreter in &self.system {
            candidates.push(Candidate::Found(PythonSource::SearchPath, interpreter.clone()));
        }
        candidates
    }

    /// `venv`, with `-p <version>` where a version is given.
    fn venv(&mut self, version: Option<&str>) -> Output {
        let mut stderr = Vec::new();
        let request = match version {
            Some(text) => {
                let wanted = Self::version_request(text);
                if let Some(warning) = patch_warning(&wanted) {
                    stderr.push(format!("warning: {warning}"));
                }
                PythonRequest::Version(wanted)
            }
            None => PythonRequest::Default,
        };
        let found = PythonInstallation::find(
            &request,
            EnvironmentPreference::OnlySystem,
            PythonPreference::Managed,
            self.candidates(),
        );
        let installation = match found {
            Ok(installation) => installation,
            Err(err) => return Output::failed(vec![format!("error: {err:?}")]),
        };
        let implementation = match installation.implementation() {
            LenientImplementationName::Known(name) => name.pretty().to_string(),
            LenientImplementationName::Unknown(name) => name,
        };
        stderr.push(format!(
            "Using {} {}",
            implementation,
            installation.python_version().to_string()
        ));
        stderr.push("Creating virtual environment at: .venv".to_string());
        stderr.push(format!(
            "Activate with: source .venv/{}/activate",
            self.family.bin_name().replace("bin", "[BIN]")
        ));
        self.venv = Some(VenvBinding::new(&installation.key()));
        Output::ok(Vec::new(), stderr)
    }

    /// `python pin <version>`.
    fn python_pin(&mut self, version: &str) -> Output {
        self.pin = Some(self.download_request(version));
        Output::ok(vec![format!("Pinned `.python-version` to `{version}`")], Vec::new())
    }

    /// `run python --version`.
    fn run_python_version(&self) -> Output {
        let binding = self.venv.as_ref().expect("no virtual environment");
        match self.registry.run(binding, self.pin.as_ref()) {
            Some(key) => Output::ok(vec![format!("Python {}", key.sys_version())], Vec::new()),
            None => Output::failed(vec!["error: No interpreter found".to_string()]),
        }
    }
}

#[test]
fn python_upgrade() {
    let mut context = TestContext::new_with_versions(&[]);

    // Install an earlier patch version
    expect(context.python_install(&["3.10.8"], false), r"
    success: true
    exit_code: 0
    ----- stdout -----

    ----- stderr -----
    Installed Python 3.10.8 in [TIME]
     + cpython-3.10.8-[PLATFORM]
    ");

    // Don't accept patch version
    expect(context.python_upgrade(&["3.10.8"]), r"
    success: false
    exit_code: 1
    ----- stdout -----

    ----- stderr -----
    error: upgrade only accepts minor versions
    ");

    // Upgrade patch version
    expect(context.python_upgrade(&["3.10"]), r"
    success: true
    exit_code: 0
    ----- stdout -----

    ----- stderr -----
    Installed Python 3.10.17 in [TIME]
     + cpython-3.10.17-[PLATFORM]
    ");

    // Should be a no-op when already upgraded
    expect(context.python_upgrade(&["3.10"]), r"
    success: true
    exit_code: 0
    ----- stdout -----

    ----- stderr -----
    ");
}

#[test]
fn python_upgrade_without_version() {
    let mut context = TestContext::new_with_versions(&[]);

    // Should be a no-op when no versions have been installed
    expect(context.python_upgrade(&[]), r"
    success: true
    exit_code: 0
    ----- stdout -----

    ----- stderr -----
    ");

    // Install an earlier patch version
    expect(context.python_install(&["3.10.8", "3.11.8", "3.12.8"], false), r"
    success: true
    exit_code: 0
    ----- stdout -----

    ----- stderr -----
    Installed 3 versions in [TIME]
     + cpython-3.10.8-[PLATFORM]
     + cpython-3.11.8-[PLATFORM]
     + cpython-3.12.8-[PLATFORM]
    ");

    // Upgrade patch versions
    expect(context.python_upgrade(&[]), r"
    success: true
    exit_code: 0
    ----- stdout -----

    ----- stderr -----
    Installed 3 versions in [TIME]
     + cpython-3.10.17-[PLATFORM]
     + cpython-3.11.12-[PLATFORM]
     + cpython-3.12.10-[PLATFORM]
    ");

    // Should be a no-op when already upgraded
    expect(context.python_upgrade(&[]), r"
    success: true
    exit_code: 0
    ----- stdout -----

    ----- stderr -----
    All requested versions already on latest patch
    ");
}

#[test]
fn python_upgrade_preview() {
    let mut context = TestContext::new_with_versions(&[]);

    // Install an earlier patch version
    expect(context.python_install(&["3.10.8"], true), r"
    success: true
    exit_code: 0
    ----- stdout -----

    ----- stderr -----
    Installed Python 3.10.8 in [TIME]
     + cpython-3.10.8-[PLATFORM] (python3.10)
    ");

    // Upgrade patch version
    expect(context.python_upgrade(&["3.10"]), r"
    success: true
    exit_code: 0
    ----- stdout -----

    ----- stderr -----
    Installed Python 3.10.17 in [TIME]
     + cpython-3.10.17-[PLATFORM]
    ");

    // Should be a no-op when already upgraded
    expect(context.python_upgrade(&["3.10"]), r"
    success: true
    exit_code: 0
    ----- stdout -----

    ----- stderr -----
    ");
}

#[test]
fn python_upgrade_transparent_from_venv() {
    let mut context = TestContext::new_with_versions(&["3.13"]);

    // Install an earlier patch version
    expect(context.python_install(&["3.10.8"], false), r"
    success: true
    exit_code: 0
    ----- stdout -----

    ----- stderr -----
    Installed Python 3.10.8 in [TIME]
     + cpython-3.10.8-[PLATFORM]
    ");

    // Create a virtual environment
    expect(context.venv(Some("3.10")), r"
    success: true
    exit_code: 0
    ----- stdout -----

    ----- stderr -----
    Using CPython 3.10.8
    Creating virtual environment at: .venv
    Activate with: source .venv/[BIN]/activate
    ");

    expect(context.run_python_version(), r"
    success: true
    exit_code: 0
    ----- stdout -----
    Python 3.10.8

    ----- stderr -----
    ");

    // Upgrade patch version
    expect(context.python_upgrade(&["3.10"]), r"
    success: true
    exit_code: 0
    ----- stdout -----

    ----- stderr -----
    Installed Python 3.10.17 in [TIME]
     + cpython-3.10.17-[PLATFORM]
    ");

    expect(context.run_python_version(), r"
    success: true
    exit_code: 0
    ----- stdout -----
    Python 3.10.17

    ----- stderr -----
    ");
}

#[test]
fn python_upgrade_transparent_from_venv_preview() {
    let mut context = TestContext::new_with_versions(&["3.13"]);

    // Install an earlier patch version
    expect(context.python_install(&["3.10.8"], true), r"
    success: true
    exit_code: 0
    ----- stdout -----

    ----- stderr -----
    Installed Python 3.10.8 in [TIME]
     + cpython-3.10.8-[PLATFORM] (python3.10)
    ");

    // Create a virtual environment
    expect(context.venv(Some("3.10")), r"
    success: true
    exit_code: 0
    ----- stdout -----

    ----- stderr -----
    Using CPython 3.10.8
    Creating virtual environment at: .venv
    Activate with: source .venv/[BIN]/activate
    ");

    expect(context.run_python_version(), r"
    success: true
    exit_code: 0
    ----- stdout -----
    Python 3.10.8

    ----- stderr -----
    ");

    // Upgrade patch version
    expect(context.python_upgrade(&["3.10"]), r"
    success: true
    exit_code: 0
    ----- stdout -----

    ----- stderr -----
    Installed Python 3.10.17 in [TIME]
     + cpython-3.10.17-[PLATFORM]
    ");

    expect(context.run_python_version(), r"
    success: true
    exit_code: 0
    ----- stdout -----
    Python 3.10.17

    ----- stderr -----
    ");
}

#[test]
fn python_upgrade_ignored_with_python_pin() {
    let mut context = TestContext::new_with_versions(&["3.13"]);

    // Install an earlier patch version
    expect(context.python_install(&["3.10.8"], false), r"
    success: true
    exit_code: 0
    ----- stdout -----

    ----- stderr -----
    Installed Python 3.10.8 in [TIME]
     + cpython-3.10.8-[PLATFORM]
    ");

    // Create a virtual environment
    expect(context.venv(None), r"
    success: true
    exit_code: 0
    ----- stdout -----

    ----- stderr -----
    Using CPython 3.10.8
    Creating virtual environment at: .venv
    Activate with: source .venv/[BIN]/activate
    ");

    // Pin to older patch version
    expect(context.python_pin("3.10.8"), r"
    success: true
    exit_code: 0
    ----- stdout -----
    Pinned `.python-version` to `3.10.8`

    ----- stderr -----
    ");

    // Upgrade patch version
    expect(context.python_upgrade(&["3.10"]), r"
    success: true
    exit_code: 0
    ----- stdout -----

    ----- stderr -----
    Installed Python 3.10.17 in [TIME]
     + cpython-3.10.17-[PLATFORM]
    ");

    // Should respect pinned patch version
    expect(context.run_python_version(), r"
    success: true
    exit_code: 0
    ----- stdout -----
    Python 3.10.8

    ----- stderr -----
    ");
}

#[test]
fn python_transparent_upgrade_despite_venv_patch_specification() {
    let mut context = TestContext::new_with_versions(&["3.13"]);

    // Install an earlier patch version
    expect(context.python_install(&["3.10.8"], false), r"
    success: true
    exit_code: 0
    ----- stdout -----

    ----- stderr -----
    Installed Python 3.10.8 in [TIME]
     + cpython-3.10.8-[PLATFORM]
    ");

    // Create a virtual environment with a patch version
    expect(context.venv(Some("3.10.8")), r"
    success: true
    exit_code: 0
    ----- stdout -----

    ----- stderr -----
    warning: Virtual environments only record Python minor versions. You could use `uv python pin python3.10.8` to pin the full version
    Using CPython 3.10.8
    Creating virtual environment at: .venv
    Activate with: source .venv/[BIN]/activate
    ");

    expect(context.run_python_version(), r"
    success: true
    exit_code: 0
    ----- stdout -----
    Python 3.10.8

    ----- stderr -----
    ");

    // Upgrade patch version
    expect(context.python_upgrade(&["3.10"]), r"
    success: true
    exit_code: 0
    ----- stdout -----

    ----- stderr -----
    Installed Python 3.10.17 in [TIME]
     + cpython-3.10.17-[PLATFORM]
    ");

    // The virtual environment Python version is transparently upgraded.
    expect(context.run_python_version(), r"
    success: true
    exit_code: 0
    ----- stdout -----
    Python 3.10.17

    ----- stderr -----
    ");
}

#[test]
fn upgrade_keeps_the_older_patch_installed() {
    let mut context = TestContext::new_with_versions(&[]);
    context.python_install(&["3.10.8"], false);
    context.python_upgrade(&["3.10"]);
    let installed: Vec<String> =
        (0..context.registry.len()).map(|i| context.registry.entry(i).to_string()).collect();
    assert_eq!(
        installed,
        vec!["cpython-3.10.8-linux-x86_64-gnu", "cpython-3.10.17-linux-x86_64-gnu"]
    );
    let old = PythonInstallationKey::from_str("cpython-3.10.8-linux-x86_64-gnu").unwrap();
    let new = PythonInstallationKey::from_str("cpython-3.10.17-linux-x86_64-gnu").unwrap();
    assert!(context.registry.contains(&old));
    assert!(context.registry.contains(&new));
    // Both keys belong to the same anchor, which leads to the newer one.
    assert_eq!(context.registry.resolve(&old), Some(&new));
    assert_eq!(context.registry.resolve(&new), Some(&new));
}

#[test]
fn upgrade_of_a_minor_that_is_not_installed_installs_its_latest_patch() {
    let mut context = TestContext::new_with_versions(&[]);
    expect(context.python_upgrade(&["3.12"]), r"
    success: true
    exit_code: 0
    ----- stdout -----

    ----- stderr -----
    Installed Python 3.12.10 in [TIME]
     + cpython-3.12.10-[PLATFORM]
    ");
    // A minor version that the catalog does not know is left alone.
    expect(context.python_upgrade(&["3.7"]), r"
    success: true
    exit_code: 0
    ----- stdout -----

    ----- stderr -----
    ");
}

#[test]
fn upgrade_refuses_anything_but_minor_versions_and_changes_nothing() {
    let mut context = TestContext::new_with_versions(&[]);
    context.python_install(&["3.10.8", "3.11.8"], false);
    let refused = context.python_upgrade(&["3.11", "3.10.8"]);
    assert_eq!(refused.exit_code, 1);
    assert_eq!(refused.stderr, vec!["error: upgrade only accepts minor versions"]);
    let installed: Vec<String> =
        (0..context.registry.len()).map(|i| context.registry.entry(i).to_string()).collect();
    assert_eq!(
        installed,
        vec!["cpython-3.10.8-linux-x86_64-gnu", "cpython-3.11.8-linux-x86_64-gnu"]
    );
}

#[test]
fn upgrade_does_not_touch_other_minors_or_platforms() {
    let mut context = TestContext::new_with_versions(&[]);
    context.python_install(&["3.10.8", "3.11.8"], false);
    context.python_upgrade(&["3.11"]);
    let k310 = PythonInstallationKey::from_str("cpython-3.10.8-linux-x86_64-gnu").unwrap();
    let k311 = PythonInstallationKey::from_str("cpython-3.11.8-linux-x86_64-gnu").unwrap();
    assert_eq!(context.registry.resolve(&k310).map(|k| k.to_string()).unwrap(),
        "cpython-3.10.8-linux-x86_64-gnu");
    // 3.11.13 is for another C library and is not taken.
    assert_eq!(context.registry.resolve(&k311).map(|k| k.to_string()).unwrap(),
        "cpython-3.11.12-linux-x86_64-gnu");
}

#[test]
fn install_of_what_is_installed_reports_nothing() {
    let mut context = TestContext::new_with_versions(&[]);
    context.python_install(&["3.10.8"], false);
    let again = context.python_install(&["3.10.8"], false);
    assert_eq!(again.exit_code, 0);
    assert!(again.stderr.is_empty());
    assert_eq!(context.registry.len(), 1);
    let missing = context.python_install(&["3.6.1"], false);
    assert_eq!(missing.exit_code, 1);
}

#[test]
fn install_of_an_older_patch_does_not_move_the_anchor() {
    let mut context = TestContext::new_with_versions(&[]);
    context.python_install(&["3.10.17"], false);
    context.python_install(&["3.10.8"], false);
    let old = PythonInstallationKey::from_str("cpython-3.10.8-linux-x86_64-gnu").unwrap();
    assert_eq!(context.registry.resolve(&old).map(|k| k.to_string()).unwrap(),
        "cpython-3.10.17-linux-x86_64-gnu");
    // And an upgrade has nothing to do.
    let report = context.python_upgrade(&[]);
    assert_eq!(report.stderr, vec!["All requested versions already on latest patch"]);
}

#[test]
fn retarget_moves_every_environment_of_the_anchor() {
    let mut registry = Registry::new();
    let old = PythonInstallationKey::from_str("cpython-3.10.8-linux-x86_64-gnu").unwrap();
    let new = PythonInstallationKey::from_str("cpython-3.10.17-linux-x86_64-gnu").unwrap();
    let other = PythonInstallationKey::from_str("cpython-3.11.8-linux-x86_64-gnu").unwrap();
    let threaded =
        PythonInstallationKey::from_str("cpython-3.10.8+freethreaded-linux-x86_64-gnu").unwrap();
    assert!(registry.install(old.clone()));
    assert!(registry.install(other.clone()));
    assert!(registry.install(threaded.clone()));
    assert!(!registry.install(old.clone()));
    let first = VenvBinding::new(&old);
    let second = VenvBinding::new(&old);
    let elsewhere = VenvBinding::new(&other);
    let free = VenvBinding::new(&threaded);
    assert_eq!(registry.probe(&first), Some(&old));
    assert!(registry.install(new.clone()));
    // Installing alone moves nothing.
    assert_eq!(registry.probe(&first), Some(&old));
    registry.retarget(&new);
    assert_eq!(registry.probe(&first), Some(&new));
    assert_eq!(registry.probe(&second), Some(&new));
    assert_eq!(registry.probe(&elsewhere), Some(&other));
    assert_eq!(registry.probe(&free), Some(&threaded));
    assert_eq!(registry.len(), 4);
    // An environment of a minor version that has no anchor runs nothing.
    let absent = PythonInstallationKey::from_str("cpython-3.9.1-linux-x86_64-gnu").unwrap();
    assert_eq!(registry.probe(&VenvBinding::new(&absent)), None);
}

#[test]
fn registry_from_directory_names() {
    let names: Vec<String> = [
        "cpython-3.10.8-linux-x86_64-gnu",
        ".lock",
        ".temp",
        "cpython-3.10.17-linux-x86_64-gnu",
        "cpython-3.10-linux-x86_64-gnu",
        "pypy-3.10.14-linux-x86_64-gnu",
        "cpython-3.10.8-linux-x86_64-gnu",
        "cpython-3.12.1-linux-x86_64",
        "cpython-3.13.0+freethreaded-linux-x86_64-gnu",
        "",
    ]
    .iter()
    .map(|name| name.to_string())
    .collect();
    let registry = Registry::from_names(&names);
    let installed: Vec<String> =
        (0..registry.len()).map(|i| registry.entry(i).to_string()).collect();
    assert_eq!(
        installed,
        vec![
            "cpython-3.10.8-linux-x86_64-gnu",
            "cpython-3.10.17-linux-x86_64-gnu",
            "cpython-3.10.0-linux-x86_64-gnu",
            "pypy-3.10.14-linux-x86_64-gnu",
            "cpython-3.13.0+freethreaded-linux-x86_64-gnu",
        ]
    );
    // Each minor version has an anchor that leads to the entry that came first.
    let resolved = |text: &str| {
        let key = PythonInstallationKey::from_str(text).unwrap();
        registry.resolve(&key).map(|k| k.to_string())
    };
    assert_eq!(
        resolved("cpython-3.10.99-macos-aarch64-none").as_deref(),
        Some("cpython-3.10.8-linux-x86_64-gnu")
    );
    assert_eq!(
        resolved("pypy-3.10.0-linux-x86_64-gnu").as_deref(),
        Some("pypy-3.10.14-linux-x86_64-gnu")
    );
    assert_eq!(resolved("cpython-3.13.0-linux-x86_64-gnu"), None);
    assert_eq!(Registry::from_names(&Vec::new()).len(), 0);
}
