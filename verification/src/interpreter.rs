//! What is known of one interpreter after it has been asked about itself: plain
//! values, as the introspection reported them.

use crate::implementation::{lenient_from, LenientImplementationName};
use crate::key::{KeyView, PythonInstallationKey};
use crate::platform::{Arch, Libc, Os};
use crate::version::{Prerelease, PythonVariant, PythonVersion};
use vstd::prelude::*;

verus! {

/// Where an interpreter was found.
#[derive(Clone, Copy, Debug, PartialEq, Eq, Hash, Structural)]
pub enum PythonSource {
    /// The path was given by the caller.
    ProvidedPath,
    /// The virtual environment that is active.
    ActiveEnvironment,
    /// A virtual environment in the working directory or one of its parents.
    DiscoveredEnvironment,
    /// The registry of managed interpreters.
    Managed,
    /// The search path for executables.
    SearchPath,
    /// A registry of the platform.
    Registry,
}

/// The installation paths of an environment. In the scheme of a virtual
/// environment they are relative to the environment's root.
#[derive(Clone, Debug, PartialEq, Eq)]
pub struct Scheme {
    pub purelib: String,
    pub platlib: String,
    pub scripts: String,
    pub data: String,
    pub headers: String,
}

/// One interpreter, as it described itself.
#[derive(Clone, Debug, PartialEq, Eq)]
pub struct Interpreter {
    /// `sys.implementation.name`, such as `cpython`.
    pub implementation_name: String,
    /// `platform.python_implementation()`, such as `CPython`.
    pub platform_python_implementation: String,
    pub major: u8,
    pub minor: u8,
    pub patch: u8,
    pub prerelease: Option<Prerelease>,
    pub os: Os,
    pub arch: Arch,
    pub libc: Libc,
    pub variant: PythonVariant,
    /// The scheme that a virtual environment of this interpreter has.
    pub virtualenv: Scheme,
    pub sys_executable: String,
    pub sys_base_executable: Option<String>,
    /// Whether the interpreter lives in the registry of managed interpreters.
    pub managed: bool,
    /// Whether the interpreter is a standalone distribution.
    pub standalone: bool,
    /// Whether pointers of the interpreter have 64 bits.
    pub pointer_size_64: bool,
    /// `os.name`, such as `posix`.
    pub os_name: String,
    /// `sys.platform`, such as `linux` or `darwin`.
    pub sys_platform: String,
}

/// The key that an interpreter has by its own report.
pub open spec fn interpreter_key(interpreter: Interpreter) -> KeyView {
    KeyView {
        implementation: lenient_from(interpreter.implementation_name@),
        major: interpreter.major,
        minor: interpreter.minor,
        patch: interpreter.patch,
        prerelease: interpreter.prerelease,
        os: interpreter.os,
        arch: interpreter.arch,
        libc: interpreter.libc,
        variant: interpreter.variant,
    }
}

/// The full version that an interpreter reports.
pub open spec fn interpreter_version(interpreter: Interpreter) -> PythonVersion {
    PythonVersion {
        major: interpreter.major,
        minor: interpreter.minor,
        patch: Some(interpreter.patch),
        pre: interpreter.prerelease,
    }
}

impl Interpreter {
    /// The key of the interpreter.
    pub fn key(&self) -> (r: PythonInstallationKey)
        ensures
            r@ == interpreter_key(*self),
    {
        PythonInstallationKey::new(
            LenientImplementationName::from_name(self.implementation_name.as_str()),
            self.major,
            self.minor,
            self.patch,
            self.prerelease,
            self.os,
            self.arch,
            self.libc,
            self.variant,
        )
    }

    /// The version of the interpreter.
    pub fn python_version(&self) -> (r: PythonVersion)
        ensures
            r == interpreter_version(*self),
    {
        PythonVersion::new(self.major, self.minor, Some(self.patch), self.prerelease)
    }

    pub fn implementation_name(&self) -> (r: &str)
        ensures
            r@ == self.implementation_name@,
    {
        self.implementation_name.as_str()
    }

    pub fn python_major(&self) -> (r: u8)
        ensures
            r == self.major,
    {
        self.major
    }

    pub fn python_minor(&self) -> (r: u8)
        ensures
            r == self.minor,
    {
        self.minor
    }

    pub fn python_patch(&self) -> (r: u8)
        ensures
            r == self.patch,
    {
        self.patch
    }

    pub fn arch(&self) -> (r: Arch)
        ensures
            r == self.arch,
    {
        self.arch
    }

    pub fn libc(&self) -> (r: Libc)
        ensures
            r == self.libc,
    {
        self.libc
    }

    pub fn os(&self) -> (r: Os)
        ensures
            r == self.os,
    {
        self.os
    }

    pub fn variant(&self) -> (r: PythonVariant)
        ensures
            r == self.variant,
    {
        self.variant
    }

    pub fn is_managed(&self) -> (r: bool)
        ensures
            r == self.managed,
    {
        self.managed
    }

    pub fn is_standalone(&self) -> (r: bool)
        ensures
            r == self.standalone,
    {
        self.standalone
    }

    pub fn virtualenv(&self) -> (r: &Scheme)
        ensures
            *r == self.virtualenv,
    {
        &self.virtualenv
    }
}

} // verus!
