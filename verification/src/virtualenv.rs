//! Create a virtual environment: everything that is decided before the file
//! system is touched. The result is a plan, a list of steps in the order in
//! which they are to be carried out.

use crate::interpreter::{Interpreter, Scheme};
use crate::platform::{bin_name_text, path_sep_text, TargetFamily};
use crate::text::{
    decimal, from_chars, push_decimal, replace_all, replaced, spells, to_chars,
};
use crate::version::{full_version_text, push_full_version};
use itertools::Itertools;
use vstd::prelude::*;
use vstd::string::StringExecFns;

verus! {

/// `uv_shell::escape_posix_for_single_quotes`: the text for use between single
/// quotes in a POSIX shell, in which every `'` of `s` has become `'"'"'`.
#[verifier::external_body]
fn escape_posix_for_single_quotes(s: &str) -> (r: String)
    ensures
        r@ == replaced(s@, seq!['\''], quote_escape()),
{
    uv_shell::escape_posix_for_single_quotes(s)
}

/// `uv_version::version`: the version of the tool. Nothing is known of the
/// text.
#[verifier::external_body]
fn tool_version() -> (r: String) {
    uv_version::version().to_string()
}

/// `pathdiff::diff_paths`: the relative path that leads from `base` to `path`,
/// if there is one. How paths are read depends on the platform, so nothing is
/// claimed of the result.
#[verifier::external_body]
fn diff_paths(path: &str, base: &str) -> (r: Option<String>) {
    match pathdiff::diff_paths(path, base) {
        Some(relative) => Some(relative.to_string_lossy().into_owned()),
        None => None,
    }
}

/// `Itertools::dedup`: of every run of equal neighbours the first stays.
#[verifier::external_body]
fn dedup(items: Vec<String>) -> (r: Vec<String>)
    ensures
        all_texts(r@) == deduped(all_texts(items@)),
{
    items.into_iter().dedup().collect()
}

/// `Itertools::join`: the items in order, with `sep` between each two.
#[verifier::external_body]
fn join(items: &Vec<String>, sep: &str) -> (r: String)
    ensures
        r@ == joined(all_texts(items@), sep@),
{
    items.iter().join(sep)
}

/// What stands in for a `'` between single quotes.
pub open spec fn quote_escape() -> Seq<char> {
    seq!['\'', '"', '\'', '"', '\'']
}

/// The texts of a sequence of strings.
pub open spec fn all_texts(items: Seq<String>) -> Seq<Seq<char>> {
    Seq::new(items.len(), |i: int| items[i]@)
}

/// `s` without the elements that equal the one before them.
pub open spec fn deduped(s: Seq<Seq<char>>) -> Seq<Seq<char>>
    decreases s.len(),
{
    if s.len() <= 1 {
        s
    } else if s.last() == s[s.len() - 2] {
        deduped(s.drop_last())
    } else {
        deduped(s.drop_last()).push(s.last())
    }
}

/// The elements of `s` in order, with `sep` between each two.
pub open spec fn joined(s: Seq<Seq<char>>, sep: Seq<char>) -> Seq<char>
    decreases s.len(),
{
    if s.len() == 0 {
        Seq::<char>::empty()
    } else if s.len() == 1 {
        s[0]
    } else {
        joined(s.drop_last(), sep) + sep + s.last()
    }
}

/// How the prompt of an environment is chosen.
#[derive(Clone, Debug, PartialEq, Eq)]
pub enum Prompt {
    /// The name of the working directory.
    CurrentDirectoryName,
    /// The text given.
    Static(String),
    /// No prompt.
    NoPrompt,
}

/// What stands at the place where the environment is to be.
#[derive(Clone, Debug, PartialEq, Eq)]
pub enum LocationState {
    /// Nothing.
    Missing,
    /// A regular file.
    File,
    /// A directory; whether it holds a `pyvenv.cfg` file, and whether it holds
    /// nothing at all.
    Directory { is_venv: bool, is_empty: bool },
    /// Something that is neither a file nor a directory.
    Other,
    /// It could not be looked at, for the reason given.
    Inaccessible(String),
}

/// What is to be done with the location before the environment is built.
#[derive(Clone, Copy, Debug, PartialEq, Eq, Hash, Structural)]
pub enum Preparation {
    /// Create the directory.
    Create,
    /// Take what is there.
    Keep,
    /// Remove the directory with all that it holds, and create it anew.
    Recreate,
}

/// Why an environment cannot be created.
#[derive(Clone, Debug, PartialEq, Eq)]
pub enum VenvError {
    /// A file stands at the location; the location as it is shown to people.
    FileExists(String),
    /// A directory stands at the location that holds something and is no
    /// virtual environment.
    NotAVirtualEnvironment(String),
    /// The file system failed.
    Io(String),
    /// The interpreter has no parent directory.
    NoParentDirectory,
    /// No relative path leads from the scripts directory to `site-packages`.
    NoRelativePath,
}

/// The mathematical value of a [`VenvError`].
pub enum VenvErrorView {
    FileExists(Seq<char>),
    NotAVirtualEnvironment(Seq<char>),
    Io(Seq<char>),
    NoParentDirectory,
    NoRelativePath,
}

impl View for VenvError {
    type V = VenvErrorView;

    open spec fn view(&self) -> VenvErrorView {
        match self {
            VenvError::FileExists(at) => VenvErrorView::FileExists(at@),
            VenvError::NotAVirtualEnvironment(at) => VenvErrorView::NotAVirtualEnvironment(at@),
            VenvError::Io(reason) => VenvErrorView::Io(reason@),
            VenvError::NoParentDirectory => VenvErrorView::NoParentDirectory,
            VenvError::NoRelativePath => VenvErrorView::NoRelativePath,
        }
    }
}

/// A directory of the environment.
#[derive(Clone, Copy, Debug, PartialEq, Eq, Hash, Structural)]
pub enum Dir {
    /// The root of the environment.
    Root,
    /// The directory of executables and activation scripts.
    Scripts,
    /// The `site-packages` directory.
    SitePackages,
}

/// One step of building an environment.
#[derive(Clone, Debug, PartialEq, Eq)]
pub enum Step {
    /// If the running executable lives below the root, arrange for it to be
    /// replaced before the root is removed.
    GuardSelfDelete,
    /// Remove the root with all that it holds.
    RemoveTree,
    /// Create the root and the directories above it.
    CreateRoot,
    /// Put the cache directory tag into the root.
    CacheDirTag,
    /// Create a directory and the directories above it.
    CreateDir(Dir),
    /// Write a file.
    WriteFile { dir: Dir, name: String, contents: String },
    /// In the scripts directory, make `name` a symbolic link to `target`,
    /// replacing what is there.
    Link { name: String, target: String },
    /// In the scripts directory, make `name` a launcher for `target`.
    Trampoline { name: String, target: String },
    /// Make `lib64` in the root a symbolic link to `lib`, unless it exists.
    LinkLib64,
}

/// The mathematical value of a [`Step`].
pub enum StepView {
    GuardSelfDelete,
    RemoveTree,
    CreateRoot,
    CacheDirTag,
    CreateDir(Dir),
    WriteFile { dir: Dir, name: Seq<char>, contents: Seq<char> },
    Link { name: Seq<char>, target: Seq<char> },
    Trampoline { name: Seq<char>, target: Seq<char> },
    LinkLib64,
}

impl View for Step {
    type V = StepView;

    open spec fn view(&self) -> StepView {
        match self {
            Step::GuardSelfDelete => StepView::GuardSelfDelete,
            Step::RemoveTree => StepView::RemoveTree,
            Step::CreateRoot => StepView::CreateRoot,
            Step::CacheDirTag => StepView::CacheDirTag,
            Step::CreateDir(dir) => StepView::CreateDir(*dir),
            Step::WriteFile { dir, name, contents } => StepView::WriteFile {
                dir: *dir,
                name: name@,
                contents: contents@,
            },
            Step::Link { name, target } => StepView::Link { name: name@, target: target@ },
            Step::Trampoline { name, target } => StepView::Trampoline {
                name: name@,
                target: target@,
            },
            Step::LinkLib64 => StepView::LinkLib64,
        }
    }
}

/// The values of a list of steps.
pub open spec fn step_views(steps: Seq<Step>) -> Seq<StepView> {
    Seq::new(steps.len(), |i: int| steps[i]@)
}

/// The names of the launchers that an environment on Windows may hold.
#[derive(Clone, Copy, Debug, PartialEq, Eq, Hash, Structural)]
pub enum WindowsExecutable {
    /// The `python.exe` executable (or `venvlauncher.exe` launcher shim).
    Python,
    /// The `python3.exe` executable (or `venvlauncher.exe` launcher shim).
    PythonMajor,
    /// The `python3.<minor>.exe` executable (or `venvlauncher.exe` launcher shim).
    PythonMajorMinor,
    /// The `pythonw.exe` executable (or `venvwlauncher.exe` launcher shim).
    Pythonw,
    /// The `pypy.exe` executable.
    PyPy,
    /// The `pypy3.exe` executable.
    PyPyMajor,
    /// The `pypy3.<minor>.exe` executable.
    PyPyMajorMinor,
    /// The `pypyw.exe` executable.
    PyPyw,
    /// The `pypy3.<minor>w.exe` executable.
    PyPyMajorMinorw,
    /// The `graalpy.exe` executable.
    GraalPy,
}

/// What the caller wants of the environment.
#[derive(Clone, Debug, PartialEq, Eq)]
pub struct VenvOptions {
    pub prompt: Prompt,
    pub system_site_packages: bool,
    pub allow_existing: bool,
    pub relocatable: bool,
    pub seed: bool,
}

/// What was found out about the machine and the location before planning.
#[derive(Clone, Debug, PartialEq, Eq)]
pub struct VenvSite {
    pub family: TargetFamily,
    /// What stands at the location.
    pub state: LocationState,
    /// The location as it is shown to people.
    pub display: String,
    /// The absolute location.
    pub absolute: String,
    /// The name of the working directory, if it has one.
    pub cwd_name: Option<String>,
    /// What the `python` of the environment leads to.
    pub executable_target: String,
    /// The directory of `executable_target`, if it has one.
    pub python_home: Option<String>,
    /// The activation scripts: the name of each with its template.
    pub templates: Vec<(String, String)>,
    /// The text of `_virtualenv.py`.
    pub patch_source: String,
}

/// The plan for an environment.
#[derive(Clone, Debug, PartialEq, Eq)]
pub struct VenvPlan {
    /// What is to be done, in order.
    pub steps: Vec<Step>,
    /// The name of the environment's interpreter in the scripts directory.
    pub executable: String,
    /// The prompt of the environment, if it has one.
    pub prompt: Option<String>,
}

/// How the base executable of an environment is found.
#[derive(Clone, Copy, Debug, PartialEq, Eq, Hash, Structural)]
pub enum BasePython {
    /// Follow the chain of symbolic links from the interpreter to its anchor in
    /// the registry.
    FollowLinks,
    /// Take what the interpreter reports as its base executable.
    Reported,
}

/// The name of a launcher.
pub open spec fn windows_executable_text(kind: WindowsExecutable, major: u8, minor: u8) -> Seq<
    char,
> {
    match kind {
        WindowsExecutable::Python => "python.exe"@,
        WindowsExecutable::PythonMajor => "python"@ + decimal(major as nat) + ".exe"@,
        WindowsExecutable::PythonMajorMinor => "python"@ + decimal(major as nat) + seq!['.']
            + decimal(minor as nat) + ".exe"@,
        WindowsExecutable::Pythonw => "pythonw.exe"@,
        WindowsExecutable::PyPy => "pypy.exe"@,
        WindowsExecutable::PyPyMajor => "pypy"@ + decimal(major as nat) + ".exe"@,
        WindowsExecutable::PyPyMajorMinor => "pypy"@ + decimal(major as nat) + seq!['.'] + decimal(
            minor as nat,
        ) + ".exe"@,
        WindowsExecutable::PyPyw => "pypyw.exe"@,
        WindowsExecutable::PyPyMajorMinorw => "pypy"@ + decimal(major as nat) + seq!['.']
            + decimal(minor as nat) + "w.exe"@,
        WindowsExecutable::GraalPy => "graalpy.exe"@,
    }
}

/// Whether the location can take an environment, and what is to be done with
/// it first. A file is refused. A directory is taken as it is if existing ones
/// are allowed; else it is made anew if it is a virtual environment, taken if it
/// is empty, and refused otherwise.
pub open spec fn location_verdict(
    state: LocationState,
    display: Seq<char>,
    allow_existing: bool,
) -> Result<Preparation, VenvErrorView> {
    match state {
        LocationState::Missing => Ok(Preparation::Create),
        LocationState::File => Err(VenvErrorView::FileExists(display)),
        LocationState::Directory { is_venv, is_empty } => {
            if allow_existing {
                Ok(Preparation::Keep)
            } else if is_venv {
                Ok(Preparation::Recreate)
            } else if is_empty {
                Ok(Preparation::Keep)
            } else {
                Err(VenvErrorView::NotAVirtualEnvironment(display))
            }
        },
        LocationState::Other => Ok(Preparation::Keep),
        LocationState::Inaccessible(reason) => Err(VenvErrorView::Io(reason@)),
    }
}

/// The steps that prepare the location.
pub open spec fn preparation_steps(prep: Preparation, family: TargetFamily) -> Seq<StepView> {
    match prep {
        Preparation::Create => seq![StepView::CreateRoot],
        Preparation::Keep => Seq::<StepView>::empty(),
        Preparation::Recreate => match family {
            TargetFamily::Windows => seq![
                StepView::GuardSelfDelete,
                StepView::RemoveTree,
                StepView::CreateRoot,
            ],
            TargetFamily::Unix => seq![StepView::RemoveTree, StepView::CreateRoot],
        },
    }
}

/// The text of a string that may be absent.
pub open spec fn optional_text(s: Option<String>) -> Option<Seq<char>> {
    match s {
        Some(p) => Some(p@),
        None => None,
    }
}

/// The prompt of the environment.
pub open spec fn prompt_text(prompt: Prompt, cwd_name: Option<String>) -> Option<Seq<char>> {
    match prompt {
        Prompt::CurrentDirectoryName => match cwd_name {
            Some(name) => Some(name@),
            None => None,
        },
        Prompt::Static(value) => Some(value@),
        Prompt::NoPrompt => None,
    }
}

pub open spec fn link(name: Seq<char>, target: Seq<char>) -> StepView {
    StepView::Link { name, target }
}

/// The symbolic links of an environment on Unix: `python` leads to the target,
/// and every other name leads to `python` beside it.
pub open spec fn unix_link_steps(interpreter: Interpreter, target: Seq<char>) -> Seq<StepView> {
    let major = decimal(interpreter.major as nat);
    let minor = decimal(interpreter.minor as nat);
    seq![
        link("python"@, target),
        link("python"@ + major, "python"@),
        link("python"@ + major + seq!['.'] + minor, "python"@),
    ] + (if interpreter.implementation_name@ == "pypy"@ {
        seq![link("pypy"@ + major, "python"@), link("pypy"@, "python"@)]
    } else {
        Seq::<StepView>::empty()
    }) + (if interpreter.implementation_name@ == "graalpy"@ {
        seq![link("graalpy"@, "python"@)]
    } else {
        Seq::<StepView>::empty()
    })
}

/// The launchers of an environment on Windows.
pub open spec fn windows_kinds(interpreter: Interpreter) -> Seq<WindowsExecutable> {
    seq![WindowsExecutable::Python] + (if interpreter.implementation_name@ == "graalpy"@ {
        seq![
            WindowsExecutable::GraalPy,
            WindowsExecutable::PythonMajor,
            WindowsExecutable::Pythonw,
        ]
    } else {
        Seq::<WindowsExecutable>::empty()
    }) + (if interpreter.implementation_name@ == "pypy"@ {
        seq![
            WindowsExecutable::PythonMajor,
            WindowsExecutable::PythonMajorMinor,
            WindowsExecutable::PyPy,
            WindowsExecutable::PyPyMajor,
            WindowsExecutable::PyPyMajorMinor,
            WindowsExecutable::PyPyw,
            WindowsExecutable::PyPyMajorMinorw,
        ]
    } else {
        Seq::<WindowsExecutable>::empty()
    })
}

/// One launcher step for each kind, all for the same target.
pub open spec fn trampoline_steps(
    kinds: Seq<WindowsExecutable>,
    interpreter: Interpreter,
    target: Seq<char>,
) -> Seq<StepView> {
    Seq::new(
        kinds.len(),
        |i: int|
            StepView::Trampoline {
                name: windows_executable_text(kinds[i], interpreter.major, interpreter.minor),
                target,
            },
    )
}

/// The steps that put the executables into the scripts directory.
pub open spec fn executable_steps(
    family: TargetFamily,
    interpreter: Interpreter,
    target: Seq<char>,
) -> Seq<StepView> {
    match family {
        TargetFamily::Unix => unix_link_steps(interpreter, target),
        TargetFamily::Windows => trampoline_steps(windows_kinds(interpreter), interpreter, target),
    }
}

/// What an activation script takes for the directory of the environment. A
/// relocatable `activate`, `activate.bat` or `activate.fish` finds the directory
/// when it runs; every other script holds the location, escaped for use between
/// single quotes.
pub open spec fn virtual_env_dir_text(relocatable: bool, name: Seq<char>, location: Seq<char>) -> Seq<
    char,
> {
    if relocatable && name == "activate"@ {
        "'\"$(dirname -- \"$(dirname -- \"$(realpath -- \"$SCRIPT_PATH\")\")\")\"'"@
    } else if relocatable && name == "activate.bat"@ {
        "%~dp0.."@
    } else if relocatable && name == "activate.fish"@ {
        "'\"$(dirname -- \"$(cd \"$(dirname -- \"$(status -f)\")\"; and pwd)\")\"'"@
    } else {
        replaced(location, seq!['\''], quote_escape())
    }
}

/// What fills the placeholders of an activation script.
pub struct Fillers {
    pub virtual_env_dir: Seq<char>,
    pub bin_name: Seq<char>,
    pub prompt: Seq<char>,
    pub path_sep: Seq<char>,
    pub relative_site_packages: Seq<char>,
}

/// An activation script: its template with every placeholder filled, one
/// placeholder after the other.
pub open spec fn rendered(template: Seq<char>, f: Fillers) -> Seq<char> {
    replaced(
        replaced(
            replaced(
                replaced(
                    replaced(template, "{{ VIRTUAL_ENV_DIR }}"@, f.virtual_env_dir),
                    "{{ BIN_NAME }}"@,
                    f.bin_name,
                ),
                "{{ VIRTUAL_PROMPT }}"@,
                f.prompt,
            ),
            "{{ PATH_SEP }}"@,
            f.path_sep,
        ),
        "{{ RELATIVE_SITE_PACKAGES }}"@,
        f.relative_site_packages,
    )
}

/// What fills the placeholders of the script `name`.
pub open spec fn fillers_for(
    name: Seq<char>,
    family: TargetFamily,
    relocatable: bool,
    location: Seq<char>,
    prompt: Option<Seq<char>>,
    relative_site_packages: Seq<char>,
) -> Fillers {
    Fillers {
        virtual_env_dir: virtual_env_dir_text(relocatable, name, location),
        bin_name: bin_name_text(family),
        prompt: match prompt {
            Some(p) => p,
            None => Seq::<char>::empty(),
        },
        path_sep: path_sep_text(family),
        relative_site_packages,
    }
}

/// The steps that write the activation scripts, one for each template.
pub open spec fn activator_steps(
    templates: Seq<(String, String)>,
    family: TargetFamily,
    relocatable: bool,
    location: Seq<char>,
    prompt: Option<Seq<char>>,
    relative_site_packages: Seq<char>,
) -> Seq<StepView> {
    Seq::new(
        templates.len(),
        |i: int|
            StepView::WriteFile {
                dir: Dir::Scripts,
                name: templates[i].0@,
                contents: rendered(
                    templates[i].1@,
                    fillers_for(
                        templates[i].0@,
                        family,
                        relocatable,
                        location,
                        prompt,
                        relative_site_packages,
                    ),
                ),
            },
    )
}

/// The relative path as it is written into a script: every `\` doubled.
pub open spec fn script_path_text(path: Seq<char>) -> Seq<char> {
    replaced(path, seq!['\\'], seq!['\\', '\\'])
}

/// The directories that hold packages: `purelib` and `platlib`, once if they
/// are the same.
pub open spec fn package_dirs(scheme: Scheme) -> Seq<Seq<char>> {
    deduped(seq![scheme.purelib@, scheme.platlib@])
}

/// The entry for `site-packages` in the activation scripts, made of the
/// relative paths to the package directories.
pub open spec fn site_packages_entry_text(relative: Seq<Seq<char>>, family: TargetFamily) -> Seq<
    char,
> {
    joined(Seq::new(relative.len(), |i: int| script_path_text(relative[i])), path_sep_text(family))
}

/// One line of `pyvenv.cfg` for each entry: the key, ` = `, the value.
pub open spec fn cfg_text(data: Seq<(String, String)>) -> Seq<char>
    decreases data.len(),
{
    if data.len() == 0 {
        Seq::<char>::empty()
    } else {
        cfg_text(data.drop_last()) + data.last().0@ + " = "@ + data.last().1@ + seq!['\n']
    }
}

pub open spec fn entry_views(data: Seq<(String, String)>) -> Seq<(Seq<char>, Seq<char>)> {
    Seq::new(data.len(), |i: int| (data[i].0@, data[i].1@))
}

/// The same lines, over the texts of the entries.
pub open spec fn cfg_lines(data: Seq<(Seq<char>, Seq<char>)>) -> Seq<char>
    decreases data.len(),
{
    if data.len() == 0 {
        Seq::<char>::empty()
    } else {
        cfg_lines(data.drop_last()) + data.last().0 + " = "@ + data.last().1 + seq!['\n']
    }
}

pub open spec fn flag_text(flag: bool) -> Seq<char> {
    if flag {
        "true"@
    } else {
        "false"@
    }
}

/// The command of the launcher of GraalPy on Windows, in the home directory.
pub open spec fn graalpy_launcher_text(home: Seq<char>) -> Seq<char> {
    if home.len() > 0 && (home.last() == '\\' || home.last() == '/') {
        home + "graalpy.exe"@
    } else {
        home + "\\graalpy.exe"@
    }
}

/// The entries of `pyvenv.cfg`.
pub open spec fn cfg_entries(
    interpreter: Interpreter,
    family: TargetFamily,
    home: Seq<char>,
    tool_version: Seq<char>,
    system_site_packages: bool,
    relocatable: bool,
    seed: bool,
    prompt: Option<Seq<char>>,
) -> Seq<(Seq<char>, Seq<char>)> {
    seq![
        ("home"@, home),
        ("implementation"@, interpreter.platform_python_implementation@),
        ("uv"@, tool_version),
        (
            "version_info"@,
            full_version_text(
                interpreter.major,
                interpreter.minor,
                interpreter.patch,
                interpreter.prerelease,
            ),
        ),
        ("include-system-site-packages"@, flag_text(system_site_packages)),
    ] + (if relocatable {
        seq![("relocatable"@, "true"@)]
    } else {
        Seq::<(Seq<char>, Seq<char>)>::empty()
    }) + (if seed {
        seq![("seed"@, "true"@)]
    } else {
        Seq::<(Seq<char>, Seq<char>)>::empty()
    }) + (match prompt {
        Some(p) => seq![("prompt"@, p)],
        None => Seq::<(Seq<char>, Seq<char>)>::empty(),
    }) + (if family == TargetFamily::Windows && interpreter.implementation_name@ == "graalpy"@ {
        seq![("venvlauncher_command"@, graalpy_launcher_text(home))]
    } else {
        Seq::<(Seq<char>, Seq<char>)>::empty()
    })
}

/// Whether `lib64` is to lead to `lib`: on Unix, for a 64-bit interpreter on a
/// POSIX system other than Darwin.
pub open spec fn wants_lib64(family: TargetFamily, interpreter: Interpreter) -> bool {
    family == TargetFamily::Unix && interpreter.pointer_size_64 && interpreter.os_name@ == "posix"@
        && interpreter.sys_platform@ != "darwin"@
}

/// The first steps: the location is prepared, tagged as a cache directory and
/// hidden from version control, and the scripts directory is created.
pub open spec fn head_steps(prep: Preparation, family: TargetFamily) -> Seq<StepView> {
    preparation_steps(prep, family) + seq![
        StepView::CacheDirTag,
        StepView::WriteFile { dir: Dir::Root, name: ".gitignore"@, contents: "*"@ },
        StepView::CreateDir(Dir::Scripts),
    ]
}

/// The last steps: `site-packages` is created and filled, and `pyvenv.cfg` is
/// written.
pub open spec fn tail_steps(
    site: VenvSite,
    interpreter: Interpreter,
    options: VenvOptions,
    tool_version: Seq<char>,
) -> Seq<StepView> {
    seq![StepView::CreateDir(Dir::SitePackages)] + (if wants_lib64(site.family, interpreter) {
        seq![StepView::LinkLib64]
    } else {
        Seq::<StepView>::empty()
    }) + seq![
        StepView::WriteFile {
            dir: Dir::SitePackages,
            name: "_virtualenv.py"@,
            contents: site.patch_source@,
        },
        StepView::WriteFile {
            dir: Dir::SitePackages,
            name: "_virtualenv.pth"@,
            contents: "import _virtualenv"@,
        },
        StepView::WriteFile {
            dir: Dir::Root,
            name: "pyvenv.cfg"@,
            contents: cfg_lines(
                cfg_entries(
                    interpreter,
                    site.family,
                    site.python_home->0@,
                    tool_version,
                    options.system_site_packages,
                    options.relocatable,
                    options.seed,
                    prompt_text(options.prompt, site.cwd_name),
                ),
            ),
        },
    ]
}

/// All steps of building an environment, in order: the first steps, the
/// executables, the activation scripts, the last steps. The file `pyvenv.cfg`,
/// by which an environment is known, is written last.
pub open spec fn plan_steps(
    site: VenvSite,
    interpreter: Interpreter,
    options: VenvOptions,
    prep: Preparation,
    tool_version: Seq<char>,
    relative_site_packages: Seq<char>,
) -> Seq<StepView> {
    head_steps(prep, site.family) + executable_steps(
        site.family,
        interpreter,
        site.executable_target@,
    ) + activator_steps(
        site.templates@,
        site.family,
        options.relocatable,
        site.absolute@,
        prompt_text(options.prompt, site.cwd_name),
        relative_site_packages,
    ) + tail_steps(site, interpreter, options, tool_version)
}

/// Whether `plan` is the plan for an environment, given the version of the
/// tool and the entry for `site-packages`.
pub open spec fn is_plan_for(
    plan: VenvPlan,
    site: VenvSite,
    interpreter: Interpreter,
    options: VenvOptions,
    prep: Preparation,
    tool_version: Seq<char>,
    relative_site_packages: Seq<char>,
) -> bool {
    &&& step_views(plan.steps@) == plan_steps(
        site,
        interpreter,
        options,
        prep,
        tool_version,
        relative_site_packages,
    )
    &&& plan.executable@ == "python"@ + crate::platform::exe_suffix_text(site.family)
    &&& match (plan.prompt, prompt_text(options.prompt, site.cwd_name)) {
        (Some(p), Some(q)) => p@ == q,
        (None, None) => true,
        _ => false,
    }
}

/// The file by which an environment is known is written by the last step of
/// its plan, so nobody who looks for that file finds an environment that is not
/// complete.
pub proof fn lemma_cfg_is_written_last(
    site: VenvSite,
    interpreter: Interpreter,
    options: VenvOptions,
    prep: Preparation,
    tool_version: Seq<char>,
    relative_site_packages: Seq<char>,
)
    ensures
        plan_steps(site, interpreter, options, prep, tool_version, relative_site_packages).len()
            > 0,
        plan_steps(site, interpreter, options, prep, tool_version, relative_site_packages).last()
            matches StepView::WriteFile { dir, name, .. } && dir == Dir::Root && name
            == "pyvenv.cfg"@,
{
}

proof fn lemma_step_views_push(steps: Seq<Step>, step: Step)
    ensures
        step_views(steps.push(step)) == step_views(steps).push(step@),
{
    assert(step_views(steps.push(step)) =~= step_views(steps).push(step@));
}

proof fn lemma_step_views_add(a: Seq<Step>, b: Seq<Step>)
    ensures
        step_views(a + b) == step_views(a) + step_views(b),
{
    assert(step_views(a + b) =~= step_views(a) + step_views(b));
}

impl VenvError {
    /// The sentence that tells a person what went wrong.
    pub fn to_string(&self) -> (r: String)
        ensures
            r@ == match self@ {
                VenvErrorView::FileExists(at) => "File exists at `"@ + at + "`"@,
                VenvErrorView::NotAVirtualEnvironment(at) => "The directory `"@ + at
                    + "` exists, but it's not a virtual environment"@,
                VenvErrorView::Io(reason) => reason,
                VenvErrorView::NoParentDirectory =>
                    "The Python interpreter needs to have a parent directory"@,
                VenvErrorView::NoRelativePath =>
                    "Failed to calculate relative path to site-packages"@,
            },
    {
        match self {
            VenvError::FileExists(at) => {
                let mut out = String::from_str("File exists at `");
                out.append(at.as_str());
                out.append("`");
                out
            },
            VenvError::NotAVirtualEnvironment(at) => {
                let mut out = String::from_str("The directory `");
                out.append(at.as_str());
                out.append("` exists, but it's not a virtual environment");
                out
            },
            VenvError::Io(reason) => reason.clone(),
            VenvError::NoParentDirectory => String::from_str(
                "The Python interpreter needs to have a parent directory",
            ),
            VenvError::NoRelativePath => String::from_str(
                "Failed to calculate relative path to site-packages",
            ),
        }
    }
}

impl WindowsExecutable {
    /// The name of the Python executable.
    pub fn exe(self, interpreter: &Interpreter) -> (r: String)
        ensures
            r@ == windows_executable_text(self, interpreter.major, interpreter.minor),
    {
        let major = interpreter.python_major() as u64;
        let minor = interpreter.python_minor() as u64;
        match self {
            WindowsExecutable::Python => String::from_str("python.exe"),
            WindowsExecutable::PythonMajor => {
                let mut out = String::from_str("python");
                push_decimal(&mut out, major);
                out.append(".exe");
                out
            },
            WindowsExecutable::PythonMajorMinor => {
                let mut out = String::from_str("python");
                push_decimal(&mut out, major);
                out.push('.');
                push_decimal(&mut out, minor);
                out.append(".exe");
                out
            },
            WindowsExecutable::Pythonw => String::from_str("pythonw.exe"),
            WindowsExecutable::PyPy => String::from_str("pypy.exe"),
            WindowsExecutable::PyPyMajor => {
                let mut out = String::from_str("pypy");
                push_decimal(&mut out, major);
                out.append(".exe");
                out
            },
            WindowsExecutable::PyPyMajorMinor => {
                let mut out = String::from_str("pypy");
                push_decimal(&mut out, major);
                out.push('.');
                push_decimal(&mut out, minor);
                out.append(".exe");
                out
            },
            WindowsExecutable::PyPyw => String::from_str("pypyw.exe"),
            WindowsExecutable::PyPyMajorMinorw => {
                let mut out = String::from_str("pypy");
                push_decimal(&mut out, major);
                out.push('.');
                push_decimal(&mut out, minor);
                out.append("w.exe");
                out
            },
            WindowsExecutable::GraalPy => String::from_str("graalpy.exe"),
        }
    }
}

/// The steps that make one launcher for each of `executable_kinds`, all leading
/// to `executable`.
pub fn create_venv_trampoline_windows(
    executable: &str,
    executable_kinds: &Vec<WindowsExecutable>,
    interpreter: &Interpreter,
) -> (steps: Vec<Step>)
    ensures
        step_views(steps@) == trampoline_steps(executable_kinds@, *interpreter, executable@),
{
    let mut steps: Vec<Step> = Vec::new();
    let mut i: usize = 0;
    while i < executable_kinds.len()
        invariant
            i <= executable_kinds.len(),
            steps@.len() == i,
            forall|k: int|
                0 <= k < i ==> (#[trigger] steps@[k])@ == (StepView::Trampoline {
                    name: windows_executable_text(
                        executable_kinds@[k],
                        interpreter.major,
                        interpreter.minor,
                    ),
                    target: executable@,
                }),
        decreases executable_kinds.len() - i,
    {
        let name = executable_kinds[i].exe(interpreter);
        steps.push(Step::Trampoline { name, target: String::from_str(executable) });
        i += 1;
    }
    proof {
        assert(step_views(steps@) =~= trampoline_steps(
            executable_kinds@,
            *interpreter,
            executable@,
        ));
    }
    steps
}

/// Very basic `.cfg` file format writer: appends one line for each entry.
pub fn write_cfg(f: &mut String, data: &Vec<(String, String)>)
    ensures
        final(f)@ == old(f)@ + cfg_text(data@),
{
    let mut i: usize = 0;
    proof {
        assert(data@.take(0) =~= Seq::<(String, String)>::empty());
        assert(old(f)@ + Seq::<char>::empty() =~= old(f)@);
    }
    while i < data.len()
        invariant
            i <= data.len(),
            f@ == old(f)@ + cfg_text(data@.take(i as int)),
        decreases data.len() - i,
    {
        let ghost before = f@;
        let entry = &data[i];
        f.append(entry.0.as_str());
        f.append(" = ");
        f.append(entry.1.as_str());
        f.push('\n');
        proof {
            let next = data@.take(i + 1);
            assert(next.drop_last() =~= data@.take(i as int));
            assert(next.last() == data@[i as int]);
            assert(f@ =~= old(f)@ + cfg_text(next));
        }
        i += 1;
    }
    proof {
        assert(data@.take(data@.len() as int) =~= data@);
    }
}

/// How the base executable of an environment is found: by following links for
/// a standalone interpreter on Unix, else from the interpreter's own report.
pub fn base_python_choice(family: TargetFamily, interpreter: &Interpreter) -> (r: BasePython)
    ensures
        r == (if family == TargetFamily::Unix && interpreter.standalone {
            BasePython::FollowLinks
        } else {
            BasePython::Reported
        }),
{
    match family {
        TargetFamily::Unix => {
            if interpreter.is_standalone() {
                BasePython::FollowLinks
            } else {
                BasePython::Reported
            }
        },
        TargetFamily::Windows => BasePython::Reported,
    }
}

/// Whether the environment is bound to the anchor of the interpreter's minor
/// version in the registry, and not to the base executable itself.
pub fn binds_to_anchor(interpreter: &Interpreter) -> (r: bool)
    ensures
        r == interpreter.managed,
{
    interpreter.is_managed()
}

/// Judges the location.
pub fn check_location(state: &LocationState, display: &str, allow_existing: bool) -> (r: Result<
    Preparation,
    VenvError,
>)
    ensures
        match (location_verdict(*state, display@, allow_existing), r) {
            (Ok(expected), Ok(found)) => found == expected,
            (Err(expected), Err(found)) => found@ == expected,
            _ => false,
        },
{
    match state {
        LocationState::Missing => Ok(Preparation::Create),
        LocationState::File => Err(VenvError::FileExists(String::from_str(display))),
        LocationState::Directory { is_venv, is_empty } => {
            if allow_existing {
                Ok(Preparation::Keep)
            } else if *is_venv {
                Ok(Preparation::Recreate)
            } else if *is_empty {
                Ok(Preparation::Keep)
            } else {
                Err(VenvError::NotAVirtualEnvironment(String::from_str(display)))
            }
        },
        LocationState::Other => Ok(Preparation::Keep),
        LocationState::Inaccessible(reason) => Err(VenvError::Io(reason.clone())),
    }
}

/// The prompt of the environment.
pub fn resolve_prompt(prompt: &Prompt, cwd_name: &Option<String>) -> (r: Option<String>)
    ensures
        match (r, prompt_text(*prompt, *cwd_name)) {
            (Some(p), Some(q)) => p@ == q,
            (None, None) => true,
            _ => false,
        },
{
    match prompt {
        Prompt::CurrentDirectoryName => match cwd_name {
            Some(name) => Some(name.clone()),
            None => None,
        },
        Prompt::Static(value) => Some(value.clone()),
        Prompt::NoPrompt => None,
    }
}

fn link_step(name: String, target: &str) -> (r: Step)
    ensures
        r@ == link(name@, target@),
{
    Step::Link { name, target: String::from_str(target) }
}

/// The steps that make the symbolic links of an environment on Unix.
pub fn unix_links(interpreter: &Interpreter, target: &str) -> (steps: Vec<Step>)
    ensures
        step_views(steps@) == unix_link_steps(*interpreter, target@),
{
    let major = interpreter.python_major() as u64;
    let minor = interpreter.python_minor() as u64;
    let ghost major_text = decimal(interpreter.major as nat);
    let ghost minor_text = decimal(interpreter.minor as nat);
    let mut steps: Vec<Step> = Vec::new();
    push_step(&mut steps, link_step(String::from_str("python"), target));
    let mut with_major = String::from_str("python");
    push_decimal(&mut with_major, major);
    push_step(&mut steps, link_step(with_major, "python"));
    let mut with_minor = String::from_str("python");
    push_decimal(&mut with_minor, major);
    with_minor.push('.');
    push_decimal(&mut with_minor, minor);
    proof {
        assert(with_minor@ =~= "python"@ + major_text + seq!['.'] + minor_text);
    }
    push_step(&mut steps, link_step(with_minor, "python"));
    let ghost common = seq![
        link("python"@, target@),
        link("python"@ + major_text, "python"@),
        link("python"@ + major_text + seq!['.'] + minor_text, "python"@),
    ];
    proof {
        assert(step_views(steps@) =~= common);
    }
    let name = to_chars(interpreter.implementation_name());
    let ghost pypy = if interpreter.implementation_name@ == "pypy"@ {
        seq![link("pypy"@ + major_text, "python"@), link("pypy"@, "python"@)]
    } else {
        Seq::<StepView>::empty()
    };
    if spells(&name, "pypy") {
        let mut pypy_major = String::from_str("pypy");
        push_decimal(&mut pypy_major, major);
        push_step(&mut steps, link_step(pypy_major, "python"));
        push_step(&mut steps, link_step(String::from_str("pypy"), "python"));
    }
    proof {
        assert(step_views(steps@) =~= common + pypy);
    }
    if spells(&name, "graalpy") {
        push_step(&mut steps, link_step(String::from_str("graalpy"), "python"));
    }
    proof {
        assert(step_views(steps@) =~= unix_link_steps(*interpreter, target@));
    }
    steps
}

/// The launchers that an environment of this interpreter has on Windows.
pub fn windows_executables(interpreter: &Interpreter) -> (kinds: Vec<WindowsExecutable>)
    ensures
        kinds@ == windows_kinds(*interpreter),
{
    let mut kinds: Vec<WindowsExecutable> = Vec::new();
    kinds.push(WindowsExecutable::Python);
    let name = to_chars(interpreter.implementation_name());
    if spells(&name, "graalpy") {
        kinds.push(WindowsExecutable::GraalPy);
        kinds.push(WindowsExecutable::PythonMajor);
        kinds.push(WindowsExecutable::Pythonw);
    }
    if spells(&name, "pypy") {
        kinds.push(WindowsExecutable::PythonMajor);
        kinds.push(WindowsExecutable::PythonMajorMinor);
        kinds.push(WindowsExecutable::PyPy);
        kinds.push(WindowsExecutable::PyPyMajor);
        kinds.push(WindowsExecutable::PyPyMajorMinor);
        kinds.push(WindowsExecutable::PyPyw);
        kinds.push(WindowsExecutable::PyPyMajorMinorw);
    }
    proof {
        assert(kinds@ =~= windows_kinds(*interpreter));
    }
    kinds
}

/// What the activation script `name` takes for the directory of the
/// environment.
pub fn virtual_env_dir(relocatable: bool, name: &str, location: &str) -> (r: String)
    ensures
        r@ == virtual_env_dir_text(relocatable, name@, location@),
{
    let chars = to_chars(name);
    if relocatable && spells(&chars, "activate") {
        String::from_str(
            "'\"$(dirname -- \"$(dirname -- \"$(realpath -- \"$SCRIPT_PATH\")\")\")\"'",
        )
    } else if relocatable && spells(&chars, "activate.bat") {
        String::from_str("%~dp0..")
    } else if relocatable && spells(&chars, "activate.fish") {
        String::from_str(
            "'\"$(dirname -- \"$(cd \"$(dirname -- \"$(status -f)\")\"; and pwd)\")\"'",
        )
    } else {
        escape_posix_for_single_quotes(location)
    }
}

/// Fills one placeholder.
fn fill(text: &Vec<char>, placeholder: &str, with: &Vec<char>) -> (r: Vec<char>)
    ensures
        r@ == replaced(text@, placeholder@, with@),
{
    let pattern = to_chars(placeholder);
    replace_all(text, &pattern, with)
}

/// Fills the placeholders of an activation script.
pub fn render_activator(
    template: &str,
    virtual_env_dir: &str,
    bin_name: &str,
    prompt: &str,
    path_sep: &str,
    relative_site_packages: &str,
) -> (r: String)
    ensures
        r@ == rendered(
            template@,
            Fillers {
                virtual_env_dir: virtual_env_dir@,
                bin_name: bin_name@,
                prompt: prompt@,
                path_sep: path_sep@,
                relative_site_packages: relative_site_packages@,
            },
        ),
{
    let t0 = to_chars(template);
    let t1 = fill(&t0, "{{ VIRTUAL_ENV_DIR }}", &to_chars(virtual_env_dir));
    let t2 = fill(&t1, "{{ BIN_NAME }}", &to_chars(bin_name));
    let t3 = fill(&t2, "{{ VIRTUAL_PROMPT }}", &to_chars(prompt));
    let t4 = fill(&t3, "{{ PATH_SEP }}", &to_chars(path_sep));
    let t5 = fill(&t4, "{{ RELATIVE_SITE_PACKAGES }}", &to_chars(relative_site_packages));
    from_chars(&t5)
}

/// The entry for `site-packages` in the activation scripts, from the relative
/// paths to the package directories.
pub fn site_packages_entry(relative: &Vec<String>, family: TargetFamily) -> (r: String)
    ensures
        r@ == site_packages_entry_text(all_texts(relative@), family),
{
    let mut escaped: Vec<String> = Vec::new();
    let mut i: usize = 0;
    let backslash = vec!['\\'];
    let doubled = vec!['\\', '\\'];
    proof {
        assert(backslash@ =~= seq!['\\']);
        assert(doubled@ =~= seq!['\\', '\\']);
    }
    while i < relative.len()
        invariant
            i <= relative.len(),
            escaped@.len() == i,
            backslash@ == seq!['\\'],
            doubled@ == seq!['\\', '\\'],
            forall|k: int| 0 <= k < i ==> (#[trigger] escaped@[k])@ == script_path_text(relative@[k]@),
        decreases relative.len() - i,
    {
        let chars = to_chars(relative[i].as_str());
        let out = replace_all(&chars, &backslash, &doubled);
        escaped.push(from_chars(&out));
        i += 1;
    }
    proof {
        let rel = all_texts(relative@);
        assert(all_texts(escaped@) =~= Seq::new(rel.len(), |i: int| script_path_text(rel[i])));
    }
    join(&escaped, family.path_sep())
}

/// The text of each string that is there.
pub open spec fn optional_texts(found: Seq<Option<String>>) -> Seq<Option<Seq<char>>> {
    Seq::new(found.len(), |i: int| optional_text(found[i]))
}

/// The entry for `site-packages`, given for each package directory the
/// relative path that was found for it, if one was: the entry made of the
/// paths, or nothing if a path is missing.
pub open spec fn entry_from_found(found: Seq<Option<Seq<char>>>, family: TargetFamily) -> Option<
    Seq<char>,
> {
    if forall|i: int| 0 <= i < found.len() ==> (#[trigger] found[i]) is Some {
        Some(site_packages_entry_text(Seq::new(found.len(), |i: int| found[i]->0), family))
    } else {
        None
    }
}

/// The entry for `site-packages` in the activation scripts, from what was
/// found for each package directory: the entry made of the relative paths, or
/// nothing if for one directory no relative path was found.
pub fn site_packages_entry_from(found: &Vec<Option<String>>, family: TargetFamily) -> (r: Option<
    String,
>)
    ensures
        optional_text(r) == entry_from_found(optional_texts(found@), family),
{
    let ghost wanted = optional_texts(found@);
    let mut relative: Vec<String> = Vec::new();
    let mut i: usize = 0;
    while i < found.len()
        invariant
            i <= found.len(),
            wanted == optional_texts(found@),
            relative@.len() == i,
            forall|k: int| 0 <= k < i ==> (#[trigger] wanted[k]) is Some,
            forall|k: int| 0 <= k < i ==> (#[trigger] relative@[k])@ == wanted[k]->0,
        decreases found.len() - i,
    {
        proof {
            assert(wanted[i as int] == optional_text(found@[i as int]));
        }
        match &found[i] {
            Some(path) => {
                relative.push(path.clone());
            },
            None => {
                return None;
            },
        }
        i += 1;
    }
    let entry = site_packages_entry(&relative, family);
    proof {
        assert(all_texts(relative@) =~= Seq::new(wanted.len(), |k: int| wanted[k]->0));
    }
    Some(entry)
}

/// The entry for `site-packages` in the activation scripts of an environment
/// with this scheme. For each package directory `pathdiff` is asked for the
/// relative path that leads to it from the scripts directory; the result is
/// what [`site_packages_entry_from`] makes of the answers, so it is nothing
/// if one answer is that there is no such path.
pub fn relative_site_packages(scheme: &Scheme, family: TargetFamily) -> (r: Option<String>)
    ensures
        exists|found: Seq<Option<Seq<char>>>|
            found.len() == package_dirs(*scheme).len() && optional_text(r)
                == #[trigger] entry_from_found(found, family),
{
    let mut dirs: Vec<String> = Vec::new();
    dirs.push(scheme.purelib.clone());
    dirs.push(scheme.platlib.clone());
    proof {
        assert(all_texts(dirs@) =~= seq![scheme.purelib@, scheme.platlib@]);
    }
    let dirs = dedup(dirs);
    let mut found: Vec<Option<String>> = Vec::new();
    let mut i: usize = 0;
    while i < dirs.len()
        invariant
            i <= dirs.len(),
            found@.len() == i,
        decreases dirs.len() - i,
    {
        found.push(diff_paths(dirs[i].as_str(), scheme.scripts.as_str()));
        i += 1;
    }
    let entry = site_packages_entry_from(&found, family);
    proof {
        assert(all_texts(dirs@).len() == dirs@.len());
        assert(optional_texts(found@).len() == package_dirs(*scheme).len());
    }
    entry
}

fn flag(value: bool) -> (r: String)
    ensures
        r@ == flag_text(value),
{
    if value {
        String::from_str("true")
    } else {
        String::from_str("false")
    }
}

fn entry(key: &str, value: String) -> (r: (String, String))
    ensures
        r.0@ == key@,
        r.1@ == value@,
{
    (String::from_str(key), value)
}

/// The entries of `pyvenv.cfg`.
pub fn pyvenv_cfg_data(
    interpreter: &Interpreter,
    family: TargetFamily,
    home: &str,
    tool_version: &str,
    system_site_packages: bool,
    relocatable: bool,
    seed: bool,
    prompt: &Option<String>,
) -> (data: Vec<(String, String)>)
    ensures
        entry_views(data@) == cfg_entries(
            *interpreter,
            family,
            home@,
            tool_version@,
            system_site_packages,
            relocatable,
            seed,
            optional_text(*prompt),
        ),
{
    let mut data: Vec<(String, String)> = Vec::new();
    data.push(entry("home", String::from_str(home)));
    data.push(entry("implementation", interpreter.platform_python_implementation.clone()));
    data.push(entry("uv", String::from_str(tool_version)));
    let mut version = String::new();
    push_full_version(
        &mut version,
        interpreter.major,
        interpreter.minor,
        interpreter.patch,
        interpreter.prerelease,
    );
    proof {
        assert(Seq::<char>::empty() + full_version_text(
            interpreter.major,
            interpreter.minor,
            interpreter.patch,
            interpreter.prerelease,
        ) =~= full_version_text(
            interpreter.major,
            interpreter.minor,
            interpreter.patch,
            interpreter.prerelease,
        ));
    }
    data.push(entry("version_info", version));
    data.push(entry("include-system-site-packages", flag(system_site_packages)));
    if relocatable {
        data.push(entry("relocatable", String::from_str("true")));
    }
    if seed {
        data.push(entry("seed", String::from_str("true")));
    }
    match prompt {
        Some(p) => {
            data.push(entry("prompt", p.clone()));
        },
        None => {},
    }
    let name = to_chars(interpreter.implementation_name());
    let is_windows = match family {
        TargetFamily::Windows => true,
        TargetFamily::Unix => false,
    };
    if is_windows && spells(&name, "graalpy") {
        let home_chars = to_chars(home);
        let n = home_chars.len();
        let mut launcher = String::from_str(home);
        if n > 0 && (home_chars[n - 1] == '\\' || home_chars[n - 1] == '/') {
            launcher.append("graalpy.exe");
        } else {
            launcher.append("\\graalpy.exe");
        }
        data.push(entry("venvlauncher_command", launcher));
    }
    proof {
        assert(entry_views(data@) =~= cfg_entries(
            *interpreter,
            family,
            home@,
            tool_version@,
            system_site_packages,
            relocatable,
            seed,
            optional_text(*prompt),
        ));
    }
    data
}

proof fn lemma_cfg_text_is_lines(data: Seq<(String, String)>)
    ensures
        cfg_text(data) == cfg_lines(entry_views(data)),
    decreases data.len(),
{
    if data.len() > 0 {
        lemma_cfg_text_is_lines(data.drop_last());
        assert(entry_views(data).drop_last() =~= entry_views(data.drop_last()));
    }
}

/// Whether `lib64` is to lead to `lib`.
pub fn needs_lib64(family: TargetFamily, interpreter: &Interpreter) -> (r: bool)
    ensures
        r == wants_lib64(family, *interpreter),
{
    let is_unix = match family {
        TargetFamily::Unix => true,
        TargetFamily::Windows => false,
    };
    if !is_unix || !interpreter.pointer_size_64 {
        return false;
    }
    let os_name = to_chars(interpreter.os_name.as_str());
    let sys_platform = to_chars(interpreter.sys_platform.as_str());
    spells(&os_name, "posix") && !spells(&sys_platform, "darwin")
}

/// The steps that write the activation scripts.
fn activators(
    site: &VenvSite,
    relocatable: bool,
    prompt: &Option<String>,
    relative_site_packages: &str,
) -> (steps: Vec<Step>)
    ensures
        step_views(steps@) == activator_steps(
            site.templates@,
            site.family,
            relocatable,
            site.absolute@,
            optional_text(*prompt),
            relative_site_packages@,
        ),
{
    let ghost shown = optional_text(*prompt);
    let prompt_str: &str = match prompt {
        Some(p) => p.as_str(),
        None => "",
    };
    proof {
        reveal_strlit("");
        assert(""@ =~= Seq::<char>::empty());
    }
    let mut steps: Vec<Step> = Vec::new();
    let mut i: usize = 0;
    while i < site.templates.len()
        invariant
            i <= site.templates.len(),
            steps@.len() == i,
            prompt_str@ == (match shown {
                Some(p) => p,
                None => Seq::<char>::empty(),
            }),
            forall|k: int|
                0 <= k < i ==> (#[trigger] steps@[k])@ == (StepView::WriteFile {
                    dir: Dir::Scripts,
                    name: site.templates@[k].0@,
                    contents: rendered(
                        site.templates@[k].1@,
                        fillers_for(
                            site.templates@[k].0@,
                            site.family,
                            relocatable,
                            site.absolute@,
                            shown,
                            relative_site_packages@,
                        ),
                    ),
                }),
        decreases site.templates.len() - i,
    {
        let template = &site.templates[i];
        let dir = virtual_env_dir(relocatable, template.0.as_str(), site.absolute.as_str());
        let contents = render_activator(
            template.1.as_str(),
            dir.as_str(),
            site.family.bin_name(),
            prompt_str,
            site.family.path_sep(),
            relative_site_packages,
        );
        steps.push(Step::WriteFile { dir: Dir::Scripts, name: template.0.clone(), contents });
        i += 1;
    }
    proof {
        assert(step_views(steps@) =~= activator_steps(
            site.templates@,
            site.family,
            relocatable,
            site.absolute@,
            shown,
            relative_site_packages@,
        ));
    }
    steps
}

/// The steps that prepare the location.
fn preparation(prep: Preparation, family: TargetFamily) -> (steps: Vec<Step>)
    ensures
        step_views(steps@) == preparation_steps(prep, family),
{
    let mut steps: Vec<Step> = Vec::new();
    match prep {
        Preparation::Create => {
            steps.push(Step::CreateRoot);
        },
        Preparation::Keep => {},
        Preparation::Recreate => {
            match family {
                TargetFamily::Windows => {
                    steps.push(Step::GuardSelfDelete);
                },
                TargetFamily::Unix => {},
            }
            steps.push(Step::RemoveTree);
            steps.push(Step::CreateRoot);
        },
    }
    proof {
        assert(step_views(steps@) =~= preparation_steps(prep, family));
    }
    steps
}

/// Appends `more` to `steps`.
fn push_steps(steps: &mut Vec<Step>, more: Vec<Step>)
    ensures
        step_views(final(steps)@) == step_views(old(steps)@) + step_views(more@),
{
    let mut more = more;
    let ghost added = more@;
    steps.append(&mut more);
    proof {
        lemma_step_views_add(old(steps)@, added);
    }
}

/// Appends one step to `steps`.
fn push_step(steps: &mut Vec<Step>, step: Step)
    ensures
        step_views(final(steps)@) == step_views(old(steps)@).push(step@),
{
    steps.push(step);
    proof {
        lemma_step_views_push(old(steps)@, step);
    }
}

fn write_file(dir: Dir, name: &str, contents: String) -> (r: Step)
    ensures
        r@ == (StepView::WriteFile { dir, name: name@, contents: contents@ }),
{
    Step::WriteFile { dir, name: String::from_str(name), contents }
}

/// The first steps of a plan.
fn plan_head(prep: Preparation, family: TargetFamily) -> (steps: Vec<Step>)
    ensures
        step_views(steps@) == head_steps(prep, family),
{
    let mut steps = preparation(prep, family);
    push_step(&mut steps, Step::CacheDirTag);
    // Create a `.gitignore` file to ignore all files in the venv.
    push_step(&mut steps, write_file(Dir::Root, ".gitignore", String::from_str("*")));
    push_step(&mut steps, Step::CreateDir(Dir::Scripts));
    proof {
        assert(step_views(steps@) =~= head_steps(prep, family));
    }
    steps
}

/// The last steps of a plan.
fn plan_tail(
    site: &VenvSite,
    interpreter: &Interpreter,
    options: &VenvOptions,
    home: &str,
    tool_version: &str,
    prompt: &Option<String>,
) -> (steps: Vec<Step>)
    requires
        site.python_home is Some,
        home@ == site.python_home->0@,
        optional_text(*prompt) == prompt_text(options.prompt, site.cwd_name),
    ensures
        step_views(steps@) == tail_steps(*site, *interpreter, *options, tool_version@),
{
    let mut steps: Vec<Step> = Vec::new();
    push_step(&mut steps, Step::CreateDir(Dir::SitePackages));
    // If necessary, create a symlink from `lib64` to `lib`.
    if needs_lib64(site.family, interpreter) {
        push_step(&mut steps, Step::LinkLib64);
    }
    // Populate `site-packages` with a `_virtualenv.py` file.
    push_step(
        &mut steps,
        write_file(Dir::SitePackages, "_virtualenv.py", site.patch_source.clone()),
    );
    push_step(
        &mut steps,
        write_file(Dir::SitePackages, "_virtualenv.pth", String::from_str("import _virtualenv")),
    );
    let data = pyvenv_cfg_data(
        interpreter,
        site.family,
        home,
        tool_version,
        options.system_site_packages,
        options.relocatable,
        options.seed,
        prompt,
    );
    let mut cfg = String::new();
    write_cfg(&mut cfg, &data);
    proof {
        lemma_cfg_text_is_lines(data@);
        assert(Seq::<char>::empty() + cfg_text(data@) =~= cfg_text(data@));
    }
    push_step(&mut steps, write_file(Dir::Root, "pyvenv.cfg", cfg));
    proof {
        assert(step_views(steps@) =~= tail_steps(*site, *interpreter, *options, tool_version@));
    }
    steps
}

/// The plan for a virtual environment at a location, for an interpreter, given
/// the version of the tool and the entry for `site-packages`. The location is
/// judged first; then the interpreter must have a home.
pub fn create_with(
    site: &VenvSite,
    interpreter: &Interpreter,
    options: &VenvOptions,
    tool_version: &str,
    relative_site_packages: &str,
) -> (r: Result<VenvPlan, VenvError>)
    ensures
        match location_verdict(site.state, site.display@, options.allow_existing) {
            Err(e) => r is Err && r->Err_0@ == e,
            Ok(prep) => match site.python_home {
                None => r is Err && r->Err_0@ == VenvErrorView::NoParentDirectory,
                Some(_) => r is Ok && is_plan_for(
                    r->Ok_0,
                    *site,
                    *interpreter,
                    *options,
                    prep,
                    tool_version@,
                    relative_site_packages@,
                ),
            },
        },
{
    let prep = match check_location(&site.state, site.display.as_str(), options.allow_existing) {
        Ok(prep) => prep,
        Err(e) => {
            return Err(e);
        },
    };
    // Per PEP 405, the Python `home` is the parent directory of the interpreter.
    let home: &str = match &site.python_home {
        Some(home) => home.as_str(),
        None => {
            return Err(VenvError::NoParentDirectory);
        },
    };
    let prompt = resolve_prompt(&options.prompt, &site.cwd_name);
    let mut steps = plan_head(prep, site.family);
    // Different names for the python interpreter
    let executables = match site.family {
        TargetFamily::Unix => unix_links(interpreter, site.executable_target.as_str()),
        TargetFamily::Windows => {
            let kinds = windows_executables(interpreter);
            create_venv_trampoline_windows(site.executable_target.as_str(), &kinds, interpreter)
        },
    };
    push_steps(&mut steps, executables);
    // Add all the activate scripts for different shells
    push_steps(&mut steps, activators(site, options.relocatable, &prompt, relative_site_packages));
    push_steps(&mut steps, plan_tail(site, interpreter, options, home, tool_version, &prompt));
    let mut executable = String::from_str("python");
    executable.append(site.family.exe_suffix());
    Ok(VenvPlan { steps, executable, prompt })
}

/// Create the plan for a virtual environment at the given location. The version
/// of the tool and the relative paths to the package directories come from
/// outside, so the plan is stated for whatever they are; if no relative path is
/// found, the plan fails for that reason.
pub fn create(site: &VenvSite, interpreter: &Interpreter, options: &VenvOptions) -> (r: Result<
    VenvPlan,
    VenvError,
>)
    ensures
        match location_verdict(site.state, site.display@, options.allow_existing) {
            Err(e) => r is Err && r->Err_0@ == e,
            Ok(prep) => match site.python_home {
                None => r is Err && r->Err_0@ == VenvErrorView::NoParentDirectory,
                Some(_) => match r {
                    Ok(plan) => exists|tool_version: Seq<char>, relative: Seq<Seq<char>>|
                        relative.len() == package_dirs(interpreter.virtualenv).len()
                            && #[trigger] is_plan_for(
                            plan,
                            *site,
                            *interpreter,
                            *options,
                            prep,
                            tool_version,
                            site_packages_entry_text(relative, site.family),
                        ),
                    Err(e) => e@ == VenvErrorView::NoRelativePath,
                },
            },
        },
{
    match check_location(&site.state, site.display.as_str(), options.allow_existing) {
        Ok(_) => {},
        Err(e) => {
            return Err(e);
        },
    }
    if site.python_home.is_none() {
        return Err(VenvError::NoParentDirectory);
    }
    let entry = match relative_site_packages(&interpreter.virtualenv, site.family) {
        Some(entry) => entry,
        None => {
            return Err(VenvError::NoRelativePath);
        },
    };
    let version = tool_version();
    let planned = create_with(site, interpreter, options, version.as_str(), entry.as_str());
    proof {
        let found = choose|found: Seq<Option<Seq<char>>>|
            found.len() == package_dirs(interpreter.virtualenv).len() && Some(entry@)
                == #[trigger] entry_from_found(found, site.family);
        let relative = Seq::new(found.len(), |i: int| found[i]->0);
        let prep = location_verdict(site.state, site.display@, options.allow_existing)->Ok_0;
        assert(is_plan_for(
            planned->Ok_0,
            *site,
            *interpreter,
            *options,
            prep,
            version@,
            site_packages_entry_text(relative, site.family),
        ));
    }
    planned
}

} // verus!
