//! Platform descriptors of an interpreter build: operating system, processor
//! architecture and C library. Each has one canonical token.

use crate::text::spells;
use vstd::prelude::*;

verus! {

#[derive(Clone, Copy, Debug, PartialEq, Eq, Hash, Structural)]
pub enum Os {
    Linux,
    Macos,
    Windows,
}

#[derive(Clone, Copy, Debug, PartialEq, Eq, Hash, Structural)]
pub enum Arch {
    Aarch64,
    Armv7,
    Powerpc64le,
    Riscv64,
    S390x,
    X86,
    X86_64,
}

#[derive(Clone, Copy, Debug, PartialEq, Eq, Hash, Structural)]
pub enum Libc {
    Gnu,
    Gnueabi,
    Gnueabihf,
    Musl,
    Absent,
}

/// The family of the system that the tool itself runs on. It decides how
/// executables and directories are named.
#[derive(Clone, Copy, Debug, PartialEq, Eq, Hash, Structural)]
pub enum TargetFamily {
    Unix,
    Windows,
}

/// What the family appends to the name of an executable.
pub open spec fn exe_suffix_text(family: TargetFamily) -> Seq<char> {
    match family {
        TargetFamily::Unix => ""@,
        TargetFamily::Windows => ".exe"@,
    }
}

/// The name of the directory that holds an environment's executables.
pub open spec fn bin_name_text(family: TargetFamily) -> Seq<char> {
    match family {
        TargetFamily::Unix => "bin"@,
        TargetFamily::Windows => "Scripts"@,
    }
}

/// What separates the entries of a search path.
pub open spec fn path_sep_text(family: TargetFamily) -> Seq<char> {
    match family {
        TargetFamily::Unix => ":"@,
        TargetFamily::Windows => ";"@,
    }
}

impl TargetFamily {
    pub fn exe_suffix(self) -> (r: &'static str)
        ensures
            r@ == exe_suffix_text(self),
    {
        match self {
            TargetFamily::Unix => "",
            TargetFamily::Windows => ".exe",
        }
    }

    pub fn bin_name(self) -> (r: &'static str)
        ensures
            r@ == bin_name_text(self),
    {
        match self {
            TargetFamily::Unix => "bin",
            TargetFamily::Windows => "Scripts",
        }
    }

    pub fn path_sep(self) -> (r: &'static str)
        ensures
            r@ == path_sep_text(self),
    {
        match self {
            TargetFamily::Unix => ":",
            TargetFamily::Windows => ";",
        }
    }
}

/// The token of an operating system.
pub open spec fn os_text(os: Os) -> Seq<char> {
    match os {
        Os::Linux => "linux"@,
        Os::Macos => "macos"@,
        Os::Windows => "windows"@,
    }
}

/// The operating system that a token names.
pub open spec fn parse_os(s: Seq<char>) -> Option<Os> {
    if s == "linux"@ {
        Some(Os::Linux)
    } else if s == "macos"@ {
        Some(Os::Macos)
    } else if s == "windows"@ {
        Some(Os::Windows)
    } else {
        None
    }
}

/// The token of an architecture.
pub open spec fn arch_text(arch: Arch) -> Seq<char> {
    match arch {
        Arch::Aarch64 => "aarch64"@,
        Arch::Armv7 => "armv7"@,
        Arch::Powerpc64le => "powerpc64le"@,
        Arch::Riscv64 => "riscv64"@,
        Arch::S390x => "s390x"@,
        Arch::X86 => "x86"@,
        Arch::X86_64 => "x86_64"@,
    }
}

/// The architecture that a token names.
pub open spec fn parse_arch(s: Seq<char>) -> Option<Arch> {
    if s == "aarch64"@ {
        Some(Arch::Aarch64)
    } else if s == "armv7"@ {
        Some(Arch::Armv7)
    } else if s == "powerpc64le"@ {
        Some(Arch::Powerpc64le)
    } else if s == "riscv64"@ {
        Some(Arch::Riscv64)
    } else if s == "s390x"@ {
        Some(Arch::S390x)
    } else if s == "x86"@ {
        Some(Arch::X86)
    } else if s == "x86_64"@ {
        Some(Arch::X86_64)
    } else {
        None
    }
}

/// The token of a C library.
pub open spec fn libc_text(libc: Libc) -> Seq<char> {
    match libc {
        Libc::Gnu => "gnu"@,
        Libc::Gnueabi => "gnueabi"@,
        Libc::Gnueabihf => "gnueabihf"@,
        Libc::Musl => "musl"@,
        Libc::Absent => "none"@,
    }
}

/// The C library that a token names.
pub open spec fn parse_libc(s: Seq<char>) -> Option<Libc> {
    if s == "gnu"@ {
        Some(Libc::Gnu)
    } else if s == "gnueabi"@ {
        Some(Libc::Gnueabi)
    } else if s == "gnueabihf"@ {
        Some(Libc::Gnueabihf)
    } else if s == "musl"@ {
        Some(Libc::Musl)
    } else if s == "none"@ {
        Some(Libc::Absent)
    } else {
        None
    }
}

/// Reveals what the platform tokens spell.
pub proof fn reveal_platform_tokens()
    ensures
        "linux"@ == seq!['l', 'i', 'n', 'u', 'x'],
        "macos"@ == seq!['m', 'a', 'c', 'o', 's'],
        "windows"@ == seq!['w', 'i', 'n', 'd', 'o', 'w', 's'],
        "aarch64"@ == seq!['a', 'a', 'r', 'c', 'h', '6', '4'],
        "armv7"@ == seq!['a', 'r', 'm', 'v', '7'],
        "powerpc64le"@ == seq!['p', 'o', 'w', 'e', 'r', 'p', 'c', '6', '4', 'l', 'e'],
        "riscv64"@ == seq!['r', 'i', 's', 'c', 'v', '6', '4'],
        "s390x"@ == seq!['s', '3', '9', '0', 'x'],
        "x86"@ == seq!['x', '8', '6'],
        "x86_64"@ == seq!['x', '8', '6', '_', '6', '4'],
        "gnu"@ == seq!['g', 'n', 'u'],
        "gnueabi"@ == seq!['g', 'n', 'u', 'e', 'a', 'b', 'i'],
        "gnueabihf"@ == seq!['g', 'n', 'u', 'e', 'a', 'b', 'i', 'h', 'f'],
        "musl"@ == seq!['m', 'u', 's', 'l'],
        "none"@ == seq!['n', 'o', 'n', 'e'],
{
    reveal_strlit("linux");
    reveal_strlit("macos");
    reveal_strlit("windows");
    reveal_strlit("aarch64");
    reveal_strlit("armv7");
    reveal_strlit("powerpc64le");
    reveal_strlit("riscv64");
    reveal_strlit("s390x");
    reveal_strlit("x86");
    reveal_strlit("x86_64");
    reveal_strlit("gnu");
    reveal_strlit("gnueabi");
    reveal_strlit("gnueabihf");
    reveal_strlit("musl");
    reveal_strlit("none");
    assert("linux"@ =~= seq!['l', 'i', 'n', 'u', 'x']);
    assert("macos"@ =~= seq!['m', 'a', 'c', 'o', 's']);
    assert("windows"@ =~= seq!['w', 'i', 'n', 'd', 'o', 'w', 's']);
    assert("aarch64"@ =~= seq!['a', 'a', 'r', 'c', 'h', '6', '4']);
    assert("armv7"@ =~= seq!['a', 'r', 'm', 'v', '7']);
    assert("powerpc64le"@ =~= seq!['p', 'o', 'w', 'e', 'r', 'p', 'c', '6', '4', 'l', 'e']);
    assert("riscv64"@ =~= seq!['r', 'i', 's', 'c', 'v', '6', '4']);
    assert("s390x"@ =~= seq!['s', '3', '9', '0', 'x']);
    assert("x86"@ =~= seq!['x', '8', '6']);
    assert("x86_64"@ =~= seq!['x', '8', '6', '_', '6', '4']);
    assert("gnu"@ =~= seq!['g', 'n', 'u']);
    assert("gnueabi"@ =~= seq!['g', 'n', 'u', 'e', 'a', 'b', 'i']);
    assert("gnueabihf"@ =~= seq!['g', 'n', 'u', 'e', 'a', 'b', 'i', 'h', 'f']);
    assert("musl"@ =~= seq!['m', 'u', 's', 'l']);
    assert("none"@ =~= seq!['n', 'o', 'n', 'e']);
}

/// Every operating system is read back from its own token, which holds no `-`.
pub proof fn lemma_os_round_trip(os: Os)
    ensures
        parse_os(os_text(os)) == Some(os),
        !os_text(os).contains('-'),
{
    reveal_platform_tokens();
    assert("linux"@.len() == 5 && "macos"@.len() == 5 && "windows"@.len() == 7);
    assert("macos"@[0] != "linux"@[0]);
}

/// Every architecture is read back from its own token, which holds no `-`.
pub proof fn lemma_arch_round_trip(arch: Arch)
    ensures
        parse_arch(arch_text(arch)) == Some(arch),
        !arch_text(arch).contains('-'),
{
    reveal_platform_tokens();
    assert("aarch64"@.len() == 7 && "armv7"@.len() == 5 && "powerpc64le"@.len() == 11);
    assert("riscv64"@.len() == 7 && "s390x"@.len() == 5 && "x86"@.len() == 3 && "x86_64"@.len()
        == 6);
    assert("riscv64"@[0] != "aarch64"@[0]);
    assert("s390x"@[0] != "armv7"@[0]);
}

/// Every C library is read back from its own token, which holds no `-`.
pub proof fn lemma_libc_round_trip(libc: Libc)
    ensures
        parse_libc(libc_text(libc)) == Some(libc),
        !libc_text(libc).contains('-'),
{
    reveal_platform_tokens();
    assert("gnu"@.len() == 3 && "gnueabi"@.len() == 7 && "gnueabihf"@.len() == 9);
    assert("musl"@.len() == 4 && "none"@.len() == 4);
    assert("none"@[0] != "musl"@[0]);
}

impl Os {
    /// The canonical token.
    pub fn name(self) -> (r: &'static str)
        ensures
            r@ == os_text(self),
    {
        match self {
            Os::Linux => "linux",
            Os::Macos => "macos",
            Os::Windows => "windows",
        }
    }

    /// Reads a token.
    pub fn parse(token: &Vec<char>) -> (r: Option<Os>)
        ensures
            r == parse_os(token@),
    {
        if spells(token, "linux") {
            Some(Os::Linux)
        } else if spells(token, "macos") {
            Some(Os::Macos)
        } else if spells(token, "windows") {
            Some(Os::Windows)
        } else {
            None
        }
    }
}

impl Arch {
    /// The canonical token.
    pub fn name(self) -> (r: &'static str)
        ensures
            r@ == arch_text(self),
    {
        match self {
            Arch::Aarch64 => "aarch64",
            Arch::Armv7 => "armv7",
            Arch::Powerpc64le => "powerpc64le",
            Arch::Riscv64 => "riscv64",
            Arch::S390x => "s390x",
            Arch::X86 => "x86",
            Arch::X86_64 => "x86_64",
        }
    }

    /// Reads a token.
    pub fn parse(token: &Vec<char>) -> (r: Option<Arch>)
        ensures
            r == parse_arch(token@),
    {
        if spells(token, "aarch64") {
            Some(Arch::Aarch64)
        } else if spells(token, "armv7") {
            Some(Arch::Armv7)
        } else if spells(token, "powerpc64le") {
            Some(Arch::Powerpc64le)
        } else if spells(token, "riscv64") {
            Some(Arch::Riscv64)
        } else if spells(token, "s390x") {
            Some(Arch::S390x)
        } else if spells(token, "x86") {
            Some(Arch::X86)
        } else if spells(token, "x86_64") {
            Some(Arch::X86_64)
        } else {
            None
        }
    }
}

impl Libc {
    /// The canonical token.
    pub fn name(self) -> (r: &'static str)
        ensures
            r@ == libc_text(self),
    {
        match self {
            Libc::Gnu => "gnu",
            Libc::Gnueabi => "gnueabi",
            Libc::Gnueabihf => "gnueabihf",
            Libc::Musl => "musl",
            Libc::Absent => "none",
        }
    }

    /// Reads a token.
    pub fn parse(token: &Vec<char>) -> (r: Option<Libc>)
        ensures
            r == parse_libc(token@),
    {
        if spells(token, "gnu") {
            Some(Libc::Gnu)
        } else if spells(token, "gnueabi") {
            Some(Libc::Gnueabi)
        } else if spells(token, "gnueabihf") {
            Some(Libc::Gnueabihf)
        } else if spells(token, "musl") {
            Some(Libc::Musl)
        } else if spells(token, "none") {
            Some(Libc::Absent)
        } else {
            None
        }
    }
}

} // verus!
