//! The installation key: the identity of one managed interpreter build, its
//! written form `impl-M.m.p[pre][+variant]-os-arch-libc`, and the reading of that
//! form.

use crate::implementation::{
    lemma_implementation_round_trip, lenient_from, lenient_text, stable_implementation,
    ImplementationView, LenientImplementationName,
};
use crate::platform::{
    arch_text, exe_suffix_text, lemma_arch_round_trip, lemma_libc_round_trip, lemma_os_round_trip,
    libc_text, os_text, parse_arch, parse_libc, parse_os, Arch, Libc, Os, TargetFamily,
};
use crate::text::{
    copy_range, decimal, find_char, first_index, lemma_first_index_is, lemma_split_append_field,
    lemma_split_single, push_chars, push_decimal, split, split_fields, texts, to_chars,
};
use crate::version::{
    full_version_text, lemma_variant_round_trip, lemma_version_round_trip,
    lemma_version_text_plain, parse_variant, parse_version, push_full_version, release_text,
    variant_suffix, variant_text, version_text, Prerelease, PythonVariant, PythonVersion,
};
use vstd::prelude::*;
use vstd::string::StringExecFns;

verus! {

/// Why a text is not an installation key, with the text itself.
#[derive(Debug)]
pub enum PythonInstallationKeyError {
    /// The text, and the reason in words.
    ParseError(String, String),
}

#[derive(Debug, PartialEq, Eq, Hash)]
pub struct PythonInstallationKey {
    implementation: LenientImplementationName,
    major: u8,
    minor: u8,
    patch: u8,
    prerelease: Option<Prerelease>,
    os: Os,
    arch: Arch,
    libc: Libc,
    variant: PythonVariant,
}

/// The mathematical value of a key.
pub struct KeyView {
    pub implementation: ImplementationView,
    pub major: u8,
    pub minor: u8,
    pub patch: u8,
    pub prerelease: Option<Prerelease>,
    pub os: Os,
    pub arch: Arch,
    pub libc: Libc,
    pub variant: PythonVariant,
}

impl View for PythonInstallationKey {
    type V = KeyView;

    closed spec fn view(&self) -> KeyView {
        KeyView {
            implementation: self.implementation@,
            major: self.major,
            minor: self.minor,
            patch: self.patch,
            prerelease: self.prerelease,
            os: self.os,
            arch: self.arch,
            libc: self.libc,
            variant: self.variant,
        }
    }
}

/// The field of a text that was refused, by the part of the key that it
/// should have been.
pub enum KeyFailure {
    FieldCount,
    Os(Seq<char>),
    Arch(Seq<char>),
    Libc(Seq<char>),
    Variant(Seq<char>),
    Version(Seq<char>),
}

/// What the variant adds to the version field: nothing for the default
/// variant, else `+` and the variant's token.
pub open spec fn variant_part(variant: PythonVariant) -> Seq<char> {
    match variant {
        PythonVariant::Default => Seq::<char>::empty(),
        PythonVariant::Freethreaded => seq!['+'] + variant_text(variant),
    }
}

/// The version field of a key.
pub open spec fn version_field(k: KeyView) -> Seq<char> {
    full_version_text(k.major, k.minor, k.patch, k.prerelease) + variant_part(k.variant)
}

/// The written form of a key.
pub open spec fn key_text(k: KeyView) -> Seq<char> {
    lenient_text(k.implementation) + seq!['-'] + version_field(k) + seq!['-'] + os_text(k.os)
        + seq!['-'] + arch_text(k.arch) + seq!['-'] + libc_text(k.libc)
}

/// The name of an anchor: `impl-M.m[+variant]`.
pub open spec fn anchor_text(
    implementation: ImplementationView,
    major: u8,
    minor: u8,
    variant: PythonVariant,
) -> Seq<char> {
    lenient_text(implementation) + seq!['-'] + decimal(major as nat) + seq!['.'] + decimal(
        minor as nat,
    ) + variant_part(variant)
}

/// The version and the variant that a version field spells. The variant follows
/// the first `+`, if there is one; the variant is refused before the version is.
pub open spec fn parse_version_field(field: Seq<char>) -> Result<
    (PythonVersion, PythonVariant),
    KeyFailure,
> {
    let cut = first_index(field, '+');
    if cut < field.len() {
        match parse_variant(field.skip(cut + 1)) {
            None => Err(KeyFailure::Variant(field.skip(cut + 1))),
            Some(variant) => match parse_version(field.take(cut)) {
                None => Err(KeyFailure::Version(field.take(cut))),
                Some(version) => Ok((version, variant)),
            },
        }
    } else {
        match parse_version(field) {
            None => Err(KeyFailure::Version(field)),
            Some(version) => Ok((version, PythonVariant::Default)),
        }
    }
}

/// The key that a text spells, or the first field that is refused. The text
/// must have exactly five fields between its `-`; the fields are judged in the
/// order operating system, architecture, C library, variant, version. A version
/// without a patch has patch 0.
pub open spec fn parse_key(s: Seq<char>) -> Result<KeyView, KeyFailure> {
    let fields = split(s, '-');
    if fields.len() != 5 {
        Err(KeyFailure::FieldCount)
    } else {
        match parse_os(fields[2]) {
            None => Err(KeyFailure::Os(fields[2])),
            Some(os) => match parse_arch(fields[3]) {
                None => Err(KeyFailure::Arch(fields[3])),
                Some(arch) => match parse_libc(fields[4]) {
                    None => Err(KeyFailure::Libc(fields[4])),
                    Some(libc) => match parse_version_field(fields[1]) {
                        Err(failure) => Err(failure),
                        Ok((version, variant)) => Ok(
                            KeyView {
                                implementation: lenient_from(fields[0]),
                                major: version.major,
                                minor: version.minor,
                                patch: match version.patch {
                                    Some(p) => p,
                                    None => 0,
                                },
                                prerelease: version.pre,
                                os,
                                arch,
                                libc,
                                variant,
                            },
                        ),
                    },
                },
            },
        }
    }
}

/// The reason that is reported for a refused field.
pub open spec fn failure_text(failure: KeyFailure) -> Seq<char> {
    match failure {
        KeyFailure::FieldCount => "not enough `-`-separated values"@,
        KeyFailure::Os(token) => "invalid OS: unknown operating system: "@ + token,
        KeyFailure::Arch(token) => "invalid architecture: unknown architecture: "@ + token,
        KeyFailure::Libc(token) => "invalid libc: unknown libc environment: "@ + token,
        KeyFailure::Variant(token) => "invalid Python variant: "@ + token,
        KeyFailure::Version(token) => "invalid Python version: "@ + token,
    }
}

/// A key whose written form is read back as the same key.
pub open spec fn stable_key(k: KeyView) -> bool {
    stable_implementation(k.implementation)
}

/// The version field of a key is read back as the key's version and variant.
pub proof fn lemma_version_field_round_trip(k: KeyView)
    ensures
        parse_version_field(version_field(k)) == Ok::<(PythonVersion, PythonVariant), KeyFailure>(
            (
                PythonVersion {
                    major: k.major,
                    minor: k.minor,
                    patch: Some(k.patch),
                    pre: k.prerelease,
                },
                k.variant,
            ),
        ),
        !version_field(k).contains('-'),
{
    let v = PythonVersion {
        major: k.major,
        minor: k.minor,
        patch: Some(k.patch),
        pre: k.prerelease,
    };
    let vt = version_text(v);
    let field = version_field(k);
    lemma_version_round_trip(v);
    lemma_version_text_plain(v);
    lemma_variant_round_trip(k.variant);
    match k.variant {
        PythonVariant::Default => {
            assert(field =~= vt);
            lemma_first_index_is(field, '+', field.len() as int);
        },
        PythonVariant::Freethreaded => {
            let token = variant_text(k.variant);
            assert(field =~= vt + seq!['+'] + token);
            assert forall|i: int| 0 <= i < vt.len() implies field[i] != '+' by {
                assert(field[i] == vt[i]);
            }
            assert(field[vt.len() as int] == '+');
            lemma_first_index_is(field, '+', vt.len() as int);
            assert(field.take(vt.len() as int) =~= vt);
            assert(field.skip(vt.len() as int + 1) =~= token);
            assert forall|i: int| 0 <= i < field.len() implies field[i] != '-' by {
                if i < vt.len() {
                    assert(field[i] == vt[i]);
                } else if i > vt.len() {
                    assert(field[i] == token[i - vt.len() - 1]);
                }
            }
        },
    }
}

/// Reading the written form of a stable key gives the key back.
pub proof fn lemma_key_round_trip(k: KeyView)
    requires
        stable_key(k),
    ensures
        parse_key(key_text(k)) == Ok::<KeyView, KeyFailure>(k),
{
    let a = lenient_text(k.implementation);
    let b = version_field(k);
    let c = os_text(k.os);
    let d = arch_text(k.arch);
    let e = libc_text(k.libc);
    let dash = seq!['-'];
    lemma_implementation_round_trip(k.implementation);
    lemma_version_field_round_trip(k);
    lemma_os_round_trip(k.os);
    lemma_arch_round_trip(k.arch);
    lemma_libc_round_trip(k.libc);
    lemma_split_single(a, '-');
    lemma_split_append_field(a, b, '-');
    lemma_split_append_field(a + dash + b, c, '-');
    lemma_split_append_field(a + dash + b + dash + c, d, '-');
    lemma_split_append_field(a + dash + b + dash + c + dash + d, e, '-');
    let fields = split(key_text(k), '-');
    assert(fields =~= seq![a, b, c, d, e]);
    assert(fields[0] == a && fields[1] == b && fields[2] == c && fields[3] == d && fields[4] == e);
}

impl Clone for PythonInstallationKey {
    fn clone(&self) -> (r: Self)
        ensures
            r@ == self@,
    {
        PythonInstallationKey {
            implementation: self.implementation.clone(),
            major: self.major,
            minor: self.minor,
            patch: self.patch,
            prerelease: self.prerelease,
            os: self.os,
            arch: self.arch,
            libc: self.libc,
            variant: self.variant,
        }
    }
}

impl PythonInstallationKeyError {
    /// The text that was refused.
    pub open spec fn key_text(&self) -> Seq<char> {
        match self {
            PythonInstallationKeyError::ParseError(key, _) => key@,
        }
    }

    /// The reason, in words.
    pub open spec fn reason_text(&self) -> Seq<char> {
        match self {
            PythonInstallationKeyError::ParseError(_, reason) => reason@,
        }
    }

    /// The sentence that tells a person what went wrong.
    pub fn to_string(&self) -> (r: String)
        ensures
            r@ == "Failed to parse Python installation key `"@ + self.key_text() + "`: "@
                + self.reason_text(),
    {
        match self {
            PythonInstallationKeyError::ParseError(key, reason) => {
                let mut out = String::from_str("Failed to parse Python installation key `");
                out.append(key.as_str());
                out.append("`: ");
                out.append(reason.as_str());
                out
            },
        }
    }
}

/// The error for `key` with the reason `lead` followed by `token`.
fn refusal(key: &str, lead: &str, token: &Vec<char>) -> (e: PythonInstallationKeyError)
    ensures
        e.key_text() == key@,
        e.reason_text() == lead@ + token@,
{
    let mut reason = String::from_str(lead);
    push_chars(&mut reason, token, 0, token.len());
    proof {
        assert(token@.subrange(0, token@.len() as int) =~= token@);
    }
    PythonInstallationKeyError::ParseError(String::from_str(key), reason)
}

/// Reads the version field of a key.
fn read_version_field(key: &str, field: &Vec<char>) -> (r: Result<
    (PythonVersion, PythonVariant),
    PythonInstallationKeyError,
>)
    ensures
        match (parse_version_field(field@), r) {
            (Ok(expected), Ok(found)) => found == expected,
            (Err(failure), Err(e)) => e.key_text() == key@ && e.reason_text() == failure_text(
                failure,
            ),
            _ => false,
        },
{
    let cut = find_char(field, '+');
    if cut < field.len() {
        let version_chars = copy_range(field, 0, cut);
        let variant_chars = copy_range(field, cut + 1, field.len());
        proof {
            assert(field@.take(cut as int) =~= field@.subrange(0, cut as int));
            assert(field@.skip(cut + 1) =~= field@.subrange(cut + 1, field@.len() as int));
        }
        match PythonVariant::parse(&variant_chars) {
            None => Err(refusal(key, "invalid Python variant: ", &variant_chars)),
            Some(variant) => match PythonVersion::from_chars(&version_chars) {
                None => Err(refusal(key, "invalid Python version: ", &version_chars)),
                Some(version) => Ok((version, variant)),
            },
        }
    } else {
        match PythonVersion::from_chars(field) {
            None => Err(refusal(key, "invalid Python version: ", field)),
            Some(version) => Ok((version, PythonVariant::Default)),
        }
    }
}

impl PythonInstallationKey {
    pub fn new(
        implementation: LenientImplementationName,
        major: u8,
        minor: u8,
        patch: u8,
        prerelease: Option<Prerelease>,
        os: Os,
        arch: Arch,
        libc: Libc,
        variant: PythonVariant,
    ) -> (r: Self)
        ensures
            r@ == (KeyView {
                implementation: implementation@,
                major,
                minor,
                patch,
                prerelease,
                os,
                arch,
                libc,
                variant,
            }),
    {
        PythonInstallationKey {
            implementation,
            major,
            minor,
            patch,
            prerelease,
            os,
            arch,
            libc,
            variant,
        }
    }

    /// The key of `version` on a platform; a version without a patch counts as
    /// patch 0.
    pub fn new_from_version(
        implementation: LenientImplementationName,
        version: &PythonVersion,
        os: Os,
        arch: Arch,
        libc: Libc,
        variant: PythonVariant,
    ) -> (r: Self)
        ensures
            r@ == (KeyView {
                implementation: implementation@,
                major: version.major,
                minor: version.minor,
                patch: match version.patch {
                    Some(p) => p,
                    None => 0,
                },
                prerelease: version.pre,
                os,
                arch,
                libc,
                variant,
            }),
    {
        PythonInstallationKey {
            implementation,
            major: version.major(),
            minor: version.minor(),
            patch: match version.patch() {
                Some(p) => p,
                None => 0,
            },
            prerelease: version.pre(),
            os,
            arch,
            libc,
            variant,
        }
    }

    pub fn implementation(&self) -> (r: &LenientImplementationName)
        ensures
            r@ == self@.implementation,
    {
        &self.implementation
    }

    /// The full version of the key.
    pub fn version(&self) -> (r: PythonVersion)
        ensures
            r == (PythonVersion {
                major: self@.major,
                minor: self@.minor,
                patch: Some(self@.patch),
                pre: self@.prerelease,
            }),
    {
        PythonVersion {
            major: self.major,
            minor: self.minor,
            patch: Some(self.patch),
            pre: self.prerelease,
        }
    }

    /// The version in `x.y.z` format.
    pub fn sys_version(&self) -> (r: String)
        ensures
            r@ == release_text(self@.major, self@.minor, self@.patch),
    {
        let mut out = String::new();
        push_decimal(&mut out, self.major as u64);
        out.push('.');
        push_decimal(&mut out, self.minor as u64);
        out.push('.');
        push_decimal(&mut out, self.patch as u64);
        proof {
            assert(out@ =~= release_text(self@.major, self@.minor, self@.patch));
        }
        out
    }

    pub fn major(&self) -> (r: u8)
        ensures
            r == self@.major,
    {
        self.major
    }

    pub fn minor(&self) -> (r: u8)
        ensures
            r == self@.minor,
    {
        self.minor
    }

    pub fn patch(&self) -> (r: u8)
        ensures
            r == self@.patch,
    {
        self.patch
    }

    pub fn prerelease(&self) -> (r: Option<Prerelease>)
        ensures
            r == self@.prerelease,
    {
        self.prerelease
    }

    pub fn arch(&self) -> (r: &Arch)
        ensures
            *r == self@.arch,
    {
        &self.arch
    }

    pub fn os(&self) -> (r: &Os)
        ensures
            *r == self@.os,
    {
        &self.os
    }

    pub fn libc(&self) -> (r: &Libc)
        ensures
            *r == self@.libc,
    {
        &self.libc
    }

    pub fn variant(&self) -> (r: &PythonVariant)
        ensures
            *r == self@.variant,
    {
        &self.variant
    }

    /// The canonical name of the executable that carries the minor version:
    /// `pythonM.m`, then the variant's suffix, then the family's suffix.
    pub fn executable_name_minor(&self, family: TargetFamily) -> (r: String)
        ensures
            r@ == "python"@ + decimal(self@.major as nat) + seq!['.'] + decimal(self@.minor as nat)
                + variant_suffix(self@.variant) + exe_suffix_text(family),
    {
        let mut out = String::from_str("python");
        push_decimal(&mut out, self.major as u64);
        out.push('.');
        push_decimal(&mut out, self.minor as u64);
        out.append(self.variant.suffix());
        out.append(family.exe_suffix());
        out
    }

    /// The canonical name of the executable that carries the major version:
    /// `pythonM`, then the variant's suffix, then the family's suffix.
    pub fn executable_name_major(&self, family: TargetFamily) -> (r: String)
        ensures
            r@ == "python"@ + decimal(self@.major as nat) + variant_suffix(self@.variant)
                + exe_suffix_text(family),
    {
        let mut out = String::from_str("python");
        push_decimal(&mut out, self.major as u64);
        out.append(self.variant.suffix());
        out.append(family.exe_suffix());
        out
    }

    /// The canonical name of the executable without a version: `python`, then
    /// the variant's suffix, then the family's suffix.
    pub fn executable_name(&self, family: TargetFamily) -> (r: String)
        ensures
            r@ == "python"@ + variant_suffix(self@.variant) + exe_suffix_text(family),
    {
        let mut out = String::from_str("python");
        out.append(self.variant.suffix());
        out.append(family.exe_suffix());
        out
    }

    /// The name of the anchor of the key's minor version. It depends on the
    /// implementation, the major and minor version and the variant, and on
    /// nothing else.
    pub fn anchor_name(&self) -> (r: String)
        ensures
            r@ == anchor_text(
                self@.implementation,
                self@.major,
                self@.minor,
                self@.variant,
            ),
    {
        let mut out = String::from_str(self.implementation.name());
        out.push('-');
        push_decimal(&mut out, self.major as u64);
        out.push('.');
        push_decimal(&mut out, self.minor as u64);
        match self.variant {
            PythonVariant::Default => {},
            PythonVariant::Freethreaded => {
                out.push('+');
                out.append(self.variant.name());
            },
        }
        proof {
            assert(out@ =~= anchor_text(
                self@.implementation,
                self@.major,
                self@.minor,
                self@.variant,
            ));
        }
        out
    }

    /// The written form of the key.
    pub fn to_string(&self) -> (r: String)
        ensures
            r@ == key_text(self@),
    {
        let mut out = String::from_str(self.implementation.name());
        out.push('-');
        push_full_version(&mut out, self.major, self.minor, self.patch, self.prerelease);
        match self.variant {
            PythonVariant::Default => {},
            PythonVariant::Freethreaded => {
                out.push('+');
                out.append(self.variant.name());
            },
        }
        let ghost head = out@;
        proof {
            assert(head =~= lenient_text(self@.implementation) + seq!['-'] + version_field(self@));
        }
        out.push('-');
        out.append(self.os.name());
        out.push('-');
        out.append(self.arch.name());
        out.push('-');
        out.append(self.libc.name());
        proof {
            assert(out@ =~= key_text(self@));
        }
        out
    }

    /// Reads a key from its written form. On success the key is stable: its own
    /// written form is read back as the same key.
    pub fn from_str(key: &str) -> (r: Result<Self, PythonInstallationKeyError>)
        ensures
            match (parse_key(key@), r) {
                (Ok(expected), Ok(found)) => found@ == expected && stable_key(found@),
                (Err(failure), Err(e)) => e.key_text() == key@ && e.reason_text() == failure_text(
                    failure,
                ),
                _ => false,
            },
    {
        let chars = to_chars(key);
        let fields = split_fields(&chars, '-');
        if fields.len() != 5 {
            return Err(
                PythonInstallationKeyError::ParseError(
                    String::from_str(key),
                    String::from_str("not enough `-`-separated values"),
                ),
            );
        }
        proof {
            let t = texts(fields@);
            assert(t[0] == fields@[0]@ && t[1] == fields@[1]@ && t[2] == fields@[2]@ && t[3]
                == fields@[3]@ && t[4] == fields@[4]@);
        }
        let implementation = LenientImplementationName::from_chars(&fields[0]);
        let os = match Os::parse(&fields[2]) {
            Some(os) => os,
            None => {
                return Err(refusal(key, "invalid OS: unknown operating system: ", &fields[2]));
            },
        };
        let arch = match Arch::parse(&fields[3]) {
            Some(arch) => arch,
            None => {
                return Err(
                    refusal(key, "invalid architecture: unknown architecture: ", &fields[3]),
                );
            },
        };
        let libc = match Libc::parse(&fields[4]) {
            Some(libc) => libc,
            None => {
                return Err(refusal(key, "invalid libc: unknown libc environment: ", &fields[4]));
            },
        };
        let (version, variant) = match read_version_field(key, &fields[1]) {
            Ok(found) => found,
            Err(e) => {
                return Err(e);
            },
        };
        proof {
            lemma_field_has_no_separator(chars@, '-', 0);
        }
        Ok(PythonInstallationKey::new_from_version(implementation, &version, os, arch, libc, variant))
    }
}

/// No field of a split text holds the separator.
pub proof fn lemma_field_has_no_separator(s: Seq<char>, sep: char, i: int)
    requires
        0 <= i < split(s, sep).len(),
    ensures
        !split(s, sep)[i].contains(sep),
    decreases s.len(),
{
    if s.len() == 0 {
    } else {
        let before = split(s.drop_last(), sep);
        crate::text::lemma_split_nonempty(s.drop_last(), sep);
        if s.last() == sep {
            if i < before.len() {
                lemma_field_has_no_separator(s.drop_last(), sep, i);
            }
        } else {
            lemma_field_has_no_separator(s.drop_last(), sep, i);
            if i == before.len() - 1 {
                let f = before.last().push(s.last());
                assert forall|k: int| 0 <= k < f.len() implies f[k] != sep by {
                    if k < before.last().len() {
                        assert(before.last().contains(before.last()[k]));
                    }
                }
            }
        }
    }
}

} // verus!
