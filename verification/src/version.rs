//! Interpreter versions: `M.m[.p][pre]`, where `pre` is a prerelease tag such as
//! `rc1`, and the build variant that may follow a version after a `+`.

use crate::text::{
    all_digits, bounded_number, decimal, decimal_value, is_digit, lemma_decimal_round_trip,
    parse_number, push_decimal, spells, to_chars,
};
use vstd::prelude::*;
use vstd::string::StringExecFns;

verus! {

#[derive(Clone, Copy, Debug, PartialEq, Eq, Hash, Structural)]
pub enum PrereleaseKind {
    Alpha,
    Beta,
    Rc,
}

/// A prerelease tag: its kind and its number.
#[derive(Clone, Copy, Debug, PartialEq, Eq, Hash, Structural)]
pub struct Prerelease {
    pub kind: PrereleaseKind,
    pub number: u64,
}

#[derive(Clone, Copy, Debug, PartialEq, Eq, Hash, Structural)]
pub enum PythonVariant {
    Default,
    Freethreaded,
}

/// A version as it is requested or reported: the patch and the prerelease tag
/// may be absent.
#[derive(Clone, Copy, Debug, PartialEq, Eq, Hash, Structural)]
pub struct PythonVersion {
    pub major: u8,
    pub minor: u8,
    pub patch: Option<u8>,
    pub pre: Option<Prerelease>,
}

/// The letters of a prerelease kind.
pub open spec fn kind_text(kind: PrereleaseKind) -> Seq<char> {
    match kind {
        PrereleaseKind::Alpha => seq!['a'],
        PrereleaseKind::Beta => seq!['b'],
        PrereleaseKind::Rc => seq!['r', 'c'],
    }
}

/// A prerelease tag is written as its kind followed by its number.
pub open spec fn prerelease_text(pre: Prerelease) -> Seq<char> {
    kind_text(pre.kind) + decimal(pre.number as nat)
}

pub open spec fn optional_prerelease_text(pre: Option<Prerelease>) -> Seq<char> {
    match pre {
        Some(p) => prerelease_text(p),
        None => Seq::<char>::empty(),
    }
}

/// `M.m.p`, the form in which an interpreter reports its own version.
pub open spec fn release_text(major: u8, minor: u8, patch: u8) -> Seq<char> {
    decimal(major as nat) + seq!['.'] + decimal(minor as nat) + seq!['.'] + decimal(patch as nat)
}

/// `M.m.p[pre]`.
pub open spec fn full_version_text(
    major: u8,
    minor: u8,
    patch: u8,
    pre: Option<Prerelease>,
) -> Seq<char> {
    release_text(major, minor, patch) + optional_prerelease_text(pre)
}

/// `M.m[.p][pre]`: the written form of a version.
pub open spec fn version_text(v: PythonVersion) -> Seq<char> {
    match v.patch {
        Some(patch) => full_version_text(v.major, v.minor, patch, v.pre),
        None => decimal(v.major as nat) + seq!['.'] + decimal(v.minor as nat)
            + optional_prerelease_text(v.pre),
    }
}

/// The number of digits that `s` starts with.
pub open spec fn digits_len(s: Seq<char>) -> int
    decreases s.len(),
{
    if s.len() > 0 && is_digit(s[0]) {
        1 + digits_len(s.skip(1))
    } else {
        0
    }
}

/// The number at the start of `s`, of at most `max`, and what follows it.
pub open spec fn take_number(s: Seq<char>, max: nat) -> Option<(nat, Seq<char>)> {
    let n = digits_len(s);
    match bounded_number(s.take(n), max) {
        Some(v) => Some((v, s.skip(n))),
        None => None,
    }
}

/// The prerelease tag that `s` spells: `a`, `b` or `rc`, then a number.
pub open spec fn parse_prerelease(s: Seq<char>) -> Option<Prerelease> {
    if s.len() >= 2 && s[0] == 'r' && s[1] == 'c' {
        match bounded_number(s.skip(2), u64::MAX as nat) {
            Some(n) => Some(Prerelease { kind: PrereleaseKind::Rc, number: n as u64 }),
            None => None,
        }
    } else if s.len() >= 1 && s[0] == 'a' {
        match bounded_number(s.skip(1), u64::MAX as nat) {
            Some(n) => Some(Prerelease { kind: PrereleaseKind::Alpha, number: n as u64 }),
            None => None,
        }
    } else if s.len() >= 1 && s[0] == 'b' {
        match bounded_number(s.skip(1), u64::MAX as nat) {
            Some(n) => Some(Prerelease { kind: PrereleaseKind::Beta, number: n as u64 }),
            None => None,
        }
    } else {
        None
    }
}

/// What follows the minor number: an optional `.p`, then an optional prerelease
/// tag, and nothing else.
pub open spec fn parse_version_tail(major: u8, minor: u8, s: Seq<char>) -> Option<PythonVersion> {
    if s.len() > 0 && s[0] == '.' {
        match take_number(s.skip(1), u8::MAX as nat) {
            Some((patch, rest)) => {
                if rest.len() == 0 {
                    Some(PythonVersion { major, minor, patch: Some(patch as u8), pre: None })
                } else {
                    match parse_prerelease(rest) {
                        Some(pre) => Some(
                            PythonVersion { major, minor, patch: Some(patch as u8), pre: Some(pre) },
                        ),
                        None => None,
                    }
                }
            },
            None => None,
        }
    } else if s.len() == 0 {
        Some(PythonVersion { major, minor, patch: None, pre: None })
    } else {
        match parse_prerelease(s) {
            Some(pre) => Some(PythonVersion { major, minor, patch: None, pre: Some(pre) }),
            None => None,
        }
    }
}

/// The version that `s` spells, if it has the form `M.m[.p][pre]` with every
/// release number at most 255. Leading zeros are read as in any decimal number.
pub open spec fn parse_version(s: Seq<char>) -> Option<PythonVersion> {
    match take_number(s, u8::MAX as nat) {
        Some((major, r1)) => {
            if r1.len() > 0 && r1[0] == '.' {
                match take_number(r1.skip(1), u8::MAX as nat) {
                    Some((minor, r2)) => parse_version_tail(major as u8, minor as u8, r2),
                    None => None,
                }
            } else {
                None
            }
        },
        None => None,
    }
}

/// The token of a variant.
pub open spec fn variant_text(variant: PythonVariant) -> Seq<char> {
    match variant {
        PythonVariant::Default => "default"@,
        PythonVariant::Freethreaded => "freethreaded"@,
    }
}

/// The variant that a token names.
pub open spec fn parse_variant(s: Seq<char>) -> Option<PythonVariant> {
    if s == "default"@ {
        Some(PythonVariant::Default)
    } else if s == "freethreaded"@ {
        Some(PythonVariant::Freethreaded)
    } else {
        None
    }
}

/// What a variant adds to the name of an executable.
pub open spec fn variant_suffix(variant: PythonVariant) -> Seq<char> {
    match variant {
        PythonVariant::Default => ""@,
        PythonVariant::Freethreaded => "t"@,
    }
}

pub proof fn reveal_variant_tokens()
    ensures
        "default"@ == seq!['d', 'e', 'f', 'a', 'u', 'l', 't'],
        "freethreaded"@ == seq!['f', 'r', 'e', 'e', 't', 'h', 'r', 'e', 'a', 'd', 'e', 'd'],
        ""@ == Seq::<char>::empty(),
        "t"@ == seq!['t'],
{
    reveal_strlit("default");
    reveal_strlit("freethreaded");
    reveal_strlit("");
    reveal_strlit("t");
    assert("default"@ =~= seq!['d', 'e', 'f', 'a', 'u', 'l', 't']);
    assert("freethreaded"@ =~= seq!['f', 'r', 'e', 'e', 't', 'h', 'r', 'e', 'a', 'd', 'e', 'd']);
    assert(""@ =~= Seq::<char>::empty());
    assert("t"@ =~= seq!['t']);
}

/// Every variant is read back from its own token, which holds neither `-` nor `+`.
pub proof fn lemma_variant_round_trip(variant: PythonVariant)
    ensures
        parse_variant(variant_text(variant)) == Some(variant),
        !variant_text(variant).contains('-'),
        !variant_text(variant).contains('+'),
{
    reveal_variant_tokens();
    assert("default"@.len() == 7 && "freethreaded"@.len() == 12);
}

/// The digits at the start of `s` end where `n` says, if `s` has digits up to
/// there and none at `n`.
pub proof fn lemma_digits_len_is(s: Seq<char>, n: int)
    requires
        0 <= n <= s.len(),
        forall|k: int| 0 <= k < n ==> is_digit(#[trigger] s[k]),
        n < s.len() ==> !is_digit(s[n]),
    ensures
        digits_len(s) == n,
    decreases n,
{
    if n > 0 {
        let t = s.skip(1);
        assert forall|k: int| 0 <= k < n - 1 implies is_digit(#[trigger] t[k]) by {
            assert(t[k] == s[k + 1]);
        }
        if n - 1 < t.len() {
            assert(t[n - 1] == s[n]);
        }
        lemma_digits_len_is(t, n - 1);
    }
}

/// A numeral followed by something that does not start with a digit is read
/// back as its number, and what followed is left over.
pub proof fn lemma_take_number_decimal(n: nat, rest: Seq<char>, max: nat)
    requires
        n <= max,
        rest.len() == 0 || !is_digit(rest[0]),
    ensures
        take_number(decimal(n) + rest, max) == Some((n, rest)),
{
    lemma_decimal_round_trip(n);
    let d = decimal(n);
    let s = d + rest;
    assert forall|k: int| 0 <= k < d.len() implies is_digit(#[trigger] s[k]) by {
        assert(s[k] == d[k]);
    }
    if d.len() < s.len() {
        assert(s[d.len() as int] == rest[0]);
    }
    lemma_digits_len_is(s, d.len() as int);
    assert(s.take(d.len() as int) =~= d);
    assert(s.skip(d.len() as int) =~= rest);
}

/// A prerelease tag is read back from its written form.
pub proof fn lemma_prerelease_round_trip(pre: Prerelease)
    ensures
        parse_prerelease(prerelease_text(pre)) == Some(pre),
        prerelease_text(pre).len() > 0,
        !is_digit(prerelease_text(pre)[0]),
        prerelease_text(pre)[0] != '.',
{
    lemma_decimal_round_trip(pre.number as nat);
    let d = decimal(pre.number as nat);
    let s = prerelease_text(pre);
    match pre.kind {
        PrereleaseKind::Rc => {
            assert(s.skip(2) =~= d);
        },
        PrereleaseKind::Alpha => {
            assert(s.skip(1) =~= d);
        },
        PrereleaseKind::Beta => {
            assert(s.skip(1) =~= d);
        },
    }
}

/// What follows the minor number in the written form of a version.
pub open spec fn version_tail_text(v: PythonVersion) -> Seq<char> {
    match v.patch {
        Some(patch) => seq!['.'] + decimal(patch as nat) + optional_prerelease_text(v.pre),
        None => optional_prerelease_text(v.pre),
    }
}

proof fn lemma_version_tail_round_trip(v: PythonVersion)
    ensures
        parse_version_tail(v.major, v.minor, version_tail_text(v)) == Some(v),
        version_tail_text(v).len() == 0 || !is_digit(version_tail_text(v)[0]),
{
    let pre_text = optional_prerelease_text(v.pre);
    let tail = version_tail_text(v);
    if let Some(p) = v.pre {
        lemma_prerelease_round_trip(p);
    }
    match v.patch {
        Some(patch) => {
            assert(tail[0] == '.');
            assert(tail.skip(1) =~= decimal(patch as nat) + pre_text);
            lemma_take_number_decimal(patch as nat, pre_text, u8::MAX as nat);
            assert(take_number(tail.skip(1), u8::MAX as nat) == Some((patch as nat, pre_text)));
        },
        None => {
            assert(tail == pre_text);
        },
    }
}

/// Reading the written form of a version gives the version back.
pub proof fn lemma_version_round_trip(v: PythonVersion)
    ensures
        parse_version(version_text(v)) == Some(v),
{
    let tail = version_tail_text(v);
    let minor_on = decimal(v.minor as nat) + tail;
    let major_rest = seq!['.'] + minor_on;
    let s = decimal(v.major as nat) + major_rest;
    lemma_version_tail_round_trip(v);
    assert(version_text(v) =~= s);
    assert(major_rest[0] == '.');
    lemma_take_number_decimal(v.major as nat, major_rest, u8::MAX as nat);
    assert(take_number(s, u8::MAX as nat) == Some((v.major as nat, major_rest)));
    assert(major_rest.skip(1) =~= minor_on);
    lemma_take_number_decimal(v.minor as nat, tail, u8::MAX as nat);
    assert(take_number(minor_on, u8::MAX as nat) == Some((v.minor as nat, tail)));
}

/// The written form of a version holds neither `-` nor `+`.
pub proof fn lemma_version_text_plain(v: PythonVersion)
    ensures
        !version_text(v).contains('-'),
        !version_text(v).contains('+'),
{
    lemma_decimal_round_trip(v.major as nat);
    lemma_decimal_round_trip(v.minor as nat);
    if let Some(patch) = v.patch {
        lemma_decimal_round_trip(patch as nat);
    }
    if let Some(p) = v.pre {
        lemma_decimal_round_trip(p.number as nat);
    }
    let s = version_text(v);
    assert forall|i: int| 0 <= i < s.len() implies s[i] != '-' && s[i] != '+' by {
        let a = decimal(v.major as nat);
        let b = decimal(v.minor as nat);
        if i < a.len() {
            assert(is_digit(a[i]));
        } else if i == a.len() {
        } else if i < a.len() + 1 + b.len() {
            assert(is_digit(b[i - a.len() - 1]));
        } else {
            let j = i - a.len() - 1 - b.len();
            match v.patch {
                Some(patch) => {
                    let c = decimal(patch as nat);
                    if j == 0 {
                    } else if j < 1 + c.len() {
                        assert(is_digit(c[j - 1]));
                    } else {
                        lemma_prerelease_text_plain(v.pre, j - 1 - c.len());
                    }
                },
                None => {
                    lemma_prerelease_text_plain(v.pre, j);
                },
            }
        }
    }
}

proof fn lemma_prerelease_text_plain(pre: Option<Prerelease>, j: int)
    requires
        0 <= j < optional_prerelease_text(pre).len(),
    ensures
        optional_prerelease_text(pre)[j] != '-',
        optional_prerelease_text(pre)[j] != '+',
{
    let p = pre->0;
    lemma_decimal_round_trip(p.number as nat);
    let k = kind_text(p.kind);
    let d = decimal(p.number as nat);
    if j >= k.len() {
        assert(is_digit(d[j - k.len()]));
    }
}

/// Where a prerelease tag stands among the releases of one `M.m.p`: alphas come
/// first, then betas, then release candidates, and the final release comes last.
pub open spec fn stage_rank(pre: Option<Prerelease>) -> int {
    match pre {
        Some(p) => match p.kind {
            PrereleaseKind::Alpha => 0,
            PrereleaseKind::Beta => 1,
            PrereleaseKind::Rc => 2,
        },
        None => 3,
    }
}

/// The number of a prerelease tag; the final release counts as 0.
pub open spec fn stage_number(pre: Option<Prerelease>) -> int {
    match pre {
        Some(p) => p.number as int,
        None => 0,
    }
}

/// The patch of a version; a version without a patch counts as patch 0.
pub open spec fn patch_or_zero(v: PythonVersion) -> int {
    match v.patch {
        Some(p) => p as int,
        None => 0,
    }
}

/// Whether `a` is an earlier version than `b`: by major, then minor, then
/// patch, then the stage of the prerelease tag, then its number.
pub open spec fn version_before(a: PythonVersion, b: PythonVersion) -> bool {
    if a.major != b.major {
        a.major < b.major
    } else if a.minor != b.minor {
        a.minor < b.minor
    } else if patch_or_zero(a) != patch_or_zero(b) {
        patch_or_zero(a) < patch_or_zero(b)
    } else if stage_rank(a.pre) != stage_rank(b.pre) {
        stage_rank(a.pre) < stage_rank(b.pre)
    } else {
        stage_number(a.pre) < stage_number(b.pre)
    }
}

fn stage_rank_of(pre: Option<Prerelease>) -> (r: u8)
    ensures
        r == stage_rank(pre),
{
    match pre {
        Some(p) => match p.kind {
            PrereleaseKind::Alpha => 0,
            PrereleaseKind::Beta => 1,
            PrereleaseKind::Rc => 2,
        },
        None => 3,
    }
}

fn stage_number_of(pre: Option<Prerelease>) -> (r: u64)
    ensures
        r == stage_number(pre),
{
    match pre {
        Some(p) => p.number,
        None => 0,
    }
}

impl PrereleaseKind {
    /// The letters of the kind.
    pub fn name(self) -> (r: &'static str)
        ensures
            r@ == kind_text(self),
    {
        proof {
            reveal_strlit("a");
            reveal_strlit("b");
            reveal_strlit("rc");
            assert("a"@ =~= seq!['a']);
            assert("b"@ =~= seq!['b']);
            assert("rc"@ =~= seq!['r', 'c']);
        }
        match self {
            PrereleaseKind::Alpha => "a",
            PrereleaseKind::Beta => "b",
            PrereleaseKind::Rc => "rc",
        }
    }
}

impl Prerelease {
    /// Appends the written form of the tag to `out`.
    pub fn push_to(self, out: &mut String)
        ensures
            final(out)@ == old(out)@ + prerelease_text(self),
    {
        out.append(self.kind.name());
        push_decimal(out, self.number);
        proof {
            assert(old(out)@ + kind_text(self.kind) + decimal(self.number as nat) =~= old(out)@ + (
            kind_text(self.kind) + decimal(self.number as nat)));
        }
    }
}

impl PythonVariant {
    /// The token.
    pub fn name(self) -> (r: &'static str)
        ensures
            r@ == variant_text(self),
    {
        match self {
            PythonVariant::Default => "default",
            PythonVariant::Freethreaded => "freethreaded",
        }
    }

    /// What the variant adds to the name of an executable.
    pub fn suffix(self) -> (r: &'static str)
        ensures
            r@ == variant_suffix(self),
    {
        match self {
            PythonVariant::Default => "",
            PythonVariant::Freethreaded => "t",
        }
    }

    /// Reads a token.
    pub fn parse(token: &Vec<char>) -> (r: Option<PythonVariant>)
        ensures
            r == parse_variant(token@),
    {
        if spells(token, "default") {
            Some(PythonVariant::Default)
        } else if spells(token, "freethreaded") {
            Some(PythonVariant::Freethreaded)
        } else {
            None
        }
    }
}

/// Appends `M.m.p[pre]` to `out`.
pub fn push_full_version(out: &mut String, major: u8, minor: u8, patch: u8, pre: Option<Prerelease>)
    ensures
        final(out)@ == old(out)@ + full_version_text(major, minor, patch, pre),
{
    push_decimal(out, major as u64);
    out.push('.');
    push_decimal(out, minor as u64);
    out.push('.');
    push_decimal(out, patch as u64);
    let ghost before_pre = out@;
    proof {
        assert(before_pre =~= old(out)@ + release_text(major, minor, patch));
    }
    match pre {
        Some(p) => {
            p.push_to(out);
        },
        None => {},
    }
    proof {
        assert(before_pre + optional_prerelease_text(pre) =~= old(out)@ + full_version_text(
            major,
            minor,
            patch,
            pre,
        ));
    }
}

/// Reads the number that starts at `from`, and says where it ends.
fn read_number(chars: &Vec<char>, from: usize, max: u64) -> (r: Option<(u64, usize)>)
    requires
        from <= chars.len(),
    ensures
        match (take_number(chars@.skip(from as int), max as nat), r) {
            (Some((v, rest)), Some((got, end))) => got == v && from <= end <= chars.len() && rest
                == chars@.skip(end as int),
            (None, None) => true,
            _ => false,
        },
{
    let ghost s = chars@.skip(from as int);
    let mut end: usize = from;
    while end < chars.len() && chars[end] >= '0' && chars[end] <= '9'
        invariant
            from <= end <= chars.len(),
            forall|k: int| from <= k < end ==> is_digit(#[trigger] chars@[k]),
        decreases chars.len() - end,
    {
        end += 1;
    }
    proof {
        assert forall|k: int| 0 <= k < end - from implies is_digit(#[trigger] s[k]) by {
            assert(s[k] == chars@[from + k]);
        }
        if end - from < s.len() {
            assert(s[end - from] == chars@[end as int]);
        }
        lemma_digits_len_is(s, end - from);
        assert(s.take(end - from) =~= chars@.subrange(from as int, end as int));
        assert(s.skip(end - from) =~= chars@.skip(end as int));
    }
    match parse_number(chars, from, end, max) {
        Some(v) => Some((v, end)),
        None => None,
    }
}

/// Reads the prerelease tag that `chars[from..]` spells.
fn read_prerelease(chars: &Vec<char>, from: usize) -> (r: Option<Prerelease>)
    requires
        from <= chars.len(),
    ensures
        r == parse_prerelease(chars@.skip(from as int)),
{
    let ghost s = chars@.skip(from as int);
    let n = chars.len();
    let (kind, digits) = if n - from >= 2 && chars[from] == 'r' && chars[from + 1] == 'c' {
        (PrereleaseKind::Rc, from + 2)
    } else if n - from >= 1 && chars[from] == 'a' {
        (PrereleaseKind::Alpha, from + 1)
    } else if n - from >= 1 && chars[from] == 'b' {
        (PrereleaseKind::Beta, from + 1)
    } else {
        return None;
    };
    proof {
        assert(s.skip(digits - from) =~= chars@.subrange(digits as int, n as int));
    }
    match parse_number(chars, digits, n, u64::MAX) {
        Some(number) => Some(Prerelease { kind, number }),
        None => None,
    }
}

impl PythonVersion {
    pub fn new(major: u8, minor: u8, patch: Option<u8>, pre: Option<Prerelease>) -> (r: Self)
        ensures
            r == (PythonVersion { major, minor, patch, pre }),
    {
        PythonVersion { major, minor, patch, pre }
    }

    pub fn major(&self) -> (r: u8)
        ensures
            r == self.major,
    {
        self.major
    }

    pub fn minor(&self) -> (r: u8)
        ensures
            r == self.minor,
    {
        self.minor
    }

    pub fn patch(&self) -> (r: Option<u8>)
        ensures
            r == self.patch,
    {
        self.patch
    }

    pub fn pre(&self) -> (r: Option<Prerelease>)
        ensures
            r == self.pre,
    {
        self.pre
    }

    /// Whether this is an earlier version than `other`.
    pub fn precedes(&self, other: &PythonVersion) -> (r: bool)
        ensures
            r == version_before(*self, *other),
    {
        let a_patch: u8 = match self.patch {
            Some(p) => p,
            None => 0,
        };
        let b_patch: u8 = match other.patch {
            Some(p) => p,
            None => 0,
        };
        if self.major != other.major {
            self.major < other.major
        } else if self.minor != other.minor {
            self.minor < other.minor
        } else if a_patch != b_patch {
            a_patch < b_patch
        } else if stage_rank_of(self.pre) != stage_rank_of(other.pre) {
            stage_rank_of(self.pre) < stage_rank_of(other.pre)
        } else {
            stage_number_of(self.pre) < stage_number_of(other.pre)
        }
    }

    /// The same version without its patch and its prerelease tag.
    pub fn without_patch(&self) -> (r: Self)
        ensures
            r == (PythonVersion { major: self.major, minor: self.minor, patch: None, pre: None }),
    {
        PythonVersion { major: self.major, minor: self.minor, patch: None, pre: None }
    }

    /// The written form, `M.m[.p][pre]`.
    pub fn to_string(&self) -> (r: String)
        ensures
            r@ == version_text(*self),
    {
        let mut out = String::new();
        match self.patch {
            Some(patch) => {
                push_full_version(&mut out, self.major, self.minor, patch, self.pre);
            },
            None => {
                push_decimal(&mut out, self.major as u64);
                out.push('.');
                push_decimal(&mut out, self.minor as u64);
                match self.pre {
                    Some(p) => {
                        p.push_to(&mut out);
                    },
                    None => {},
                }
            },
        }
        proof {
            assert(out@ =~= version_text(*self));
        }
        out
    }

    /// Reads a version from its characters.
    pub fn from_chars(chars: &Vec<char>) -> (r: Option<Self>)
        ensures
            r == parse_version(chars@),
    {
        let n = chars.len();
        proof {
            assert(chars@.skip(0) =~= chars@);
        }
        let (major, after_major) = match read_number(chars, 0, 255) {
            Some(found) => found,
            None => {
                return None;
            },
        };
        if !(after_major < n && chars[after_major] == '.') {
            return None;
        }
        proof {
            assert(chars@.skip(after_major as int).skip(1) =~= chars@.skip(after_major + 1));
        }
        let (minor, after_minor) = match read_number(chars, after_major + 1, 255) {
            Some(found) => found,
            None => {
                return None;
            },
        };
        let major = major as u8;
        let minor = minor as u8;
        if after_minor < n && chars[after_minor] == '.' {
            proof {
                assert(chars@.skip(after_minor as int).skip(1) =~= chars@.skip(after_minor + 1));
            }
            let (patch, after_patch) = match read_number(chars, after_minor + 1, 255) {
                Some(found) => found,
                None => {
                    return None;
                },
            };
            let patch = Some(patch as u8);
            if after_patch == n {
                Some(PythonVersion { major, minor, patch, pre: None })
            } else {
                match read_prerelease(chars, after_patch) {
                    Some(pre) => Some(PythonVersion { major, minor, patch, pre: Some(pre) }),
                    None => None,
                }
            }
        } else if after_minor == n {
            Some(PythonVersion { major, minor, patch: None, pre: None })
        } else {
            match read_prerelease(chars, after_minor) {
                Some(pre) => Some(PythonVersion { major, minor, patch: None, pre: Some(pre) }),
                None => None,
            }
        }
    }

    /// Reads a version from a string.
    pub fn from_str(s: &str) -> (r: Option<Self>)
        ensures
            r == parse_version(s@),
    {
        let chars = to_chars(s);
        PythonVersion::from_chars(&chars)
    }
}

} // verus!
