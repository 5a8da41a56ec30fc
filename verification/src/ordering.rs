//! The order of installation keys: by implementation, then version, then
//! operating system, architecture and C library, then variant, with the default
//! variant first.

use crate::implementation::{ImplementationName, ImplementationView, LenientImplementationName};
use crate::key::{KeyView, PythonInstallationKey};
use crate::platform::{
    arch_text, libc_text, os_text, reveal_platform_tokens, Arch, Libc, Os,
};
use crate::text::to_chars;
use crate::version::{version_before, PythonVariant, PythonVersion};
use std::cmp::Ordering;
use vstd::prelude::*;

verus! {

/// On which side of another value a value stands.
#[derive(Clone, Copy, Debug, PartialEq, Eq, Hash, Structural)]
pub enum Side {
    Before,
    Same,
    After,
}

/// Whether `a` comes before `b` in the order of texts: at the first place where
/// they differ `a` has the lesser character, or `a` ends there and `b` does not.
pub open spec fn text_before(a: Seq<char>, b: Seq<char>) -> bool
    decreases a.len(),
{
    if b.len() == 0 {
        false
    } else if a.len() == 0 {
        true
    } else if a[0] != b[0] {
        a[0] < b[0]
    } else {
        text_before(a.skip(1), b.skip(1))
    }
}

/// The side of `a` from `b`, given which of the two comes before the other.
pub open spec fn side_from(a_before_b: bool, b_before_a: bool) -> Side {
    if a_before_b {
        Side::Before
    } else if b_before_a {
        Side::After
    } else {
        Side::Same
    }
}

pub open spec fn text_side(a: Seq<char>, b: Seq<char>) -> Side {
    side_from(text_before(a, b), text_before(b, a))
}

/// The place of a known implementation among the known ones.
pub open spec fn implementation_rank(name: ImplementationName) -> int {
    match name {
        ImplementationName::CPython => 0,
        ImplementationName::PyPy => 1,
        ImplementationName::GraalPy => 2,
    }
}

/// Known implementations come first, in their own order; unknown ones follow,
/// in the order of their tokens.
pub open spec fn implementation_before(a: ImplementationView, b: ImplementationView) -> bool {
    match (a, b) {
        (ImplementationView::Known(x), ImplementationView::Known(y)) => implementation_rank(x)
            < implementation_rank(y),
        (ImplementationView::Known(_), ImplementationView::Unknown(_)) => true,
        (ImplementationView::Unknown(_), ImplementationView::Known(_)) => false,
        (ImplementationView::Unknown(s), ImplementationView::Unknown(t)) => text_before(s, t),
    }
}

/// The version of a key.
pub open spec fn key_version(k: KeyView) -> PythonVersion {
    PythonVersion { major: k.major, minor: k.minor, patch: Some(k.patch), pre: k.prerelease }
}

/// The default variant comes before the free-threaded one.
pub open spec fn variant_before(a: PythonVariant, b: PythonVariant) -> bool {
    a == PythonVariant::Default && b == PythonVariant::Freethreaded
}

/// `first`, unless it is `Same`: then `rest`.
pub open spec fn or_else(first: Side, rest: Side) -> Side {
    if first != Side::Same {
        first
    } else {
        rest
    }
}

/// The sides of the parts of `a` from those of `b`, in the order in which they
/// count: implementation, version, operating system, architecture, C library,
/// variant. The platform parts are ordered as their tokens are.
pub open spec fn part_sides(a: KeyView, b: KeyView) -> Seq<Side> {
    seq![
        side_from(
            implementation_before(a.implementation, b.implementation),
            implementation_before(b.implementation, a.implementation),
        ),
        side_from(
            version_before(key_version(a), key_version(b)),
            version_before(key_version(b), key_version(a)),
        ),
        text_side(os_text(a.os), os_text(b.os)),
        text_side(arch_text(a.arch), arch_text(b.arch)),
        text_side(libc_text(a.libc), libc_text(b.libc)),
        side_from(variant_before(a.variant, b.variant), variant_before(b.variant, a.variant)),
    ]
}

/// The side of the key `a` from the key `b`: that of the first part in which
/// the keys differ.
pub open spec fn key_side(a: KeyView, b: KeyView) -> Side {
    let p = part_sides(a, b);
    or_else(p[0], or_else(p[1], or_else(p[2], or_else(p[3], or_else(p[4], p[5])))))
}

/// Whether the key `a` comes before the key `b`.
pub open spec fn key_before(a: KeyView, b: KeyView) -> bool {
    key_side(a, b) == Side::Before
}

/// The order of texts is a strict total order.
pub proof fn lemma_text_order(a: Seq<char>, b: Seq<char>)
    ensures
        !(text_before(a, b) && text_before(b, a)),
        !text_before(a, b) && !text_before(b, a) ==> a == b,
        !text_before(a, a),
    decreases a.len(),
{
    if a.len() > 0 {
        lemma_text_order(a.skip(1), a.skip(1));
    }
    if a.len() > 0 && b.len() > 0 && a[0] == b[0] {
        lemma_text_order(a.skip(1), b.skip(1));
        if a.skip(1) == b.skip(1) {
            assert(a =~= seq![a[0]] + a.skip(1));
            assert(b =~= seq![b[0]] + b.skip(1));
        }
    }
    if a.len() == 0 && b.len() == 0 {
        assert(a =~= b);
    }
}

/// The order of texts is transitive.
pub proof fn lemma_text_order_transitive(a: Seq<char>, b: Seq<char>, c: Seq<char>)
    requires
        text_before(a, b),
        text_before(b, c),
    ensures
        text_before(a, c),
    decreases a.len(),
{
    if a.len() > 0 && a[0] == b[0] && b[0] == c[0] {
        lemma_text_order_transitive(a.skip(1), b.skip(1), c.skip(1));
    }
}

/// Different platform parts have different tokens.
pub proof fn lemma_tokens_differ(a: KeyView, b: KeyView)
    ensures
        os_text(a.os) == os_text(b.os) ==> a.os == b.os,
        arch_text(a.arch) == arch_text(b.arch) ==> a.arch == b.arch,
        libc_text(a.libc) == libc_text(b.libc) ==> a.libc == b.libc,
{
    reveal_platform_tokens();
    assert("linux"@.len() == 5 && "macos"@.len() == 5 && "windows"@.len() == 7);
    assert("macos"@[0] != "linux"@[0]);
    assert("aarch64"@.len() == 7 && "armv7"@.len() == 5 && "powerpc64le"@.len() == 11);
    assert("riscv64"@.len() == 7 && "s390x"@.len() == 5 && "x86"@.len() == 3 && "x86_64"@.len()
        == 6);
    assert("riscv64"@[0] != "aarch64"@[0]);
    assert("s390x"@[0] != "armv7"@[0]);
    assert("gnu"@.len() == 3 && "gnueabi"@.len() == 7 && "gnueabihf"@.len() == 9);
    assert("musl"@.len() == 4 && "none"@.len() == 4);
    assert("none"@[0] != "musl"@[0]);
}

/// Every part of one key stands on the same side of the other key's part only
/// if the parts are equal, and the sides of the two directions mirror each
/// other.
proof fn lemma_parts_mirror(a: KeyView, b: KeyView)
    ensures
        forall|i: int|
            0 <= i < 6 ==> ((#[trigger] part_sides(a, b)[i] == Side::Before) == (part_sides(b, a)[i]
                == Side::After)) && ((part_sides(a, b)[i] == Side::After) == (part_sides(b, a)[i]
                == Side::Before)),
        part_sides(a, b)[0] == Side::Same ==> a.implementation == b.implementation,
        part_sides(a, b)[1] == Side::Same ==> a.major == b.major && a.minor == b.minor && a.patch
            == b.patch && a.prerelease == b.prerelease,
        part_sides(a, b)[2] == Side::Same ==> a.os == b.os,
        part_sides(a, b)[3] == Side::Same ==> a.arch == b.arch,
        part_sides(a, b)[4] == Side::Same ==> a.libc == b.libc,
        part_sides(a, b)[5] == Side::Same ==> a.variant == b.variant,
{
    lemma_tokens_differ(a, b);
    lemma_text_order(os_text(a.os), os_text(b.os));
    lemma_text_order(arch_text(a.arch), arch_text(b.arch));
    lemma_text_order(libc_text(a.libc), libc_text(b.libc));
    match (a.implementation, b.implementation) {
        (ImplementationView::Unknown(s), ImplementationView::Unknown(t)) => {
            lemma_text_order(s, t);
        },
        _ => {},
    }
}

/// No key comes before itself, and of two keys at most one comes before the
/// other.
pub proof fn lemma_key_order_asymmetric(a: KeyView, b: KeyView)
    ensures
        !key_before(a, a),
        !(key_before(a, b) && key_before(b, a)),
        key_side(a, b) == Side::After <==> key_before(b, a),
{
    lemma_parts_mirror(a, b);
    lemma_parts_mirror(a, a);
    let s = part_sides(a, b);
    let t = part_sides(b, a);
    assert(s[0] == Side::Same <==> t[0] == Side::Same);
    assert(s[1] == Side::Same <==> t[1] == Side::Same);
    assert(s[2] == Side::Same <==> t[2] == Side::Same);
    assert(s[3] == Side::Same <==> t[3] == Side::Same);
    assert(s[4] == Side::Same <==> t[4] == Side::Same);
    assert(s[5] == Side::Same <==> t[5] == Side::Same);
}

/// Of two different keys one comes before the other.
pub proof fn lemma_key_order_total(a: KeyView, b: KeyView)
    ensures
        key_side(a, b) == Side::Same <==> a == b,
{
    lemma_parts_mirror(a, b);
    lemma_parts_mirror(a, a);
    lemma_key_order_asymmetric(a, a);
}

/// The order of keys is transitive.
pub proof fn lemma_key_order_transitive(a: KeyView, b: KeyView, c: KeyView)
    requires
        key_before(a, b),
        key_before(b, c),
    ensures
        key_before(a, c),
{
    lemma_parts_mirror(a, b);
    lemma_parts_mirror(b, c);
    lemma_parts_mirror(a, c);
    let ab = part_sides(a, b);
    let bc = part_sides(b, c);
    let ac = part_sides(a, c);
    // Each part is ordered transitively.
    assert(ab[0] == Side::Before && bc[0] == Side::Before ==> ac[0] == Side::Before) by {
        match (a.implementation, b.implementation, c.implementation) {
            (
                ImplementationView::Unknown(s),
                ImplementationView::Unknown(t),
                ImplementationView::Unknown(u),
            ) => {
                if text_before(s, t) && text_before(t, u) {
                    lemma_text_order_transitive(s, t, u);
                }
            },
            _ => {},
        }
    }
    assert(ab[1] == Side::Before && bc[1] == Side::Before ==> ac[1] == Side::Before);
    assert(ab[2] == Side::Before && bc[2] == Side::Before ==> ac[2] == Side::Before) by {
        if text_before(os_text(a.os), os_text(b.os)) && text_before(os_text(b.os), os_text(c.os)) {
            lemma_text_order_transitive(os_text(a.os), os_text(b.os), os_text(c.os));
        }
    }
    assert(ab[3] == Side::Before && bc[3] == Side::Before ==> ac[3] == Side::Before) by {
        if text_before(arch_text(a.arch), arch_text(b.arch)) && text_before(
            arch_text(b.arch),
            arch_text(c.arch),
        ) {
            lemma_text_order_transitive(arch_text(a.arch), arch_text(b.arch), arch_text(c.arch));
        }
    }
    assert(ab[4] == Side::Before && bc[4] == Side::Before ==> ac[4] == Side::Before) by {
        if text_before(libc_text(a.libc), libc_text(b.libc)) && text_before(
            libc_text(b.libc),
            libc_text(c.libc),
        ) {
            lemma_text_order_transitive(libc_text(a.libc), libc_text(b.libc), libc_text(c.libc));
        }
    }
    assert(ab[5] == Side::Before && bc[5] == Side::Before ==> ac[5] == Side::Before);
    // Equal parts stand on the same side of a third.
    assert(ab[0] == Side::Same ==> ac[0] == bc[0]);
    assert(bc[0] == Side::Same ==> ac[0] == ab[0]);
    assert(ab[1] == Side::Same ==> ac[1] == bc[1]);
    assert(bc[1] == Side::Same ==> ac[1] == ab[1]);
    assert(ab[2] == Side::Same ==> ac[2] == bc[2]);
    assert(bc[2] == Side::Same ==> ac[2] == ab[2]);
    assert(ab[3] == Side::Same ==> ac[3] == bc[3]);
    assert(bc[3] == Side::Same ==> ac[3] == ab[3]);
    assert(ab[4] == Side::Same ==> ac[4] == bc[4]);
    assert(bc[4] == Side::Same ==> ac[4] == ab[4]);
    assert(ab[5] == Side::Same ==> ac[5] == bc[5]);
    assert(bc[5] == Side::Same ==> ac[5] == ab[5]);
}

/// Compares two texts.
pub fn compare_chars(a: &Vec<char>, b: &Vec<char>) -> (r: Side)
    ensures
        r == text_side(a@, b@),
{
    let mut i: usize = 0;
    proof {
        assert(a@.skip(0) =~= a@);
        assert(b@.skip(0) =~= b@);
    }
    while i < a.len() && i < b.len()
        invariant
            i <= a.len(),
            i <= b.len(),
            text_before(a@, b@) == text_before(a@.skip(i as int), b@.skip(i as int)),
            text_before(b@, a@) == text_before(b@.skip(i as int), a@.skip(i as int)),
        decreases a.len() - i,
    {
        let ghost x = a@.skip(i as int);
        let ghost y = b@.skip(i as int);
        proof {
            assert(x[0] == a@[i as int]);
            assert(y[0] == b@[i as int]);
            assert(x.skip(1) =~= a@.skip(i + 1));
            assert(y.skip(1) =~= b@.skip(i + 1));
        }
        if a[i] < b[i] {
            return Side::Before;
        }
        if b[i] < a[i] {
            return Side::After;
        }
        i += 1;
    }
    proof {
        let x = a@.skip(i as int);
        let y = b@.skip(i as int);
        assert(x.len() == 0 || y.len() == 0);
    }
    if i < b.len() {
        Side::Before
    } else if i < a.len() {
        Side::After
    } else {
        Side::Same
    }
}

/// Compares two texts given as strings.
pub fn compare_text(a: &str, b: &str) -> (r: Side)
    ensures
        r == text_side(a@, b@),
{
    let x = to_chars(a);
    let y = to_chars(b);
    compare_chars(&x, &y)
}

fn rank_of(name: ImplementationName) -> (r: u8)
    ensures
        r == implementation_rank(name),
{
    match name {
        ImplementationName::CPython => 0,
        ImplementationName::PyPy => 1,
        ImplementationName::GraalPy => 2,
    }
}

fn compare_implementations(a: &LenientImplementationName, b: &LenientImplementationName) -> (r:
    Side)
    ensures
        r == side_from(implementation_before(a@, b@), implementation_before(b@, a@)),
{
    match (a, b) {
        (LenientImplementationName::Known(x), LenientImplementationName::Known(y)) => {
            let p = rank_of(*x);
            let q = rank_of(*y);
            if p < q {
                Side::Before
            } else if q < p {
                Side::After
            } else {
                Side::Same
            }
        },
        (LenientImplementationName::Known(_), LenientImplementationName::Unknown(_)) => {
            Side::Before
        },
        (LenientImplementationName::Unknown(_), LenientImplementationName::Known(_)) => Side::After,
        (LenientImplementationName::Unknown(s), LenientImplementationName::Unknown(t)) => {
            compare_text(s.as_str(), t.as_str())
        },
    }
}

fn compare_variants(a: PythonVariant, b: PythonVariant) -> (r: Side)
    ensures
        r == side_from(variant_before(a, b), variant_before(b, a)),
{
    match (a, b) {
        (PythonVariant::Default, PythonVariant::Freethreaded) => Side::Before,
        (PythonVariant::Freethreaded, PythonVariant::Default) => Side::After,
        _ => Side::Same,
    }
}

impl PythonInstallationKey {
    /// On which side of `other` this key stands.
    pub fn side(&self, other: &Self) -> (r: Side)
        ensures
            r == key_side(self@, other@),
    {
        let by_implementation = compare_implementations(
            self.implementation(),
            other.implementation(),
        );
        if by_implementation != Side::Same {
            return by_implementation;
        }
        let mine = self.version();
        let theirs = other.version();
        if mine.precedes(&theirs) {
            return Side::Before;
        }
        if theirs.precedes(&mine) {
            return Side::After;
        }
        let by_os = compare_text(self.os().name(), other.os().name());
        if by_os != Side::Same {
            return by_os;
        }
        let by_arch = compare_text(self.arch().name(), other.arch().name());
        if by_arch != Side::Same {
            return by_arch;
        }
        let by_libc = compare_text(self.libc().name(), other.libc().name());
        if by_libc != Side::Same {
            return by_libc;
        }
        // The default variant comes first.
        compare_variants(*self.variant(), *other.variant())
    }

    /// Whether this key comes before `other`.
    pub fn precedes(&self, other: &Self) -> (r: bool)
        ensures
            r == key_before(self@, other@),
    {
        self.side(other) == Side::Before
    }

    /// Whether the two keys are the same key.
    pub fn same(&self, other: &Self) -> (r: bool)
        ensures
            r == (self@ == other@),
    {
        proof {
            lemma_key_order_total(self@, other@);
        }
        self.side(other) == Side::Same
    }

    /// The order of this key and `other`.
    pub fn cmp(&self, other: &Self) -> (r: Ordering)
        ensures
            r == Ordering::Less <==> key_before(self@, other@),
            r == Ordering::Greater <==> key_before(other@, self@),
            r == Ordering::Equal <==> self@ == other@,
    {
        proof {
            lemma_key_order_asymmetric(self@, other@);
            lemma_key_order_total(self@, other@);
        }
        match self.side(other) {
            Side::Before => Ordering::Less,
            Side::Same => Ordering::Equal,
            Side::After => Ordering::Greater,
        }
    }
}

/// The order of two keys as the standard library names it.
pub open spec fn key_order(a: KeyView, b: KeyView) -> Ordering {
    match key_side(a, b) {
        Side::Before => Ordering::Less,
        Side::Same => Ordering::Equal,
        Side::After => Ordering::Greater,
    }
}

impl PartialOrd for PythonInstallationKey {
    fn partial_cmp(&self, other: &Self) -> (r: Option<Ordering>) {
        Some(
            match self.side(other) {
                Side::Before => Ordering::Less,
                Side::Same => Ordering::Equal,
                Side::After => Ordering::Greater,
            },
        )
    }
}

impl vstd::std_specs::cmp::PartialOrdSpecImpl for PythonInstallationKey {
    open spec fn obeys_partial_cmp_spec() -> bool {
        true
    }

    open spec fn partial_cmp_spec(&self, other: &Self) -> Option<Ordering> {
        Some(key_order(self@, other@))
    }
}

} // verus!
