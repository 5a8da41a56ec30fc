//! Interpreter implementations: a closed set of known ones, and a lenient form
//! that also carries the raw token of an implementation it does not know.

use crate::text::{from_chars, lower_text, spells, to_chars, to_lower};
use vstd::prelude::*;

verus! {

#[derive(Clone, Copy, Debug, PartialEq, Eq, Hash, Structural)]
pub enum ImplementationName {
    CPython,
    PyPy,
    GraalPy,
}

/// An implementation as read from a token: known, or the token as it was.
#[derive(Debug, PartialEq, Eq, Hash)]
pub enum LenientImplementationName {
    Known(ImplementationName),
    Unknown(String),
}

/// The mathematical value of a [`LenientImplementationName`].
pub enum ImplementationView {
    Known(ImplementationName),
    Unknown(Seq<char>),
}

impl View for LenientImplementationName {
    type V = ImplementationView;

    open spec fn view(&self) -> ImplementationView {
        match self {
            LenientImplementationName::Known(name) => ImplementationView::Known(*name),
            LenientImplementationName::Unknown(token) => ImplementationView::Unknown(token@),
        }
    }
}

/// The lower-case token of a known implementation.
pub open spec fn implementation_text(name: ImplementationName) -> Seq<char> {
    match name {
        ImplementationName::CPython => "cpython"@,
        ImplementationName::PyPy => "pypy"@,
        ImplementationName::GraalPy => "graalpy"@,
    }
}

/// The name of a known implementation as it is shown to people.
pub open spec fn pretty_text(name: ImplementationName) -> Seq<char> {
    match name {
        ImplementationName::CPython => "CPython"@,
        ImplementationName::PyPy => "PyPy"@,
        ImplementationName::GraalPy => "GraalPy"@,
    }
}

/// The known implementation that a token names. Letter case is ignored, and each
/// implementation also answers to its short name.
pub open spec fn parse_implementation(s: Seq<char>) -> Option<ImplementationName> {
    let l = lower_text(s);
    if l == "cpython"@ || l == "python"@ || l == "cp"@ {
        Some(ImplementationName::CPython)
    } else if l == "pypy"@ || l == "pp"@ {
        Some(ImplementationName::PyPy)
    } else if l == "graalpy"@ || l == "gp"@ {
        Some(ImplementationName::GraalPy)
    } else {
        None
    }
}

/// The token of a lenient implementation name.
pub open spec fn lenient_text(v: ImplementationView) -> Seq<char> {
    match v {
        ImplementationView::Known(name) => implementation_text(name),
        ImplementationView::Unknown(token) => token,
    }
}

/// The lenient reading of a token: it never fails.
pub open spec fn lenient_from(s: Seq<char>) -> ImplementationView {
    match parse_implementation(s) {
        Some(name) => ImplementationView::Known(name),
        None => ImplementationView::Unknown(s),
    }
}

/// Whether reading the token of `v` gives `v` back within a `-`-separated key:
/// an unknown token must hold no `-` and must not name a known implementation.
pub open spec fn stable_implementation(v: ImplementationView) -> bool {
    match v {
        ImplementationView::Known(_) => true,
        ImplementationView::Unknown(token) => !token.contains('-') && parse_implementation(token)
            is None,
    }
}

/// Reveals what the implementation tokens spell.
pub proof fn reveal_implementation_tokens()
    ensures
        "cpython"@ == seq!['c', 'p', 'y', 't', 'h', 'o', 'n'],
        "python"@ == seq!['p', 'y', 't', 'h', 'o', 'n'],
        "cp"@ == seq!['c', 'p'],
        "pypy"@ == seq!['p', 'y', 'p', 'y'],
        "pp"@ == seq!['p', 'p'],
        "graalpy"@ == seq!['g', 'r', 'a', 'a', 'l', 'p', 'y'],
        "gp"@ == seq!['g', 'p'],
{
    reveal_strlit("cpython");
    reveal_strlit("python");
    reveal_strlit("cp");
    reveal_strlit("pypy");
    reveal_strlit("pp");
    reveal_strlit("graalpy");
    reveal_strlit("gp");
    assert("cpython"@ =~= seq!['c', 'p', 'y', 't', 'h', 'o', 'n']);
    assert("python"@ =~= seq!['p', 'y', 't', 'h', 'o', 'n']);
    assert("cp"@ =~= seq!['c', 'p']);
    assert("pypy"@ =~= seq!['p', 'y', 'p', 'y']);
    assert("pp"@ =~= seq!['p', 'p']);
    assert("graalpy"@ =~= seq!['g', 'r', 'a', 'a', 'l', 'p', 'y']);
    assert("gp"@ =~= seq!['g', 'p']);
}

/// A stable implementation is read back from its own token, which holds no `-`.
pub proof fn lemma_implementation_round_trip(v: ImplementationView)
    requires
        stable_implementation(v),
    ensures
        lenient_from(lenient_text(v)) == v,
        !lenient_text(v).contains('-'),
{
    reveal_implementation_tokens();
    match v {
        ImplementationView::Known(name) => {
            let t = implementation_text(name);
            assert(lower_text(t) =~= t);
            assert("pypy"@.len() == 4 && "cpython"@.len() == 7 && "python"@.len() == 6 && "cp"@.len()
                == 2);
            assert("graalpy"@[0] != "cpython"@[0]);
        },
        ImplementationView::Unknown(token) => {},
    }
}

impl ImplementationName {
    /// The lower-case token.
    pub fn name(self) -> (r: &'static str)
        ensures
            r@ == implementation_text(self),
    {
        match self {
            ImplementationName::CPython => "cpython",
            ImplementationName::PyPy => "pypy",
            ImplementationName::GraalPy => "graalpy",
        }
    }

    /// The name as it is shown to people.
    pub fn pretty(self) -> (r: &'static str)
        ensures
            r@ == pretty_text(self),
    {
        match self {
            ImplementationName::CPython => "CPython",
            ImplementationName::PyPy => "PyPy",
            ImplementationName::GraalPy => "GraalPy",
        }
    }

    /// Reads a token, ignoring letter case.
    pub fn parse(token: &Vec<char>) -> (r: Option<ImplementationName>)
        ensures
            r == parse_implementation(token@),
    {
        let l = to_lower(token);
        if spells(&l, "cpython") || spells(&l, "python") || spells(&l, "cp") {
            Some(ImplementationName::CPython)
        } else if spells(&l, "pypy") || spells(&l, "pp") {
            Some(ImplementationName::PyPy)
        } else if spells(&l, "graalpy") || spells(&l, "gp") {
            Some(ImplementationName::GraalPy)
        } else {
            None
        }
    }
}

impl Clone for LenientImplementationName {
    fn clone(&self) -> (r: Self)
        ensures
            r@ == self@,
    {
        match self {
            LenientImplementationName::Known(name) => LenientImplementationName::Known(*name),
            LenientImplementationName::Unknown(token) => LenientImplementationName::Unknown(
                token.clone(),
            ),
        }
    }
}

impl LenientImplementationName {
    /// Reads a token; a token that names no known implementation is kept as it is.
    pub fn from_chars(token: &Vec<char>) -> (r: Self)
        ensures
            r@ == lenient_from(token@),
    {
        match ImplementationName::parse(token) {
            Some(name) => LenientImplementationName::Known(name),
            None => LenientImplementationName::Unknown(from_chars(token)),
        }
    }

    /// Reads a token given as a string.
    pub fn from_name(token: &str) -> (r: Self)
        ensures
            r@ == lenient_from(token@),
    {
        let chars = to_chars(token);
        LenientImplementationName::from_chars(&chars)
    }

    /// The token.
    pub fn name(&self) -> (r: &str)
        ensures
            r@ == lenient_text(self@),
    {
        match self {
            LenientImplementationName::Known(name) => name.name(),
            LenientImplementationName::Unknown(token) => token.as_str(),
        }
    }

    /// Whether the two are the same implementation.
    pub fn same(&self, other: &Self) -> (r: bool)
        ensures
            r == (self@ == other@),
    {
        match (self, other) {
            (LenientImplementationName::Known(a), LenientImplementationName::Known(b)) => *a == *b,
            (LenientImplementationName::Unknown(s), LenientImplementationName::Unknown(t)) => *s
                == *t,
            _ => false,
        }
    }

    /// Whether this is anything but CPython.
    pub fn is_alternative(&self) -> (r: bool)
        ensures
            r == (self@ != ImplementationView::Known(ImplementationName::CPython)),
    {
        match self {
            LenientImplementationName::Known(ImplementationName::CPython) => false,
            _ => true,
        }
    }
}

} // verus!
