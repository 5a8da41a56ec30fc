//! Normalization of package, extra and group names: letters fold to lower case
//! and every run of `-`, `_` and `.` becomes a single `-`.

use crate::text::is_digit;
use crate::text::lower_char;
use crate::text::to_lower_char;
use uv_small_str::SmallString;
use vstd::prelude::*;
use vstd::std_specs::iter::IteratorSpec;
use vstd::string::StringExecFns;

verus! {

/// An optimized immutable string of `uv_small_str`; nothing of its inside is
/// visible here.
#[verifier::external_type_specification]
#[verifier::external_body]
pub struct ExSmallString(SmallString);

/// The characters that a [`SmallString`] holds.
pub uninterp spec fn small_string_text(s: SmallString) -> Seq<char>;

/// `SmallString::from` for a string slice: the result holds the characters of
/// the slice.
#[verifier::external_body]
fn small_string_from(s: &str) -> (r: SmallString)
    ensures
        small_string_text(r) == s@,
{
    SmallString::from(s)
}

/// A name that was refused, as it was given.
#[derive(Clone, Debug, PartialEq, Eq)]
pub struct InvalidNameError(String);

/// A group path that does not end in `pyproject.toml`, as it was given.
#[derive(Clone, Debug, PartialEq, Eq)]
pub struct InvalidPipGroupPathError(String);

/// What can be wrong with a group given as `path:name`.
#[derive(Clone, Debug, PartialEq, Eq)]
pub enum InvalidPipGroupError {
    Name(InvalidNameError),
    Path(InvalidPipGroupPathError),
}

pub open spec fn is_lower_alnum(c: char) -> bool {
    ('a' <= c && c <= 'z') || is_digit(c)
}

pub open spec fn is_upper(c: char) -> bool {
    'A' <= c && c <= 'Z'
}

pub open spec fn is_alnum(c: char) -> bool {
    is_lower_alnum(c) || is_upper(c)
}

pub open spec fn is_punct(c: char) -> bool {
    c == '-' || c == '_' || c == '.'
}

pub open spec fn permitted(c: char) -> bool {
    is_alnum(c) || is_punct(c)
}

/// A name is valid if it is not empty, holds only ASCII letters, digits, `-`,
/// `_` and `.`, and starts and ends with a letter or digit.
pub open spec fn valid_name(s: Seq<char>) -> bool {
    &&& s.len() > 0
    &&& forall|i: int| 0 <= i < s.len() ==> permitted(#[trigger] s[i])
    &&& is_alnum(s[0])
    &&& is_alnum(s.last())
}

/// The normal form of a name: each letter or digit in lower case, and one `-`
/// for each maximal run of `-`, `_` and `.`.
pub open spec fn normalized(s: Seq<char>) -> Seq<char>
    decreases s.len(),
{
    if s.len() == 0 {
        s
    } else {
        let before = s.drop_last();
        if !is_punct(s.last()) {
            normalized(before).push(lower_char(s.last()))
        } else if before.len() > 0 && is_punct(before.last()) {
            normalized(before)
        } else {
            normalized(before).push('-')
        }
    }
}

/// The character at `i` is as the normal form has it: a lower-case letter or a
/// digit, or a `-` that follows something other than a `-`.
pub open spec fn plain_at(s: Seq<char>, i: int) -> bool {
    is_lower_alnum(s[i]) || (s[i] == '-' && i > 0 && s[i - 1] != '-')
}

/// `i` is where the first character stands that is not as the normal form has
/// it, or the length of `s` if there is none.
pub open spec fn is_first_irregular(s: Seq<char>, i: int) -> bool {
    &&& 0 <= i <= s.len()
    &&& forall|k: int| 0 <= k < i ==> plain_at(s, k)
    &&& i < s.len() ==> !plain_at(s, i)
}

pub open spec fn first_irregular(s: Seq<char>) -> int {
    choose|i: int| is_first_irregular(s, i)
}

/// What the quick check answers.
pub enum Verdict {
    /// The name is valid and in normal form.
    Normal,
    /// The name is not in normal form; whether it is valid was not decided.
    Changed,
    /// The name is not valid.
    Invalid,
}

/// The answer of the quick check. It is decided at the first character that is
/// not as the normal form has it: an upper-case letter, `_`, `.` or a repeated
/// `-` say that the name is not in normal form; a leading `-` or a character
/// that no name may hold make it invalid. If there is no such character, the
/// name is in normal form unless it is empty or ends with `-`.
pub open spec fn quick_verdict(s: Seq<char>) -> Verdict {
    let i = first_irregular(s);
    if i < s.len() {
        let c = s[i];
        if is_upper(c) || c == '_' || c == '.' {
            Verdict::Changed
        } else if c == '-' && i > 0 {
            Verdict::Changed
        } else {
            Verdict::Invalid
        }
    } else if s.len() == 0 || s.last() == '-' {
        Verdict::Invalid
    } else {
        Verdict::Normal
    }
}

/// There is exactly one first irregular position.
pub proof fn lemma_first_irregular_is(s: Seq<char>, i: int)
    requires
        is_first_irregular(s, i),
    ensures
        first_irregular(s) == i,
{
    let j = first_irregular(s);
    assert(is_first_irregular(s, j));
    if j < i {
        assert(plain_at(s, j));
    } else if i < j {
        assert(plain_at(s, i));
    }
}

proof fn lemma_first_irregular_exists(s: Seq<char>, n: int) -> (i: int)
    requires
        0 <= n <= s.len(),
        forall|k: int| 0 <= k < n ==> plain_at(s, k),
    ensures
        is_first_irregular(s, i),
    decreases s.len() - n,
{
    if n < s.len() && plain_at(s, n) {
        lemma_first_irregular_exists(s, n + 1)
    } else {
        n
    }
}

/// What the normal form of a text is made of, if the text starts with a letter
/// or digit and holds only permitted characters.
proof fn lemma_normalized_shape(s: Seq<char>)
    requires
        s.len() > 0,
        forall|i: int| 0 <= i < s.len() ==> permitted(#[trigger] s[i]),
        is_alnum(s[0]),
    ensures
        normalized(s).len() > 0,
        forall|i: int| 0 <= i < normalized(s).len() ==> plain_at(normalized(s), i),
        (normalized(s).last() == '-') == is_punct(s.last()),
    decreases s.len(),
{
    let n = normalized(s);
    let before = s.drop_last();
    if s.len() == 1 {
        assert(normalized(before) =~= Seq::<char>::empty());
        assert(n =~= seq![lower_char(s[0])]);
    } else {
        assert forall|i: int| 0 <= i < before.len() implies permitted(#[trigger] before[i]) by {
            assert(before[i] == s[i]);
        }
        assert(before[0] == s[0]);
        lemma_normalized_shape(before);
        let m = normalized(before);
        if !(is_punct(s.last()) && is_punct(before.last())) {
            assert forall|i: int| 0 <= i < n.len() implies plain_at(n, i) by {
                if i < m.len() {
                    assert(plain_at(m, i));
                    assert(n[i] == m[i]);
                    if i > 0 {
                        assert(n[i - 1] == m[i - 1]);
                    }
                } else {
                    assert(n[i - 1] == m.last());
                }
            }
        }
    }
}

/// A text that is as the normal form has it everywhere is its own normal form.
proof fn lemma_plain_is_fixed(s: Seq<char>)
    requires
        forall|i: int| 0 <= i < s.len() ==> plain_at(s, i),
    ensures
        normalized(s) == s,
    decreases s.len(),
{
    if s.len() > 0 {
        let before = s.drop_last();
        assert forall|i: int| 0 <= i < before.len() implies plain_at(before, i) by {
            assert(plain_at(s, i));
        }
        lemma_plain_is_fixed(before);
        let last = s.len() - 1;
        assert(plain_at(s, last));
        if s.last() == '-' {
            assert(before.last() == s[last - 1]);
            assert(plain_at(s, last - 1));
        }
        assert(normalized(s) =~= s);
    }
}

/// Normalizing is idempotent: the normal form of a valid name is a valid name,
/// and it is its own normal form.
pub proof fn lemma_normalize_idempotent(s: Seq<char>)
    requires
        valid_name(s),
    ensures
        valid_name(normalized(s)),
        normalized(normalized(s)) == normalized(s),
{
    lemma_normalized_shape(s);
    let n = normalized(s);
    lemma_plain_is_fixed(n);
    assert(plain_at(n, 0));
    assert(plain_at(n, n.len() - 1));
    assert forall|i: int| 0 <= i < n.len() implies permitted(#[trigger] n[i]) by {
        assert(plain_at(n, i));
    }
}

/// On a valid name the quick check says whether the name is its own normal
/// form.
pub proof fn lemma_quick_verdict_agrees(s: Seq<char>)
    requires
        valid_name(s),
    ensures
        quick_verdict(s) == (if normalized(s) == s {
            Verdict::Normal
        } else {
            Verdict::Changed
        }),
{
    let i = lemma_first_irregular_exists(s, 0);
    lemma_first_irregular_is(s, i);
    lemma_normalized_shape(s);
    let n = normalized(s);
    if i < s.len() {
        assert(permitted(s[i]));
        if n == s {
            assert(plain_at(n, i));
        }
    } else {
        lemma_plain_is_fixed(s);
    }
}

/// The quick check never takes a name that is not valid for one in normal
/// form, and it takes no valid name for an invalid one.
pub proof fn lemma_quick_verdict_sound(s: Seq<char>)
    ensures
        quick_verdict(s) == Verdict::Normal ==> valid_name(s),
        quick_verdict(s) == Verdict::Invalid ==> !valid_name(s),
{
    let i = lemma_first_irregular_exists(s, 0);
    lemma_first_irregular_is(s, i);
    if valid_name(s) {
        lemma_quick_verdict_agrees(s);
    }
    if quick_verdict(s) == Verdict::Normal {
        assert(plain_at(s, 0));
        assert(plain_at(s, s.len() - 1));
        assert forall|k: int| 0 <= k < s.len() implies permitted(#[trigger] s[k]) by {
            assert(plain_at(s, k));
        }
    }
}

/// The quick check and the full normalizer refuse the same names, but for the
/// names on which the quick check stops early: there it only says that the name
/// is not in normal form, and a later character may still make the name invalid.
pub proof fn lemma_same_rejections(s: Seq<char>)
    requires
        !(quick_verdict(s) == Verdict::Changed && !valid_name(s)),
    ensures
        quick_verdict(s) == Verdict::Invalid <==> !valid_name(s),
{
    lemma_quick_verdict_sound(s);
}

impl InvalidNameError {
    /// The name that was refused.
    pub closed spec fn text(&self) -> Seq<char> {
        self.0@
    }

    /// Returns the invalid name.
    pub fn as_str(&self) -> (r: &str)
        ensures
            r@ == self.text(),
    {
        self.0.as_str()
    }

    /// The sentence that tells a person what went wrong.
    pub fn to_string(&self) -> (r: String)
        ensures
            r@ == "Not a valid package or extra name: \""@ + self.text()
                + "\". Names must start and end with a letter or digit and may only contain -, _, ., and alphanumeric characters."@,
    {
        let mut out = String::from_str("Not a valid package or extra name: \"");
        out.append(self.0.as_str());
        out.append(
            "\". Names must start and end with a letter or digit and may only contain -, _, ., and alphanumeric characters.",
        );
        out
    }
}

impl InvalidPipGroupPathError {
    /// The path that was refused.
    pub closed spec fn text(&self) -> Seq<char> {
        self.0@
    }

    /// Returns the invalid path.
    pub fn as_str(&self) -> (r: &str)
        ensures
            r@ == self.text(),
    {
        self.0.as_str()
    }

    /// The sentence that tells a person what went wrong.
    pub fn to_string(&self) -> (r: String)
        ensures
            r@
                == "The `--group` path is required to end in 'pyproject.toml' for compatibility with pip; got: "@
                + self.text(),
    {
        let mut out = String::from_str(
            "The `--group` path is required to end in 'pyproject.toml' for compatibility with pip; got: ",
        );
        out.append(self.0.as_str());
        out
    }
}

impl InvalidPipGroupError {
    /// The sentence of the error inside.
    pub fn to_string(&self) -> (r: String)
        ensures
            match self {
                InvalidPipGroupError::Name(e) => r@ == "Not a valid package or extra name: \""@
                    + e.text()
                    + "\". Names must start and end with a letter or digit and may only contain -, _, ., and alphanumeric characters."@,
                InvalidPipGroupError::Path(e) => r@
                    == "The `--group` path is required to end in 'pyproject.toml' for compatibility with pip; got: "@
                    + e.text(),
            },
    {
        match self {
            InvalidPipGroupError::Name(e) => e.to_string(),
            InvalidPipGroupError::Path(e) => e.to_string(),
        }
    }
}

impl From<InvalidNameError> for InvalidPipGroupError {
    fn from(value: InvalidNameError) -> (r: Self) {
        InvalidPipGroupError::Name(value)
    }
}

impl vstd::std_specs::convert::FromSpecImpl<InvalidNameError> for InvalidPipGroupError {
    open spec fn obeys_from_spec() -> bool {
        true
    }

    open spec fn from_spec(value: InvalidNameError) -> Self {
        InvalidPipGroupError::Name(value)
    }
}

impl From<InvalidPipGroupPathError> for InvalidPipGroupError {
    fn from(value: InvalidPipGroupPathError) -> (r: Self) {
        InvalidPipGroupError::Path(value)
    }
}

impl vstd::std_specs::convert::FromSpecImpl<InvalidPipGroupPathError> for InvalidPipGroupError {
    open spec fn obeys_from_spec() -> bool {
        true
    }

    open spec fn from_spec(value: InvalidPipGroupPathError) -> Self {
        InvalidPipGroupError::Path(value)
    }
}

/// The error that carries `name`.
fn invalid_name(name: &str) -> (e: InvalidNameError)
    ensures
        e.text() == name@,
{
    InvalidNameError(String::from_str(name))
}

/// Normalize an unowned package or extra name.
pub fn normalize(name: &str) -> (r: Result<String, InvalidNameError>)
    ensures
        match r {
            Ok(n) => valid_name(name@) && n@ == normalized(name@),
            Err(e) => !valid_name(name@) && e.text() == name@,
        },
{
    broadcast use vstd::string::group_string_axioms;

    let mut out = String::new();
    let mut last: Option<char> = None;
    let ghost mut seen = Seq::<char>::empty();
    let mut it = name.chars();
    proof {
        assert(seen + it.remaining() =~= name@);
    }
    loop
        invariant
            it.obeys_prophetic_iter_laws(),
            seen + it.remaining() == name@,
            out@ == normalized(seen),
            forall|i: int| 0 <= i < seen.len() ==> permitted(#[trigger] seen[i]),
            seen.len() > 0 ==> is_alnum(seen[0]),
            last == (if seen.len() > 0 {
                Some(seen.last())
            } else {
                None::<char>
            }),
        ensures
            seen == name@,
            out@ == normalized(seen),
            forall|i: int| 0 <= i < seen.len() ==> permitted(#[trigger] seen[i]),
            seen.len() > 0 ==> is_alnum(seen[0]),
            last == (if seen.len() > 0 {
                Some(seen.last())
            } else {
                None::<char>
            }),
        decreases name@.len() - seen.len(),
    {
        let c = match it.next() {
            Some(c) => c,
            None => {
                proof {
                    assert(seen + it.remaining() =~= seen);
                }
                break ;
            },
        };
        let ghost at = seen.len() as int;
        let ghost next = seen.push(c);
        proof {
            assert(next + it.remaining() =~= name@);
            assert(name@[at] == c);
            assert(next.drop_last() =~= seen);
        }
        if c >= 'A' && c <= 'Z' {
            out.push(to_lower_char(c));
        } else if (c >= 'a' && c <= 'z') || (c >= '0' && c <= '9') {
            out.push(c);
        } else if c == '-' || c == '_' || c == '.' {
            match last {
                None => {
                    // Names can't start with punctuation.
                    return Err(invalid_name(name));
                },
                Some(previous) => {
                    if !(previous == '-' || previous == '_' || previous == '.') {
                        out.push('-');
                    }
                },
            }
        } else {
            return Err(invalid_name(name));
        }
        last = Some(c);
        proof {
            seen = next;
        }
    }
    // Names can't be empty, and can't end with punctuation.
    match last {
        None => Err(invalid_name(name)),
        Some(c) => {
            if c == '-' || c == '_' || c == '.' {
                Err(invalid_name(name))
            } else {
                Ok(out)
            }
        },
    }
}

/// Tells whether the name is already normalized, or refuses it. The name is
/// read once, and the answer falls at the first character that decides it.
pub fn is_normalized(name: &str) -> (r: Result<bool, InvalidNameError>)
    ensures
        match quick_verdict(name@) {
            Verdict::Normal => r == Ok::<bool, InvalidNameError>(true),
            Verdict::Changed => r == Ok::<bool, InvalidNameError>(false),
            Verdict::Invalid => r is Err && r->Err_0.text() == name@,
        },
{
    broadcast use vstd::string::group_string_axioms;

    let mut last: Option<char> = None;
    let ghost mut seen = Seq::<char>::empty();
    let mut it = name.chars();
    proof {
        assert(seen + it.remaining() =~= name@);
    }
    loop
        invariant
            it.obeys_prophetic_iter_laws(),
            seen + it.remaining() == name@,
            forall|i: int| 0 <= i < seen.len() ==> plain_at(seen, i),
            last == (if seen.len() > 0 {
                Some(seen.last())
            } else {
                None::<char>
            }),
        ensures
            seen == name@,
            forall|i: int| 0 <= i < seen.len() ==> plain_at(seen, i),
            last == (if seen.len() > 0 {
                Some(seen.last())
            } else {
                None::<char>
            }),
        decreases name@.len() - seen.len(),
    {
        let c = match it.next() {
            Some(c) => c,
            None => {
                proof {
                    assert(seen + it.remaining() =~= seen);
                }
                break ;
            },
        };
        let ghost at = seen.len() as int;
        let ghost next = seen.push(c);
        proof {
            assert(next + it.remaining() =~= name@);
            assert(name@[at] == c);
            assert forall|i: int| 0 <= i < at implies plain_at(name@, i) by {
                assert(plain_at(seen, i));
                assert(name@[i] == seen[i]);
                if i > 0 {
                    assert(name@[i - 1] == seen[i - 1]);
                }
            }
            if at > 0 {
                assert(name@[at - 1] == seen.last());
            }
        }
        if c >= 'A' && c <= 'Z' {
            // Uppercase characters need to be converted to lowercase.
            proof {
                lemma_first_irregular_is(name@, at);
            }
            return Ok(false);
        } else if (c >= 'a' && c <= 'z') || (c >= '0' && c <= '9') {
        } else if c == '_' || c == '.' {
            // `_` and `.` are normalized to `-`.
            proof {
                lemma_first_irregular_is(name@, at);
            }
            return Ok(false);
        } else if c == '-' {
            match last {
                None => {
                    // Names can't start with punctuation.
                    proof {
                        lemma_first_irregular_is(name@, at);
                    }
                    return Err(invalid_name(name));
                },
                Some(previous) => {
                    if previous == '-' {
                        // Runs of `-` are normalized to a single `-`.
                        proof {
                            lemma_first_irregular_is(name@, at);
                        }
                        return Ok(false);
                    }
                },
            }
        } else {
            proof {
                lemma_first_irregular_is(name@, at);
            }
            return Err(invalid_name(name));
        }
        last = Some(c);
        proof {
            assert forall|i: int| 0 <= i < next.len() implies plain_at(next, i) by {
                if i < at {
                    assert(plain_at(seen, i));
                }
            }
            seen = next;
        }
    }
    proof {
        lemma_first_irregular_is(name@, name@.len() as int);
    }
    // Names can't be empty, and can't end with punctuation.
    match last {
        None => Err(invalid_name(name)),
        Some(c) => {
            if c == '-' {
                Err(invalid_name(name))
            } else {
                Ok(true)
            }
        },
    }
}

/// The position of the last `c` in `s`, or -1 if there is none.
pub open spec fn last_index(s: Seq<char>, c: char) -> int
    decreases s.len(),
{
    if s.len() == 0 {
        -1
    } else if s.last() == c {
        s.len() - 1
    } else {
        last_index(s.drop_last(), c)
    }
}

/// Whether `s` ends with `suffix`.
pub open spec fn ends_with(s: Seq<char>, suffix: Seq<char>) -> bool {
    s.len() >= suffix.len() && s.skip(s.len() - suffix.len()) == suffix
}

/// The parts of a group given as `[path:]name`: the path before the last `:`,
/// if there is a `:`, and the name after it.
pub open spec fn group_parts(s: Seq<char>) -> (Option<Seq<char>>, Seq<char>) {
    let at = last_index(s, ':');
    if at < 0 {
        (None, s)
    } else {
        (Some(s.take(at)), s.skip(at + 1))
    }
}

/// A group given as `[path:]name`: the path as it was given, and the name in
/// normal form.
#[derive(Debug)]
pub struct PipGroupName {
    pub path: Option<String>,
    pub name: SmallString,
}

proof fn lemma_last_index(s: Seq<char>, c: char)
    ensures
        -1 <= last_index(s, c) < s.len(),
        last_index(s, c) >= 0 ==> s[last_index(s, c)] == c,
        forall|k: int| last_index(s, c) < k < s.len() ==> s[k] != c,
    decreases s.len(),
{
    if s.len() > 0 && s.last() != c {
        lemma_last_index(s.drop_last(), c);
        assert forall|k: int| last_index(s, c) < k < s.len() implies s[k] != c by {
            if k < s.len() - 1 {
                assert(s.drop_last()[k] == s[k]);
            }
        }
    }
}

proof fn lemma_last_index_is(s: Seq<char>, c: char, at: int)
    requires
        -1 <= at < s.len(),
        at >= 0 ==> s[at] == c,
        forall|k: int| at < k < s.len() ==> s[k] != c,
    ensures
        last_index(s, c) == at,
{
    lemma_last_index(s, c);
    let found = last_index(s, c);
    if found > at {
        assert(s[found] != c);
    } else if found < at {
        assert(s[at] != c);
    }
}

/// Reads a group given as `[path:]name`. A path must end in `pyproject.toml`;
/// it is judged before the name is.
pub fn parse_pip_group(text: &str) -> (r: Result<PipGroupName, InvalidPipGroupError>)
    ensures
        match (group_parts(text@).0, r) {
            (Some(path), Ok(group)) => ends_with(path, "pyproject.toml"@) && valid_name(
                group_parts(text@).1,
            ) && group.path is Some && group.path->0@ == path && small_string_text(group.name)
                == normalized(group_parts(text@).1),
            (None, Ok(group)) => valid_name(text@) && group.path is None && small_string_text(
                group.name,
            ) == normalized(text@),
            (Some(path), Err(InvalidPipGroupError::Path(e))) => !ends_with(
                path,
                "pyproject.toml"@,
            ) && e.text() == path,
            (Some(path), Err(InvalidPipGroupError::Name(e))) => ends_with(
                path,
                "pyproject.toml"@,
            ) && !valid_name(group_parts(text@).1) && e.text() == group_parts(text@).1,
            (None, Err(InvalidPipGroupError::Name(e))) => !valid_name(text@) && e.text() == text@,
            (None, Err(InvalidPipGroupError::Path(_))) => false,
        },
{
    let chars = crate::text::to_chars(text);
    let n = chars.len();
    let mut at: usize = n;
    while at > 0 && chars[at - 1] != ':'
        invariant
            at <= n,
            n == chars.len(),
            forall|k: int| at <= k < n ==> chars@[k] != ':',
        decreases at,
    {
        at -= 1;
    }
    proof {
        lemma_last_index_is(chars@, ':', at - 1);
    }
    if at == 0 {
        return match validate_and_normalize_ref(text) {
            Ok(name) => Ok(PipGroupName { path: None, name }),
            Err(e) => Err(InvalidPipGroupError::Name(e)),
        };
    }
    let path_chars = crate::text::copy_range(&chars, 0, at - 1);
    let name_chars = crate::text::copy_range(&chars, at, n);
    proof {
        assert(chars@.take(at - 1) =~= chars@.subrange(0, at - 1));
        assert(chars@.skip(at as int) =~= chars@.subrange(at as int, n as int));
    }
    let path = crate::text::from_chars(&path_chars);
    let suffix = crate::text::to_chars("pyproject.toml");
    let m = suffix.len();
    let fits = path_chars.len() >= m;
    let ends = if fits {
        let tail = crate::text::copy_range(&path_chars, path_chars.len() - m, path_chars.len());
        proof {
            assert(path_chars@.skip(path_chars@.len() - m) =~= tail@);
        }
        crate::text::same_chars(&tail, &suffix)
    } else {
        false
    };
    // pip hard errors if the path does not end with pyproject.toml
    if !ends {
        return Err(InvalidPipGroupError::Path(InvalidPipGroupPathError(path)));
    }
    let name = crate::text::from_chars(&name_chars);
    match validate_and_normalize_ref(name.as_str()) {
        Ok(name) => Ok(PipGroupName { path: Some(path), name }),
        Err(e) => Err(InvalidPipGroupError::Name(e)),
    }
}

/// Validate and normalize an unowned package or extra name.
pub fn validate_and_normalize_ref(name: &str) -> (r: Result<SmallString, InvalidNameError>)
    ensures
        match r {
            Ok(n) => valid_name(name@) && small_string_text(n) == normalized(name@),
            Err(e) => !valid_name(name@) && e.text() == name@,
        },
{
    proof {
        lemma_quick_verdict_sound(name@);
        if valid_name(name@) {
            lemma_quick_verdict_agrees(name@);
        }
    }
    match is_normalized(name) {
        Err(e) => Err(e),
        Ok(true) => Ok(small_string_from(name)),
        Ok(false) => match normalize(name) {
            Ok(n) => Ok(small_string_from(n.as_str())),
            Err(e) => Err(e),
        },
    }
}

} // verus!
