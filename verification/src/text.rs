//! Character-level building blocks: conversions between strings and character
//! vectors, decimal numerals, field splitting and substring replacement.

use vstd::prelude::*;
use vstd::std_specs::iter::IteratorSpec;
use vstd::string::StringExecFns;

verus! {

/// `String::push` of the standard library: the string afterwards is the string
/// before with `ch` appended.
pub assume_specification[ String::push ](s: &mut String, ch: char)
    ensures
        final(s)@ == old(s)@.push(ch),
;

/// The characters of `s`, in order.
pub fn to_chars(s: &str) -> (out: Vec<char>)
    ensures
        out@ == s@,
{
    broadcast use vstd::string::group_string_axioms;

    let mut out: Vec<char> = Vec::new();
    let mut it = s.chars();
    loop
        invariant
            it.obeys_prophetic_iter_laws(),
            out@ + it.remaining() == s@,
        ensures
            out@ == s@,
        decreases s@.len() - out@.len(),
    {
        match it.next() {
            Some(c) => {
                out.push(c);
            },
            None => {
                break ;
            },
        }
    }
    out
}

/// Appends `chars[lo..hi]` to `out`.
pub fn push_chars(out: &mut String, chars: &Vec<char>, lo: usize, hi: usize)
    requires
        lo <= hi <= chars.len(),
    ensures
        final(out)@ == old(out)@ + chars@.subrange(lo as int, hi as int),
{
    let mut i: usize = lo;
    while i < hi
        invariant
            lo <= i <= hi <= chars.len(),
            out@ == old(out)@ + chars@.subrange(lo as int, i as int),
        decreases hi - i,
    {
        out.push(chars[i]);
        i += 1;
        assert(chars@.subrange(lo as int, i as int) == chars@.subrange(lo as int, i - 1).push(
            chars@[i - 1],
        ));
    }
}

/// The string whose characters are `chars`, in order.
pub fn from_chars(chars: &Vec<char>) -> (out: String)
    ensures
        out@ == chars@,
{
    let mut out = String::new();
    push_chars(&mut out, chars, 0, chars.len());
    assert(chars@.subrange(0, chars@.len() as int) == chars@);
    out
}

/// A copy of `chars[lo..hi]`.
pub fn copy_range(chars: &Vec<char>, lo: usize, hi: usize) -> (out: Vec<char>)
    requires
        lo <= hi <= chars.len(),
    ensures
        out@ == chars@.subrange(lo as int, hi as int),
{
    let mut out: Vec<char> = Vec::new();
    let mut i: usize = lo;
    while i < hi
        invariant
            lo <= i <= hi <= chars.len(),
            out@ == chars@.subrange(lo as int, i as int),
        decreases hi - i,
    {
        out.push(chars[i]);
        i += 1;
        assert(chars@.subrange(lo as int, i as int) == chars@.subrange(lo as int, i - 1).push(
            chars@[i - 1],
        ));
    }
    out
}

/// Whether two character vectors hold the same text.
pub fn same_chars(a: &Vec<char>, b: &Vec<char>) -> (r: bool)
    ensures
        r == (a@ == b@),
{
    if a.len() != b.len() {
        return false;
    }
    let mut i: usize = 0;
    while i < a.len()
        invariant
            a.len() == b.len(),
            i <= a.len(),
            a@.take(i as int) == b@.take(i as int),
        decreases a.len() - i,
    {
        if a[i] != b[i] {
            return false;
        }
        i += 1;
        assert(a@.take(i as int) == a@.take(i - 1).push(a@[i - 1]));
        assert(b@.take(i as int) == b@.take(i - 1).push(b@[i - 1]));
    }
    assert(a@.take(a@.len() as int) == a@);
    assert(b@.take(b@.len() as int) == b@);
    true
}

/// Whether `chars` spells exactly `word`.
pub fn spells(chars: &Vec<char>, word: &str) -> (r: bool)
    ensures
        r == (chars@ == word@),
{
    let w = to_chars(word);
    same_chars(chars, &w)
}

/// ASCII lower-case form of one character; other characters are unchanged.
pub open spec fn lower_char(c: char) -> char {
    if 'A' <= c && c <= 'Z' {
        ((c as u8 + 32) as u8) as char
    } else {
        c
    }
}

/// ASCII lower-case form of a text, character by character.
pub open spec fn lower_text(s: Seq<char>) -> Seq<char> {
    Seq::new(s.len(), |i: int| lower_char(s[i]))
}

pub fn to_lower_char(c: char) -> (r: char)
    ensures
        r == lower_char(c),
{
    if c >= 'A' && c <= 'Z' {
        ((c as u8) + 32u8) as char
    } else {
        c
    }
}

/// The ASCII lower-case copy of `chars`.
pub fn to_lower(chars: &Vec<char>) -> (out: Vec<char>)
    ensures
        out@ == lower_text(chars@),
{
    let mut out: Vec<char> = Vec::new();
    let mut i: usize = 0;
    while i < chars.len()
        invariant
            i <= chars.len(),
            out@.len() == i,
            forall|k: int| 0 <= k < i ==> out@[k] == lower_char(#[trigger] chars@[k]),
        decreases chars.len() - i,
    {
        out.push(to_lower_char(chars[i]));
        i += 1;
    }
    assert(out@ =~= lower_text(chars@));
    out
}

pub open spec fn is_digit(c: char) -> bool {
    '0' <= c && c <= '9'
}

pub open spec fn all_digits(s: Seq<char>) -> bool {
    forall|i: int| 0 <= i < s.len() ==> is_digit(#[trigger] s[i])
}

/// The digit character for a value below ten.
pub open spec fn digit_char(d: nat) -> char {
    ((d + 48) as u8) as char
}

/// The value of a digit character.
pub open spec fn digit_value(c: char) -> nat {
    (c as u8 - 48) as nat
}

/// The decimal numeral of `n`, without leading zeros.
pub open spec fn decimal(n: nat) -> Seq<char>
    decreases n,
{
    if n < 10 {
        seq![digit_char(n)]
    } else {
        decimal(n / 10).push(digit_char(n % 10))
    }
}

/// The number that a run of digits denotes; leading zeros are allowed and the
/// empty run denotes zero.
pub open spec fn decimal_value(s: Seq<char>) -> nat
    decreases s.len(),
{
    if s.len() == 0 {
        0
    } else {
        decimal_value(s.drop_last()) * 10 + digit_value(s.last())
    }
}

/// A decimal numeral is a non-empty run of digits that denotes the number it was
/// written for.
pub proof fn lemma_decimal_round_trip(n: nat)
    ensures
        decimal(n).len() > 0,
        all_digits(decimal(n)),
        decimal_value(decimal(n)) == n,
    decreases n,
{
    if n < 10 {
        let s = decimal(n);
        assert(s.drop_last() =~= Seq::<char>::empty());
        assert(decimal_value(s.drop_last()) == 0);
    } else {
        lemma_decimal_round_trip(n / 10);
        let p = decimal(n / 10);
        let s = p.push(digit_char(n % 10));
        assert(s.drop_last() =~= p);
        assert(s.last() == digit_char(n % 10));
        assert forall|i: int| 0 <= i < s.len() implies is_digit(#[trigger] s[i]) by {
            if i < p.len() {
                assert(s[i] == p[i]);
            }
        }
    }
}

/// The value of a digit run never shrinks when more digits follow.
pub proof fn lemma_decimal_value_grows(s: Seq<char>, k: int)
    requires
        0 <= k <= s.len(),
        all_digits(s),
    ensures
        decimal_value(s.take(k)) <= decimal_value(s),
    decreases s.len() - k,
{
    if k == s.len() {
        assert(s.take(k) =~= s);
    } else {
        lemma_decimal_value_grows(s, k + 1);
        let t = s.take(k + 1);
        assert(t.drop_last() =~= s.take(k));
        assert(is_digit(s[k]));
        assert(t.last() == s[k]);
    }
}

/// Appends the decimal numeral of `n` to `out`.
pub fn push_decimal(out: &mut String, n: u64)
    ensures
        final(out)@ == old(out)@ + decimal(n as nat),
    decreases n,
{
    if n >= 10 {
        push_decimal(out, n / 10);
    }
    let d: u8 = (n % 10) as u8;
    out.push((d + 48u8) as char);
    proof {
        if n >= 10 {
            assert(old(out)@ + decimal(n as nat / 10).push(digit_char(n as nat % 10)) =~= (old(
                out,
            )@ + decimal(n as nat / 10)).push(digit_char(n as nat % 10)));
        } else {
            assert(old(out)@ + seq![digit_char(n as nat)] =~= old(out)@.push(digit_char(n as nat)));
        }
    }
}

/// What a field of digits denotes, if it is a non-empty run of digits whose
/// value does not exceed `max`.
pub open spec fn bounded_number(s: Seq<char>, max: nat) -> Option<nat> {
    if s.len() > 0 && all_digits(s) && decimal_value(s) <= max {
        Some(decimal_value(s))
    } else {
        None
    }
}

/// Reads `chars[lo..hi]` as a decimal number of at most `max`.
pub fn parse_number(chars: &Vec<char>, lo: usize, hi: usize, max: u64) -> (r: Option<u64>)
    requires
        lo <= hi <= chars.len(),
    ensures
        match bounded_number(chars@.subrange(lo as int, hi as int), max as nat) {
            Some(v) => r == Some(v as u64),
            None => r is None,
        },
{
    let ghost field = chars@.subrange(lo as int, hi as int);
    if lo == hi {
        return None;
    }
    let mut acc: u64 = 0;
    let mut i: usize = lo;
    while i < hi
        invariant
            lo <= i <= hi <= chars.len(),
            field == chars@.subrange(lo as int, hi as int),
            all_digits(field.take(i - lo)),
            acc as nat == decimal_value(field.take(i - lo)),
            acc <= max,
        decreases hi - i,
    {
        let c = chars[i];
        let ghost next = field.take(i - lo + 1);
        proof {
            assert(next.drop_last() =~= field.take(i - lo));
            assert(next.last() == c);
        }
        if !(c >= '0' && c <= '9') {
            proof {
                assert(field[i - lo] == c);
                assert(!all_digits(field));
            }
            return None;
        }
        let d: u64 = ((c as u8) - 48u8) as u64;
        proof {
            assert(d as nat == digit_value(c));
            assert forall|k: int| 0 <= k < next.len() implies is_digit(#[trigger] next[k]) by {
                if k < i - lo {
                    assert(next[k] == field.take(i - lo)[k]);
                }
            }
        }
        if d > max || acc > (max - d) / 10 {
            // With this digit the value exceeds `max`, and more digits only add to it.
            proof {
                if d <= max {
                    assert(acc * 10 + d > max) by (nonlinear_arith)
                        requires
                            acc > (max - d) / 10,
                            d <= max,
                    ;
                }
            }
            // Scan the rest only to tell digits from other characters.
            let mut j: usize = i + 1;
            while j < hi
                invariant
                    lo <= i < j <= hi <= chars.len(),
                    field == chars@.subrange(lo as int, hi as int),
                    all_digits(field.take(j - lo)),
                decreases hi - j,
            {
                let cj = chars[j];
                if !(cj >= '0' && cj <= '9') {
                    proof {
                        assert(field[j - lo] == cj);
                        assert(!all_digits(field));
                    }
                    return None;
                }
                proof {
                    let fj = field.take(j - lo + 1);
                    assert forall|k: int| 0 <= k < fj.len() implies is_digit(#[trigger] fj[k]) by {
                        if k < j - lo {
                            assert(fj[k] == field.take(j - lo)[k]);
                        }
                    }
                }
                j += 1;
            }
            proof {
                assert(field.take(hi - lo) =~= field);
                lemma_decimal_value_grows(field, i - lo + 1);
            }
            return None;
        }
        proof {
            assert(acc * 10 + d <= max) by (nonlinear_arith)
                requires
                    acc <= (max - d) / 10,
                    d <= max,
            ;
        }
        acc = acc * 10 + d;
        i += 1;
    }
    proof {
        assert(field.take(hi - lo) =~= field);
    }
    Some(acc)
}

/// The fields of `s` when it is cut at every occurrence of `sep`. There is always
/// at least one field, and a text without `sep` is its own single field.
pub open spec fn split(s: Seq<char>, sep: char) -> Seq<Seq<char>>
    decreases s.len(),
{
    if s.len() == 0 {
        seq![Seq::<char>::empty()]
    } else {
        let before = split(s.drop_last(), sep);
        if s.last() == sep {
            before.push(Seq::<char>::empty())
        } else {
            before.update(before.len() - 1, before.last().push(s.last()))
        }
    }
}

pub proof fn lemma_split_nonempty(s: Seq<char>, sep: char)
    ensures
        split(s, sep).len() >= 1,
    decreases s.len(),
{
    if s.len() > 0 {
        lemma_split_nonempty(s.drop_last(), sep);
    }
}

/// Appending text without the separator extends the last field.
pub proof fn lemma_split_extend(s: Seq<char>, t: Seq<char>, sep: char)
    requires
        !t.contains(sep),
    ensures
        split(s, sep).len() >= 1,
        split(s + t, sep) == split(s, sep).update(
            split(s, sep).len() - 1,
            split(s, sep).last() + t,
        ),
    decreases t.len(),
{
    lemma_split_nonempty(s, sep);
    let base = split(s, sep);
    if t.len() == 0 {
        assert(s + t =~= s);
        assert(base.last() + t =~= base.last());
        assert(base.update(base.len() - 1, base.last()) =~= base);
    } else {
        let t0 = t.drop_last();
        assert(!t0.contains(sep)) by {
            if t0.contains(sep) {
                let i = choose|i: int| 0 <= i < t0.len() && t0[i] == sep;
                assert(t[i] == sep);
            }
        }
        lemma_split_extend(s, t0, sep);
        assert((s + t).drop_last() =~= s + t0);
        assert((s + t).last() == t.last());
        assert(t.last() != sep) by {
            assert(t[t.len() - 1] == t.last());
        }
        let mid = split(s + t0, sep);
        assert(mid.last() == base.last() + t0);
        assert((base.last() + t0).push(t.last()) =~= base.last() + t);
        assert(mid.update(mid.len() - 1, mid.last().push(t.last())) =~= base.update(
            base.len() - 1,
            base.last() + t,
        ));
    }
}

/// Appending a separator and then text without it adds that text as a new field.
pub proof fn lemma_split_append_field(s: Seq<char>, t: Seq<char>, sep: char)
    requires
        !t.contains(sep),
    ensures
        split(s + seq![sep] + t, sep) == split(s, sep).push(t),
{
    let s1 = s + seq![sep];
    assert(s1.drop_last() =~= s);
    assert(s1.last() == sep);
    assert(split(s1, sep) == split(s, sep).push(Seq::<char>::empty()));
    lemma_split_extend(s1, t, sep);
    let b = split(s1, sep);
    assert(b.last() + t =~= t);
    assert(b.update(b.len() - 1, t) =~= split(s, sep).push(t));
}

/// A text without the separator is a single field.
pub proof fn lemma_split_single(t: Seq<char>, sep: char)
    requires
        !t.contains(sep),
    ensures
        split(t, sep) == seq![t],
{
    let e = Seq::<char>::empty();
    lemma_split_extend(e, t, sep);
    assert(e + t =~= t);
    let b = split(e, sep);
    assert(b =~= seq![e]);
    assert(b.update(0, b.last() + t) =~= seq![t]);
}

pub open spec fn texts(fields: Seq<Vec<char>>) -> Seq<Seq<char>> {
    Seq::new(fields.len(), |i: int| fields[i]@)
}

/// Cuts `chars` at every occurrence of `sep`.
pub fn split_fields(chars: &Vec<char>, sep: char) -> (fields: Vec<Vec<char>>)
    ensures
        texts(fields@) == split(chars@, sep),
{
    let mut fields: Vec<Vec<char>> = Vec::new();
    let mut current: Vec<char> = Vec::new();
    let mut i: usize = 0;
    proof {
        assert(chars@.take(0) =~= Seq::<char>::empty());
        assert(texts(fields@).push(current@) =~= seq![Seq::<char>::empty()]);
    }
    while i < chars.len()
        invariant
            i <= chars.len(),
            texts(fields@).push(current@) == split(chars@.take(i as int), sep),
        decreases chars.len() - i,
    {
        let c = chars[i];
        let ghost before = split(chars@.take(i as int), sep);
        let ghost done = texts(fields@);
        let ghost cur = current@;
        proof {
            let next = chars@.take(i + 1);
            assert(next.drop_last() =~= chars@.take(i as int));
            assert(next.last() == c);
            assert(before.last() == cur);
        }
        if c == sep {
            fields.push(current);
            current = Vec::new();
            proof {
                assert(texts(fields@) =~= done.push(cur));
            }
        } else {
            current.push(c);
            proof {
                assert(texts(fields@).push(current@) =~= before.update(
                    before.len() - 1,
                    cur.push(c),
                ));
            }
        }
        i += 1;
    }
    proof {
        assert(chars@.take(chars@.len() as int) =~= chars@);
    }
    let ghost done = texts(fields@);
    let ghost cur = current@;
    fields.push(current);
    proof {
        assert(texts(fields@) =~= done.push(cur));
    }
    fields
}

/// The position of the first `c` in `s`, or the length of `s` if there is none.
pub open spec fn first_index(s: Seq<char>, c: char) -> int
    decreases s.len(),
{
    if s.len() == 0 {
        0
    } else if s[0] == c {
        0
    } else {
        1 + first_index(s.skip(1), c)
    }
}

pub proof fn lemma_first_index(s: Seq<char>, c: char)
    ensures
        0 <= first_index(s, c) <= s.len(),
        forall|k: int| 0 <= k < first_index(s, c) ==> s[k] != c,
        first_index(s, c) < s.len() ==> s[first_index(s, c)] == c,
    decreases s.len(),
{
    if s.len() > 0 && s[0] != c {
        lemma_first_index(s.skip(1), c);
        assert forall|k: int| 0 <= k < first_index(s, c) implies s[k] != c by {
            if k > 0 {
                assert(s.skip(1)[k - 1] == s[k]);
            }
        }
    }
}

/// The first position at which `c` occurs is the only one that has `c` and
/// nothing but other characters before it.
pub proof fn lemma_first_index_is(s: Seq<char>, c: char, at: int)
    requires
        0 <= at <= s.len(),
        forall|k: int| 0 <= k < at ==> s[k] != c,
        at < s.len() ==> s[at] == c,
    ensures
        first_index(s, c) == at,
{
    lemma_first_index(s, c);
    let f = first_index(s, c);
    if f < at {
        assert(s[f] != c);
    } else if f > at {
        assert(s[at] != c);
    }
}

/// Finds the first `c` in `chars`.
pub fn find_char(chars: &Vec<char>, c: char) -> (at: usize)
    ensures
        at == first_index(chars@, c),
{
    let mut i: usize = 0;
    while i < chars.len() && chars[i] != c
        invariant
            i <= chars.len(),
            forall|k: int| 0 <= k < i ==> chars@[k] != c,
        decreases chars.len() - i,
    {
        i += 1;
    }
    proof {
        lemma_first_index_is(chars@, c, i as int);
    }
    i
}

/// `s` with every occurrence of `pattern` replaced by `with`, found from left to
/// right without overlap. An empty pattern occurs nowhere.
pub open spec fn replaced(s: Seq<char>, pattern: Seq<char>, with: Seq<char>) -> Seq<char>
    decreases s.len(),
{
    if pattern.len() == 0 || s.len() < pattern.len() {
        s
    } else if s.take(pattern.len() as int) == pattern {
        with + replaced(s.skip(pattern.len() as int), pattern, with)
    } else {
        seq![s[0]] + replaced(s.skip(1), pattern, with)
    }
}

/// Whether `pattern` stands in `chars` at position `at`.
fn occurs_at(chars: &Vec<char>, at: usize, pattern: &Vec<char>) -> (r: bool)
    requires
        at <= chars.len(),
    ensures
        r == (at + pattern.len() <= chars.len() && chars@.subrange(
            at as int,
            at + pattern.len(),
        ) == pattern@),
{
    if pattern.len() > chars.len() - at {
        return false;
    }
    let mut k: usize = 0;
    while k < pattern.len()
        invariant
            at + pattern.len() <= chars.len(),
            k <= pattern.len(),
            chars@.subrange(at as int, at + k) == pattern@.take(k as int),
        decreases pattern.len() - k,
    {
        if chars[at + k] != pattern[k] {
            proof {
                let w = chars@.subrange(at as int, at + pattern.len());
                assert(w[k as int] == chars@[at + k]);
            }
            return false;
        }
        k += 1;
        proof {
            assert(chars@.subrange(at as int, at + k) =~= chars@.subrange(at as int, at + k - 1).push(
                chars@[at + k - 1],
            ));
            assert(pattern@.take(k as int) =~= pattern@.take(k - 1).push(pattern@[k - 1]));
        }
    }
    proof {
        assert(pattern@.take(pattern@.len() as int) =~= pattern@);
    }
    true
}

/// Replaces every occurrence of `pattern` in `chars` by `with`.
pub fn replace_all(chars: &Vec<char>, pattern: &Vec<char>, with: &Vec<char>) -> (out: Vec<char>)
    ensures
        out@ == replaced(chars@, pattern@, with@),
{
    let mut out: Vec<char> = Vec::new();
    let mut i: usize = 0;
    proof {
        assert(chars@.skip(0) =~= chars@);
    }
    while i < chars.len()
        invariant
            i <= chars.len(),
            out@ + replaced(chars@.skip(i as int), pattern@, with@) == replaced(
                chars@,
                pattern@,
                with@,
            ),
        decreases chars.len() - i,
    {
        let ghost rest = chars@.skip(i as int);
        let ghost before = out@;
        if pattern.len() > 0 && occurs_at(chars, i, pattern) {
            let mut k: usize = 0;
            while k < with.len()
                invariant
                    k <= with.len(),
                    out@ == before + with@.take(k as int),
                decreases with.len() - k,
            {
                out.push(with[k]);
                k += 1;
                proof {
                    assert(with@.take(k as int) =~= with@.take(k - 1).push(with@[k - 1]));
                }
            }
            proof {
                assert(with@.take(with@.len() as int) =~= with@);
                assert(rest.take(pattern@.len() as int) =~= chars@.subrange(
                    i as int,
                    i + pattern@.len(),
                ));
                assert(rest.skip(pattern@.len() as int) =~= chars@.skip(i + pattern@.len()));
                assert((before + with@) + replaced(
                    chars@.skip(i + pattern@.len()),
                    pattern@,
                    with@,
                ) =~= before + (with@ + replaced(
                    chars@.skip(i + pattern@.len()),
                    pattern@,
                    with@,
                )));
            }
            i += pattern.len();
        } else {
            out.push(chars[i]);
            proof {
                let tail = chars@.skip(i + 1);
                assert(rest.skip(1) =~= tail);
                assert(rest[0] == chars@[i as int]);
                if pattern@.len() == 0 || rest.len() < pattern@.len() {
                    assert(replaced(rest, pattern@, with@) == rest);
                    assert(replaced(tail, pattern@, with@) == tail);
                    assert(rest =~= seq![rest[0]] + tail);
                } else {
                    assert(rest.take(pattern@.len() as int) =~= chars@.subrange(
                        i as int,
                        i + pattern@.len(),
                    ));
                }
                assert(before.push(chars@[i as int]) + replaced(tail, pattern@, with@) =~= before
                    + (seq![rest[0]] + replaced(tail, pattern@, with@)));
            }
            i += 1;
        }
    }
    proof {
        assert(chars@.skip(chars@.len() as int) =~= Seq::<char>::empty());
        assert(out@ + Seq::<char>::empty() =~= out@);
    }
    out
}

} // verus!
