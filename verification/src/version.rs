//! Version extraction from free text.
//!
//! A version is the first substring of the form
//! digits `.` digits `.` digits, with each digit run taken greedily, read as
//! a semantic version. A run with a leading zero, or one whose value does not
//! fit in 64 bits, is not a valid numeric component; finding such a match is
//! a parse error, not a silent skip.

use vstd::prelude::*;

use crate::text::{chars_to_string, push_dec, spec_dec_str, str_to_chars};

verus! {

/// A semantic version: major, minor and patch, compared numerically in that
/// order.
#[derive(Debug, Clone, Copy, PartialEq, Eq, Structural)]
pub struct Version {
    pub major: u64,
    pub minor: u64,
    pub patch: u64,
}

/// A matched version-shaped substring was not a valid semantic version: a
/// component had a leading zero or overflowed 64 bits.
#[derive(Debug, Clone, Copy, PartialEq, Eq, Structural)]
pub struct VersionParseError;

/// Why no version could be handed back from a piece of release metadata.
#[derive(Debug, Clone, Copy, PartialEq, Eq, Structural)]
pub enum VersionError {
    /// No candidate text held a version-shaped substring.
    Absent,
    /// The first version-shaped substring was not a valid semantic version.
    Parse,
}

pub open spec fn is_digit(c: char) -> bool {
    48 <= c as int <= 57
}

/// The end of the greedy digit run that starts at `i`: the first index at or
/// after `i` that is out of range or holds a non-digit.
pub open spec fn digit_run_end(s: Seq<char>, i: int) -> int
    decreases s.len() - i,
{
    if 0 <= i < s.len() && is_digit(s[i]) {
        digit_run_end(s, i + 1)
    } else {
        i
    }
}

pub proof fn lemma_digit_run_end(s: Seq<char>, i: int)
    requires
        0 <= i <= s.len(),
    ensures
        i <= digit_run_end(s, i) <= s.len(),
        forall|j: int| i <= j < digit_run_end(s, i) ==> is_digit(s[j]),
        digit_run_end(s, i) == s.len() || !is_digit(s[digit_run_end(s, i)]),
    decreases s.len() - i,
{
    if i < s.len() && is_digit(s[i]) {
        lemma_digit_run_end(s, i + 1);
    }
}

/// Whether the version pattern matches at position `i`: three non-empty
/// greedy digit runs joined by single dots.
pub open spec fn matches_at(s: Seq<char>, i: int) -> bool {
    let j1 = digit_run_end(s, i);
    let j2 = digit_run_end(s, j1 + 1);
    let j3 = digit_run_end(s, j2 + 1);
    &&& 0 <= i < j1
    &&& j1 < s.len() && s[j1] == '.'
    &&& j1 + 1 < j2
    &&& j2 < s.len() && s[j2] == '.'
    &&& j2 + 1 < j3
}

/// The position of the leftmost match at or after `i`, if any.
pub open spec fn first_match_from(s: Seq<char>, i: int) -> Option<int>
    decreases s.len() - i,
{
    if 0 <= i < s.len() {
        if matches_at(s, i) {
            Some(i)
        } else {
            first_match_from(s, i + 1)
        }
    } else {
        None
    }
}

/// The numeric value of a digit string, most significant digit first.
pub open spec fn dec_value(s: Seq<char>) -> nat
    decreases s.len(),
{
    if s.len() == 0 {
        0
    } else {
        dec_value(s.drop_last()) * 10 + (s.last() as int - 48) as nat
    }
}

/// Whether a digit run is a valid semantic-version numeric component: no
/// leading zero, and a value that fits in 64 bits.
pub open spec fn numeric_ok(s: Seq<char>) -> bool {
    (s.len() == 1 || s[0] != '0') && dec_value(s) <= u64::MAX
}

/// The version read from the match at position `i`, or `None` when one of
/// its components is not a valid numeric component.
pub open spec fn spec_parse_match(s: Seq<char>, i: int) -> Option<Version> {
    let j1 = digit_run_end(s, i);
    let j2 = digit_run_end(s, j1 + 1);
    let j3 = digit_run_end(s, j2 + 1);
    let c1 = s.subrange(i, j1);
    let c2 = s.subrange(j1 + 1, j2);
    let c3 = s.subrange(j2 + 1, j3);
    if numeric_ok(c1) && numeric_ok(c2) && numeric_ok(c3) {
        Some(
            Version {
                major: dec_value(c1) as u64,
                minor: dec_value(c2) as u64,
                patch: dec_value(c3) as u64,
            },
        )
    } else {
        None
    }
}

/// What version extraction yields on one candidate text: the version at the
/// leftmost match, absence when nothing matches, or a parse error.
pub open spec fn spec_extract_version(s: Seq<char>) -> Result<Option<Version>, VersionParseError> {
    match first_match_from(s, 0) {
        None => Ok(None),
        Some(i) => match spec_parse_match(s, i) {
            Some(v) => Ok(Some(v)),
            None => Err(VersionParseError),
        },
    }
}

/// What version extraction yields on an ordered list of candidate texts:
/// candidates without any match are skipped, and the first candidate with a
/// match decides the outcome.
pub open spec fn spec_find_version(cs: Seq<Seq<char>>) -> Result<
    Option<Version>,
    VersionParseError,
>
    decreases cs.len(),
{
    if cs.len() == 0 {
        Ok(None)
    } else {
        match spec_extract_version(cs[0]) {
            Ok(None) => spec_find_version(cs.drop_first()),
            outcome => outcome,
        }
    }
}

/// The first candidate with a version-shaped substring decides the outcome:
/// whatever the later candidates hold, a version read from the first
/// candidate is the version found.
pub proof fn lemma_first_candidate_wins(cs: Seq<Seq<char>>, v: Version)
    requires
        cs.len() > 0,
        spec_extract_version(cs[0]) == Ok::<Option<Version>, VersionParseError>(Some(v)),
    ensures
        spec_find_version(cs) == Ok::<Option<Version>, VersionParseError>(Some(v)),
{
}

/// When no candidate holds a version-shaped substring, the outcome is
/// absence — never an error.
pub proof fn lemma_no_match_is_absent(cs: Seq<Seq<char>>)
    requires
        forall|i: int| 0 <= i < cs.len() ==> first_match_from(#[trigger] cs[i], 0) is None,
    ensures
        spec_find_version(cs) == Ok::<Option<Version>, VersionParseError>(None),
    decreases cs.len(),
{
    if cs.len() > 0 {
        assert(spec_extract_version(cs[0]) == Ok::<Option<Version>, VersionParseError>(None));
        assert(forall|i: int|
            0 <= i < cs.drop_first().len() ==> first_match_from(
                #[trigger] cs.drop_first()[i],
                0,
            ) is None);
        lemma_no_match_is_absent(cs.drop_first());
    }
}

/// The textual form of a version: `major.minor.patch` in decimal.
pub open spec fn spec_version_text(v: Version) -> Seq<char> {
    spec_dec_str(v.major as nat) + seq!['.'] + spec_dec_str(v.minor as nat) + seq!['.']
        + spec_dec_str(v.patch as nat)
}

/// Strict semantic-version ordering: major, then minor, then patch.
pub open spec fn spec_version_lt(a: Version, b: Version) -> bool {
    ||| a.major < b.major
    ||| (a.major == b.major && a.minor < b.minor)
    ||| (a.major == b.major && a.minor == b.minor && a.patch < b.patch)
}

impl Version {
    pub fn new(major: u64, minor: u64, patch: u64) -> (r: Version)
        ensures
            r == (Version { major, minor, patch }),
    {
        Version { major, minor, patch }
    }

    /// Renders the version as `major.minor.patch`.
    pub fn to_text(&self) -> (r: String)
        ensures
            r@ == spec_version_text(*self),
    {
        let mut out: Vec<char> = Vec::new();
        push_dec(&mut out, self.major);
        out.push('.');
        push_dec(&mut out, self.minor);
        out.push('.');
        push_dec(&mut out, self.patch);
        proof {
            assert(out@ =~= spec_version_text(*self));
        }
        chars_to_string(&out)
    }

    /// Whether `self` is strictly older than `other`.
    pub fn lt(&self, other: &Version) -> (r: bool)
        ensures
            r == spec_version_lt(*self, *other),
    {
        if self.major != other.major {
            self.major < other.major
        } else if self.minor != other.minor {
            self.minor < other.minor
        } else {
            self.patch < other.patch
        }
    }
}

fn exec_is_digit(c: char) -> (r: bool)
    ensures
        r == is_digit(c),
{
    let u = c as u32;
    48 <= u && u <= 57
}

/// The end of the greedy digit run of `v` that starts at `i`.
fn run_end(v: &Vec<char>, i: usize) -> (e: usize)
    requires
        i <= v.len(),
    ensures
        e as int == digit_run_end(v@, i as int),
        i <= e <= v.len(),
    decreases v.len() - i,
{
    if i < v.len() && exec_is_digit(v[i]) {
        run_end(v, i + 1)
    } else {
        i
    }
}

/// The ends of the three digit runs of the match at `i`, when the pattern
/// matches there.
fn try_match(v: &Vec<char>, i: usize) -> (r: Option<(usize, usize, usize)>)
    requires
        i < v.len(),
    ensures
        match r {
            Some((j1, j2, j3)) => {
                &&& matches_at(v@, i as int)
                &&& j1 as int == digit_run_end(v@, i as int)
                &&& j2 as int == digit_run_end(v@, j1 + 1)
                &&& j3 as int == digit_run_end(v@, j2 + 1)
            },
            None => !matches_at(v@, i as int),
        },
{
    let j1 = run_end(v, i);
    if j1 == i || j1 == v.len() || v[j1] != '.' {
        return None;
    }
    let j2 = run_end(v, j1 + 1);
    if j2 == j1 + 1 || j2 == v.len() || v[j2] != '.' {
        return None;
    }
    let j3 = run_end(v, j2 + 1);
    if j3 == j2 + 1 {
        return None;
    }
    Some((j1, j2, j3))
}

/// The leftmost match of the version pattern, with the ends of its three
/// digit runs.
fn find_match(v: &Vec<char>) -> (r: Option<(usize, usize, usize, usize)>)
    ensures
        match r {
            Some((i, j1, j2, j3)) => {
                &&& first_match_from(v@, 0) == Some(i as int)
                &&& matches_at(v@, i as int)
                &&& j1 as int == digit_run_end(v@, i as int)
                &&& j2 as int == digit_run_end(v@, j1 + 1)
                &&& j3 as int == digit_run_end(v@, j2 + 1)
            },
            None => first_match_from(v@, 0) is None,
        },
{
    let mut i: usize = 0;
    while i < v.len()
        invariant
            i <= v.len(),
            first_match_from(v@, 0) == first_match_from(v@, i as int),
        decreases v.len() - i,
    {
        match try_match(v, i) {
            Some((j1, j2, j3)) => {
                return Some((i, j1, j2, j3));
            },
            None => {
                i += 1;
            },
        }
    }
    None
}

/// Reads one digit run as a 64-bit number, rejecting a leading zero or an
/// overflowing value.
fn parse_component(v: &Vec<char>, from: usize, to: usize) -> (r: Option<u64>)
    requires
        from < to <= v.len(),
        forall|j: int| from <= j < to ==> is_digit(v@[j]),
    ensures
        ({
            let sub = v@.subrange(from as int, to as int);
            match r {
                Some(x) => numeric_ok(sub) && x as nat == dec_value(sub),
                None => !numeric_ok(sub),
            }
        }),
{
    let ghost sub = v@.subrange(from as int, to as int);
    if to - from > 1 && v[from] == '0' {
        return None;
    }
    let mut x: u64 = 0;
    let mut j: usize = from;
    while j < to
        invariant
            from <= j <= to <= v.len(),
            forall|jj: int| from <= jj < to ==> is_digit(v@[jj]),
            sub == v@.subrange(from as int, to as int),
            x as nat == dec_value(sub.take(j - from)),
        decreases to - j,
    {
        assert(is_digit(v@[j as int]));
        let d: u64 = ((v[j] as u32) - 48) as u64;
        let ghost prev = sub.take(j - from);
        proof {
            assert(sub.take(j + 1 - from).drop_last() =~= prev);
            assert(sub.take(j + 1 - from).last() == sub[j - from]);
            assert(sub[j - from] == v@[j as int]);
        }
        let stepped = match x.checked_mul(10) {
            Some(y) => y.checked_add(d),
            None => None,
        };
        match stepped {
            Some(y) => {
                x = y;
            },
            None => {
                proof {
                    assert(dec_value(sub.take(j + 1 - from)) > u64::MAX);
                    lemma_dec_value_prefix(sub, j + 1 - from);
                }
                return None;
            },
        }
        j += 1;
    }
    proof {
        assert(sub.take(to - from) =~= sub);
    }
    Some(x)
}

/// The value of a digit string never falls when more digits follow.
proof fn lemma_dec_value_prefix(s: Seq<char>, p: int)
    requires
        0 <= p <= s.len(),
    ensures
        dec_value(s) >= dec_value(s.take(p)),
    decreases s.len() - p,
{
    if p < s.len() {
        lemma_dec_value_prefix(s, p + 1);
        assert(s.take(p + 1).drop_last() =~= s.take(p));
        assert(dec_value(s.take(p + 1)) >= dec_value(s.take(p)));
    } else {
        assert(s.take(p) =~= s);
    }
}

/// Finds the leftmost version-shaped substring of `s` and reads it as a
/// semantic version. `Ok(None)` means nothing in `s` is version-shaped.
pub fn extract_version(s: &str) -> (r: Result<Option<Version>, VersionParseError>)
    ensures
        r == spec_extract_version(s@),
{
    let v = str_to_chars(s);
    match find_match(&v) {
        None => Ok(None),
        Some((i, j1, j2, j3)) => {
            proof {
                lemma_digit_run_end(v@, i as int);
                lemma_digit_run_end(v@, j1 + 1);
                lemma_digit_run_end(v@, j2 + 1);
            }
            let major = match parse_component(&v, i, j1) {
                Some(x) => x,
                None => {
                    return Err(VersionParseError);
                },
            };
            let minor = match parse_component(&v, j1 + 1, j2) {
                Some(x) => x,
                None => {
                    return Err(VersionParseError);
                },
            };
            let patch = match parse_component(&v, j2 + 1, j3) {
                Some(x) => x,
                None => {
                    return Err(VersionParseError);
                },
            };
            Ok(Some(Version { major, minor, patch }))
        },
    }
}

/// Runs version extraction over caller-ordered candidate texts: candidates
/// with no version-shaped substring are skipped, and the first one with such
/// a substring decides the outcome.
pub fn find_version(candidates: &Vec<String>) -> (r: Result<Option<Version>, VersionParseError>)
    ensures
        r == spec_find_version(candidates.deep_view()),
{
    let ghost cs = candidates.deep_view();
    proof {
        assert(cs.skip(0) =~= cs);
    }
    let mut k: usize = 0;
    while k < candidates.len()
        invariant
            k <= candidates.len(),
            cs == candidates.deep_view(),
            cs.len() == candidates.len(),
            spec_find_version(cs) == spec_find_version(cs.skip(k as int)),
        decreases candidates.len() - k,
    {
        let outcome = extract_version(candidates[k].as_str());
        proof {
            assert(cs.skip(k as int)[0] == cs[k as int]);
            assert(cs[k as int] == candidates[k as int].deep_view());
            assert(cs.skip(k as int).drop_first() =~= cs.skip(k as int + 1));
        }
        match outcome {
            Ok(None) => {
                k += 1;
            },
            other => {
                return other;
            },
        }
    }
    proof {
        assert(cs.skip(candidates.len() as int).len() == 0);
    }
    Ok(None)
}

} // verus!
