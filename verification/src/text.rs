//! Small verified helpers on strings and character sequences: suffix tests,
//! placeholder substitution, and decimal rendering of integers.

use vstd::prelude::*;

verus! {

/// True when `s` ends with the suffix `suffix`.
pub open spec fn spec_ends_with(s: Seq<char>, suffix: Seq<char>) -> bool {
    suffix.len() <= s.len() && s.skip(s.len() - suffix.len()) == suffix
}

/// Turns a string into the vector of its characters.
pub fn str_to_chars(s: &str) -> (r: Vec<char>)
    ensures
        r@ == s@,
{
    let n = s.unicode_len();
    let mut r: Vec<char> = Vec::new();
    let mut i: usize = 0;
    while i < n
        invariant
            n == s@.len(),
            i <= n,
            r@ == s@.take(i as int),
        decreases n - i,
    {
        r.push(s.get_char(i));
        i += 1;
        proof {
            assert(s@.take(i as int) == s@.take(i - 1).push(s@[i - 1]));
        }
    }
    proof {
        assert(s@.take(n as int) == s@);
    }
    r
}

/// Relies on `String::from_iter` over characters: the resulting string holds
/// exactly the characters of `v`, in order.
#[verifier::external_body]
pub(crate) fn chars_to_string(v: &Vec<char>) -> (s: String)
    ensures
        s@ == v@,
{
    v.iter().collect()
}

/// `s` with every non-overlapping occurrence of `pat`, found left to right,
/// replaced by `to`. An empty pattern replaces nothing.
pub open spec fn spec_replace(s: Seq<char>, pat: Seq<char>, to: Seq<char>) -> Seq<char>
    decreases s.len(),
{
    if pat.len() == 0 || s.len() < pat.len() {
        s
    } else if s.take(pat.len() as int) == pat {
        to + spec_replace(s.skip(pat.len() as int), pat, to)
    } else {
        seq![s[0]] + spec_replace(s.skip(1), pat, to)
    }
}

/// Appends every character of `v` to `out`.
fn push_all(out: &mut Vec<char>, v: &Vec<char>)
    ensures
        final(out)@ == old(out)@ + v@,
{
    let mut j: usize = 0;
    while j < v.len()
        invariant
            j <= v.len(),
            out@ == old(out)@ + v@.take(j as int),
        decreases v.len() - j,
    {
        out.push(v[j]);
        j += 1;
        proof {
            assert(v@.take(j as int) =~= v@.take(j - 1).push(v@[j - 1]));
            assert(out@ =~= old(out)@ + v@.take(j as int));
        }
    }
    proof {
        assert(v@.take(v.len() as int) =~= v@);
    }
}

/// True when `pat` occurs in `sv` at position `i`.
fn chars_eq_at(sv: &Vec<char>, i: usize, pv: &Vec<char>) -> (r: bool)
    requires
        i <= sv.len(),
        pv.len() <= sv.len() - i,
    ensures
        r == (sv@.subrange(i as int, i + pv.len()) == pv@),
{
    let mut j: usize = 0;
    while j < pv.len()
        invariant
            j <= pv.len(),
            i + pv.len() <= sv.len(),
            forall|jj: int| 0 <= jj < j ==> sv@[i + jj] == pv@[jj],
        decreases pv.len() - j,
    {
        if sv[i + j] != pv[j] {
            assert(sv@.subrange(i as int, i + pv.len())[j as int] != pv@[j as int]);
            return false;
        }
        j += 1;
    }
    proof {
        assert(sv@.subrange(i as int, i + pv.len()) =~= pv@);
    }
    true
}

/// `s` with every non-overlapping occurrence of `pat`, found left to right,
/// replaced by `to`.
pub fn str_replace(s: &str, pat: &str, to: &str) -> (r: String)
    ensures
        r@ == spec_replace(s@, pat@, to@),
{
    let sv = str_to_chars(s);
    let pv = str_to_chars(pat);
    let tv = str_to_chars(to);
    if pv.len() == 0 {
        return s.to_owned();
    }
    let mut out: Vec<char> = Vec::new();
    proof {
        assert(sv@.skip(0) =~= sv@);
        assert(Seq::<char>::empty() + spec_replace(sv@, pat@, to@) =~= spec_replace(
            sv@,
            pat@,
            to@,
        ));
    }
    let mut i: usize = 0;
    while i < sv.len()
        invariant
            i <= sv.len(),
            sv@ == s@,
            pv@ == pat@,
            tv@ == to@,
            pv.len() > 0,
            spec_replace(s@, pat@, to@) == out@ + spec_replace(sv@.skip(i as int), pat@, to@),
        decreases sv.len() - i,
    {
        let ghost rest = sv@.skip(i as int);
        let ghost done = out@;
        if pv.len() <= sv.len() - i && chars_eq_at(&sv, i, &pv) {
            proof {
                assert(rest.take(pv.len() as int) =~= sv@.subrange(i as int, i + pv.len()));
                assert(rest.skip(pv.len() as int) =~= sv@.skip(i + pv.len()));
                assert(spec_replace(rest, pat@, to@) == to@ + spec_replace(
                    sv@.skip(i + pv.len()),
                    pat@,
                    to@,
                ));
            }
            push_all(&mut out, &tv);
            i += pv.len();
            proof {
                assert((done + to@) + spec_replace(sv@.skip(i as int), pat@, to@) =~= done + (to@
                    + spec_replace(sv@.skip(i as int), pat@, to@)));
            }
        } else {
            proof {
                assert(rest.skip(1) =~= sv@.skip(i + 1));
                assert(rest[0] == sv@[i as int]);
                if pv.len() <= sv.len() - i {
                    assert(rest.take(pv.len() as int) =~= sv@.subrange(i as int, i + pv.len()));
                    assert(spec_replace(rest, pat@, to@) == seq![rest[0]] + spec_replace(
                        rest.skip(1),
                        pat@,
                        to@,
                    ));
                } else {
                    assert(rest.len() < pat@.len());
                    assert(spec_replace(rest, pat@, to@) == rest);
                    assert(rest.skip(1).len() < pat@.len());
                    assert(spec_replace(rest.skip(1), pat@, to@) == rest.skip(1));
                    assert(rest =~= seq![rest[0]] + rest.skip(1));
                }
            }
            out.push(sv[i]);
            i += 1;
            proof {
                assert(out@ =~= done + seq![rest[0]]);
                assert((done + seq![rest[0]]) + spec_replace(sv@.skip(i as int), pat@, to@)
                    =~= done + (seq![rest[0]] + spec_replace(sv@.skip(i as int), pat@, to@)));
            }
        }
    }
    proof {
        assert(sv@.skip(sv.len() as int) =~= Seq::<char>::empty());
        assert(out@ + spec_replace(sv@.skip(sv.len() as int), pat@, to@) =~= out@);
    }
    chars_to_string(&out)
}

/// The character of one decimal digit.
pub open spec fn digit_char(d: nat) -> char {
    if d == 0 {
        '0'
    } else if d == 1 {
        '1'
    } else if d == 2 {
        '2'
    } else if d == 3 {
        '3'
    } else if d == 4 {
        '4'
    } else if d == 5 {
        '5'
    } else if d == 6 {
        '6'
    } else if d == 7 {
        '7'
    } else if d == 8 {
        '8'
    } else {
        '9'
    }
}

/// The decimal rendering of `n`, most significant digit first, without
/// leading zeros.
pub open spec fn spec_dec_str(n: nat) -> Seq<char>
    decreases n,
{
    if n < 10 {
        seq![digit_char(n)]
    } else {
        spec_dec_str(n / 10).push(digit_char(n % 10))
    }
}

fn exec_digit_char(d: u64) -> (c: char)
    requires
        d < 10,
    ensures
        c == digit_char(d as nat),
{
    if d == 0 {
        '0'
    } else if d == 1 {
        '1'
    } else if d == 2 {
        '2'
    } else if d == 3 {
        '3'
    } else if d == 4 {
        '4'
    } else if d == 5 {
        '5'
    } else if d == 6 {
        '6'
    } else if d == 7 {
        '7'
    } else if d == 8 {
        '8'
    } else {
        '9'
    }
}

/// Appends the decimal rendering of `n` to `out`.
pub fn push_dec(out: &mut Vec<char>, n: u64)
    ensures
        final(out)@ == old(out)@ + spec_dec_str(n as nat),
    decreases n,
{
    if n < 10 {
        out.push(exec_digit_char(n));
    } else {
        push_dec(out, n / 10);
        out.push(exec_digit_char(n % 10));
    }
}

/// True when the characters of `s` end with those of `suffix`.
pub fn str_ends_with(s: &str, suffix: &str) -> (r: bool)
    ensures
        r == spec_ends_with(s@, suffix@),
{
    let n = s.unicode_len();
    let m = suffix.unicode_len();
    if m > n {
        return false;
    }
    let off = n - m;
    let mut i: usize = 0;
    while i < m
        invariant
            n == s@.len(),
            m == suffix@.len(),
            m <= n,
            off == n - m,
            i <= m,
            forall|j: int| 0 <= j < i ==> s@[off + j] == suffix@[j],
        decreases m - i,
    {
        if s.get_char(off + i) != suffix.get_char(i) {
            assert(s@.skip(off as int)[i as int] != suffix@[i as int]);
            return false;
        }
        i += 1;
    }
    proof {
        assert(s@.skip(off as int) =~= suffix@);
    }
    true
}

} // verus!
