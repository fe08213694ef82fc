//! Verified text utilities: string comparison, substring search, and
//! search-and-replace over character sequences.

use vstd::prelude::*;
use vstd::string::StrSliceExecFns;
use vstd::string::StringExecFns;

verus! {

/// Whether `pat` occurs in `s` at position `i`.
pub open spec fn match_at(s: Seq<char>, pat: Seq<char>, i: int) -> bool {
    0 <= i && i + pat.len() <= s.len() && s.subrange(i, i + pat.len() as int) == pat
}

/// Whether `pat` occurs anywhere in `s`.
pub open spec fn contains_seq(s: Seq<char>, pat: Seq<char>) -> bool {
    exists|i: int| match_at(s, pat, i)
}

/// `s` with every occurrence of a non-empty `pat` replaced by `rep`,
/// scanning left to right without overlap.
pub open spec fn replace_nonempty(s: Seq<char>, pat: Seq<char>, rep: Seq<char>) -> Seq<char>
    decreases s.len(),
{
    if pat.len() == 0 || s.len() < pat.len() {
        s
    } else if s.subrange(0, pat.len() as int) == pat {
        rep + replace_nonempty(s.skip(pat.len() as int), pat, rep)
    } else {
        seq![s[0]] + replace_nonempty(s.skip(1), pat, rep)
    }
}

/// `s` with `rep` spliced in around every character, the replacement of the
/// empty pattern, which occurs before, between and after all characters.
pub open spec fn interleave(s: Seq<char>, rep: Seq<char>) -> Seq<char>
    decreases s.len(),
{
    if s.len() == 0 {
        rep
    } else {
        interleave(s.drop_last(), rep) + seq![s.last()] + rep
    }
}

/// `s` with every occurrence of `pat` replaced by `rep`.
pub open spec fn replace_seq(s: Seq<char>, pat: Seq<char>, rep: Seq<char>) -> Seq<char> {
    if pat.len() == 0 {
        interleave(s, rep)
    } else {
        replace_nonempty(s, pat, rep)
    }
}

/// Whether two string slices hold the same characters.
pub fn str_eq(a: &str, b: &str) -> (r: bool)
    ensures
        r == (a@ == b@),
{
    let r = a.to_owned() == b.to_owned();
    proof {
        if a@ =~= b@ {
            assert(a@ == b@);
        }
    }
    r
}

/// Relies on String::push: appends one character to the string.
#[verifier::external_body]
pub(crate) fn push_one(out: &mut String, c: char)
    ensures
        final(out)@ == old(out)@ + seq![c],
{
    out.push(c);
}

/// Appends one character of `s` to `out`.
fn append_char_of(out: &mut String, s: &str, i: usize)
    requires
        i < s@.len(),
    ensures
        final(out)@ == old(out)@ + seq![s@[i as int]],
{
    let c = s.get_char(i);
    push_one(out, c);
}

/// Whether `pat` occurs in `s` at position `i`.
pub fn check_match_at(s: &str, pat: &str, i: usize) -> (r: bool)
    requires
        i + pat@.len() <= s@.len(),
    ensures
        r == match_at(s@, pat@, i as int),
{
    let n_s = s.unicode_len();
    let m = pat.unicode_len();
    let mut j: usize = 0;
    while j < m
        invariant
            j <= m,
            m == pat@.len(),
            n_s == s@.len(),
            i + m <= n_s,
            forall|k: int| 0 <= k < j ==> s@[i + k] == pat@[k],
        decreases m - j,
    {
        if s.get_char(i + j) != pat.get_char(j) {
            proof {
                assert(s@.subrange(i as int, i + m as int)[j as int] != pat@[j as int]);
            }
            return false;
        }
        j = j + 1;
    }
    proof {
        assert(s@.subrange(i as int, i + m as int) =~= pat@);
    }
    true
}

/// Whether `pat` occurs anywhere in `s`.
pub fn contains_str(s: &str, pat: &str) -> (r: bool)
    ensures
        r == contains_seq(s@, pat@),
{
    let n = s.unicode_len();
    let m = pat.unicode_len();
    if m == 0 {
        proof {
            assert(s@.subrange(0, 0) =~= pat@);
            assert(match_at(s@, pat@, 0));
        }
        return true;
    }
    if m > n {
        proof {
            assert(forall|i: int| !match_at(s@, pat@, i));
        }
        return false;
    }
    let mut i: usize = 0;
    while i <= n - m
        invariant
            0 < m <= n,
            n == s@.len(),
            m == pat@.len(),
            i <= n - m + 1,
            forall|k: int| 0 <= k < i ==> !match_at(s@, pat@, k),
        decreases n - i,
    {
        if check_match_at(s, pat, i) {
            return true;
        }
        i = i + 1;
    }
    proof {
        assert(forall|k: int| k > n - m ==> !match_at(s@, pat@, k));
    }
    false
}

/// `s` with every occurrence of `pat` replaced by `rep`, scanning left to
/// right without overlap; the empty pattern occurs before, between and
/// after all characters.
pub fn replace_str(s: &str, pat: &str, rep: &str) -> (r: String)
    ensures
        r@ == replace_seq(s@, pat@, rep@),
{
    let n = s.unicode_len();
    let m = pat.unicode_len();
    let mut out = String::new();
    if m == 0 {
        out.append(rep);
        proof {
            assert(s@.subrange(0, 0) =~= Seq::<char>::empty());
            assert(out@ =~= interleave(s@.subrange(0, 0), rep@));
        }
        let mut i: usize = 0;
        while i < n
            invariant
                i <= n,
                n == s@.len(),
                pat@.len() == 0,
                out@ == interleave(s@.subrange(0, i as int), rep@),
            decreases n - i,
        {
            append_char_of(&mut out, s, i);
            out.append(rep);
            proof {
                assert(s@.subrange(0, i as int + 1).drop_last() =~= s@.subrange(0, i as int));
                assert(s@.subrange(0, i as int + 1).last() == s@[i as int]);
                assert(out@ =~= interleave(s@.subrange(0, i as int + 1), rep@));
            }
            i = i + 1;
        }
        proof {
            assert(s@.subrange(0, n as int) =~= s@);
        }
        return out;
    }
    let mut i: usize = 0;
    proof {
        assert(s@.skip(0) =~= s@);
        assert(Seq::<char>::empty() + replace_nonempty(s@, pat@, rep@) =~= replace_nonempty(
            s@,
            pat@,
            rep@,
        ));
    }
    while i < n
        invariant
            i <= n,
            n == s@.len(),
            m == pat@.len(),
            m > 0,
            replace_nonempty(s@, pat@, rep@) == out@ + replace_nonempty(
                s@.skip(i as int),
                pat@,
                rep@,
            ),
        decreases n - i,
    {
        let matched = if m <= n - i {
            check_match_at(s, pat, i)
        } else {
            false
        };
        let ghost tail = s@.skip(i as int);
        let ghost prev = out@;
        if matched {
            out.append(rep);
            proof {
                assert(tail.subrange(0, m as int) =~= s@.subrange(i as int, i + m as int));
                assert(tail.skip(m as int) =~= s@.skip(i + m as int));
                let tl = replace_nonempty(s@.skip(i + m as int), pat@, rep@);
                assert(replace_nonempty(tail, pat@, rep@) == rep@ + tl);
                assert(prev + (rep@ + tl) =~= (prev + rep@) + tl);
            }
            i = i + m;
        } else {
            append_char_of(&mut out, s, i);
            proof {
                if m <= n - i {
                    assert(tail.subrange(0, m as int) =~= s@.subrange(i as int, i + m as int));
                    assert(tail.subrange(0, m as int) != pat@);
                } else {
                    assert(tail.len() < m);
                }
                assert(seq![tail[0]] =~= seq![s@[i as int]]);
                assert(tail.skip(1) =~= s@.skip(i as int + 1));
                let tl = replace_nonempty(s@.skip(i as int + 1), pat@, rep@);
                assert(replace_nonempty(tail, pat@, rep@) == seq![s@[i as int]] + tl);
                assert(prev + (seq![s@[i as int]] + tl) =~= (prev + seq![s@[i as int]]) + tl);
            }
            i = i + 1;
        }
    }
    proof {
        assert(s@.skip(n as int) =~= Seq::<char>::empty());
        assert(out@ + Seq::<char>::empty() =~= out@);
    }
    out
}

} // verus!
