//! Character-sequence helpers shared by the bubble builder and the template renderer.
use vstd::prelude::*;

verus! {

/// Relies on `str::chars` collected into a `Vec`: the characters of the string, in order.
#[verifier::external_body]
pub(crate) fn chars_of(s: &str) -> (r: Vec<char>)
    ensures
        r@ == s@,
{
    s.chars().collect()
}

/// Relies on `String::from_iter` over chars: the string made of the given characters, in order.
#[verifier::external_body]
pub(crate) fn string_of(v: &Vec<char>) -> (r: String)
    ensures
        r@ == v@,
{
    String::from_iter(v.iter())
}

/// `k` copies of `c`.
pub open spec fn repeat(c: char, k: int) -> Seq<char> {
    Seq::new(k as nat, |_i: int| c)
}

/// The rows joined with a newline between each two of them.
pub open spec fn join_rows(rows: Seq<Seq<char>>) -> Seq<char>
    decreases rows.len(),
{
    if rows.len() == 0 {
        Seq::empty()
    } else if rows.len() == 1 {
        rows[0]
    } else {
        join_rows(rows.drop_last()) + seq!['\n'] + rows.last()
    }
}

/// Appends `k` copies of `c` to `out`.
pub fn push_repeat(out: &mut Vec<char>, c: char, k: usize)
    ensures
        final(out)@ == old(out)@ + repeat(c, k as int),
{
    let mut j: usize = 0;
    assert(old(out)@ + repeat(c, 0) =~= old(out)@);
    while j < k
        invariant
            j <= k,
            out@ == old(out)@ + repeat(c, j as int),
        decreases k - j,
    {
        out.push(c);
        j = j + 1;
        assert(repeat(c, j as int) =~= repeat(c, j - 1).push(c));
    }
}

/// Appends the characters of `src` from `start` up to `end` to `out`.
pub fn push_range(out: &mut Vec<char>, src: &Vec<char>, start: usize, end: usize)
    requires
        start <= end <= src@.len(),
    ensures
        final(out)@ == old(out)@ + src@.subrange(start as int, end as int),
{
    let mut j: usize = start;
    assert(old(out)@ + src@.subrange(start as int, start as int) =~= old(out)@);
    while j < end
        invariant
            start <= j <= end <= src@.len(),
            out@ == old(out)@ + src@.subrange(start as int, j as int),
        decreases end - j,
    {
        out.push(src[j]);
        j = j + 1;
        assert(src@.subrange(start as int, j as int) =~= src@.subrange(start as int, j - 1).push(
            src@[j - 1],
        ));
    }
}

/// Whether `pat` occurs in `s` starting at position `i`.
pub open spec fn occurs_at(s: Seq<char>, pat: Seq<char>, i: int) -> bool {
    0 <= i && i + pat.len() <= s.len() && s.subrange(i, i + pat.len()) == pat
}

/// Whether `pat` occurs anywhere in `s`.
pub open spec fn contains(s: Seq<char>, pat: Seq<char>) -> bool {
    exists|i: int| occurs_at(s, pat, i)
}

/// Every non-overlapping occurrence of the non-empty `pat`, scanning left to right,
/// replaced by `rep`.
pub open spec fn replace_all(s: Seq<char>, pat: Seq<char>, rep: Seq<char>) -> Seq<char>
    decreases s.len(),
{
    if s.len() == 0 {
        s
    } else if pat.len() > 0 && occurs_at(s, pat, 0) {
        rep + replace_all(s.skip(pat.len() as int), pat, rep)
    } else {
        seq![s[0]] + replace_all(s.skip(1), pat, rep)
    }
}

/// Whether `pat` occurs in `s` at position `i` (executable form of `occurs_at`).
fn matches_at(s: &Vec<char>, pat: &Vec<char>, i: usize) -> (r: bool)
    requires
        i <= s@.len(),
    ensures
        r == occurs_at(s@, pat@, i as int),
{
    if pat.len() > s.len() - i {
        return false;
    }
    let n = s.len();
    let mut k: usize = 0;
    while k < pat.len()
        invariant
            n == s@.len(),
            i + pat@.len() <= s@.len(),
            k <= pat@.len(),
            forall|j: int| 0 <= j < k ==> s@[i + j] == pat@[j],
        decreases pat@.len() - k,
    {
        if s[i + k] != pat[k] {
            assert(s@.subrange(i as int, i + pat@.len())[k as int] != pat@[k as int]);
            return false;
        }
        k = k + 1;
    }
    assert(s@.subrange(i as int, i + pat@.len()) =~= pat@);
    true
}

/// Appends the characters of `add` to `out`.
pub fn push_all(out: &mut Vec<char>, add: &Vec<char>)
    ensures
        final(out)@ == old(out)@ + add@,
{
    let mut j: usize = 0;
    assert(add@.take(0) =~= Seq::<char>::empty());
    assert(old(out)@ + add@.take(0) =~= old(out)@);
    while j < add.len()
        invariant
            j <= add@.len(),
            out@ == old(out)@ + add@.take(j as int),
        decreases add@.len() - j,
    {
        out.push(add[j]);
        j = j + 1;
        assert(add@.take(j as int) =~= add@.take(j - 1).push(add@[j - 1]));
    }
    assert(add@.take(j as int) =~= add@);
}

/// Replaces every non-overlapping occurrence of `pat` in `s` by `rep`, left to right.
pub fn replace_chars(s: &Vec<char>, pat: &Vec<char>, rep: &Vec<char>) -> (r: Vec<char>)
    requires
        pat@.len() > 0,
    ensures
        r@ == replace_all(s@, pat@, rep@),
{
    let mut out: Vec<char> = Vec::new();
    let mut i: usize = 0;
    assert(s@.skip(0) =~= s@);
    assert(out@ + replace_all(s@, pat@, rep@) =~= replace_all(s@, pat@, rep@));
    while i < s.len()
        invariant
            pat@.len() > 0,
            i <= s@.len(),
            out@ + replace_all(s@.skip(i as int), pat@, rep@) == replace_all(s@, pat@, rep@),
        decreases s@.len() - i,
    {
        let ghost rest = s@.skip(i as int);
        if matches_at(s, pat, i) {
            assert(occurs_at(rest, pat@, 0)) by {
                assert(rest.subrange(0, pat@.len() as int) =~= s@.subrange(
                    i as int,
                    i + pat@.len(),
                ));
            }
            assert(rest.skip(pat@.len() as int) =~= s@.skip(i + pat@.len()));
            push_all(&mut out, rep);
            i = i + pat.len();
        } else {
            assert(!occurs_at(rest, pat@, 0)) by {
                if occurs_at(rest, pat@, 0) {
                    assert(rest.subrange(0, pat@.len() as int) =~= s@.subrange(
                        i as int,
                        i + pat@.len(),
                    ));
                }
            }
            assert(rest.skip(1) =~= s@.skip(i + 1));
            out.push(s[i]);
            i = i + 1;
        }
    }
    assert(s@.skip(i as int) =~= Seq::<char>::empty());
    assert(out@ + Seq::<char>::empty() =~= out@);
    out
}

/// Whether `pat` occurs anywhere in `s`.
pub fn contains_chars(s: &Vec<char>, pat: &Vec<char>) -> (r: bool)
    ensures
        r == contains(s@, pat@),
{
    let mut i: usize = 0;
    while i < s.len()
        invariant
            i <= s@.len(),
            forall|j: int| 0 <= j < i ==> !occurs_at(s@, pat@, j),
        decreases s@.len() - i,
    {
        if matches_at(s, pat, i) {
            return true;
        }
        i = i + 1;
    }
    if matches_at(s, pat, i) {
        return true;
    }
    assert forall|j: int| !occurs_at(s@, pat@, j) by {
        if occurs_at(s@, pat@, j) {
            assert(j <= i);
        }
    }
    false
}

} // verus!
