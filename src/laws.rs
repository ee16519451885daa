//! Properties of the bubble and of the template renderer, proved over their models.
use vstd::prelude::*;
use crate::bubble::{
    border, bubble_rows, bubble_spec, bubble_width, content_lines, framed_row, lemma_max_len_bounds,
    lemma_rows_shape, style_spec, wrap_from,
};
use crate::figure::{
    animal_spec, eyes_token, keep_line, kept_lines, lemma_split_lines_nonempty, split_lines,
    thoughts_token, tongue_token, trim_end, is_white, unescape,
};
use crate::text::{contains, join_rows, occurs_at, replace_all};

verus! {

/// Wrapping always yields at least one line.
pub proof fn lemma_wrap_nonempty(m: Seq<char>, off: int, width: int)
    ensures
        wrap_from(m, off, width).len() >= 1,
    decreases m.len() - off,
{
    if !(width <= 0 || off < 0 || off + width >= m.len()) {
        let step = crate::bubble::break_len(m, off, width);
        lemma_wrap_nonempty(m, off + step, width);
    }
}

/// A message shorter than the width is not wrapped: the bubble is the same with and
/// without wrapping, and holds the message as its one line, between the single-line glyphs.
pub proof fn lemma_short_message_unwrapped(m: Seq<char>, width: int, think: bool)
    requires
        m.len() < width,
    ensures
        bubble_spec(m, width, think, true) == bubble_spec(m, width, think, false),
        content_lines(m, width, true) == seq![m],
        bubble_rows(m, width, think, true).len() == 3,
        bubble_rows(m, width, think, true)[1] == framed_row(
            m,
            style_spec(think).sleft,
            style_spec(think).sright,
            m.len() + 4int,
        ),
{
    assert(m.subrange(0, m.len() as int) =~= m);
    assert(content_lines(m, width, true) =~= seq![m]);
    let lines = seq![m];
    assert(crate::bubble::max_len(lines) == m.len()) by {
        assert(lines.drop_last() =~= Seq::<Seq<char>>::empty());
        assert(crate::bubble::max_len(lines.drop_last()) == 0);
    }
    assert(bubble_rows(m, width, think, true) =~= bubble_rows(m, width, think, false));
}

/// A message of exactly two lines has both framed by the single-line glyphs.
pub proof fn lemma_two_lines_single_glyphs(m: Seq<char>, width: int, think: bool, wrap: bool)
    requires
        content_lines(m, width, wrap).len() == 2,
    ensures
        forall|i: int|
            0 <= i < 2 ==> #[trigger] bubble_rows(m, width, think, wrap)[i + 1] == framed_row(
                content_lines(m, width, wrap)[i],
                style_spec(think).sleft,
                style_spec(think).sright,
                bubble_width(content_lines(m, width, wrap)),
            ),
{
    lemma_rows_shape(m, width, think, wrap);
}

/// A message of three lines or more has its first line framed by the top glyphs, its
/// last by the bottom glyphs, and every other one by the middle glyphs.
pub proof fn lemma_many_lines_glyphs(m: Seq<char>, width: int, think: bool, wrap: bool)
    requires
        content_lines(m, width, wrap).len() >= 3,
    ensures
        ({
            let lines = content_lines(m, width, wrap);
            let n = lines.len() as int;
            let rows = bubble_rows(m, width, think, wrap);
            let st = style_spec(think);
            let w = bubble_width(lines);
            &&& rows[1] == framed_row(lines[0], st.topleft, st.topright, w)
            &&& rows[n] == framed_row(lines[n - 1], st.botleft, st.botright, w)
            &&& forall|i: int|
                0 < i < n - 1 ==> #[trigger] rows[i + 1] == framed_row(
                    lines[i],
                    st.midleft,
                    st.midright,
                    w,
                )
        }),
{
    lemma_rows_shape(m, width, think, wrap);
}

/// Every framed line of a bubble is padded to the same length, the length of its
/// longest framed line.
pub proof fn lemma_rows_padded(m: Seq<char>, width: int, think: bool, wrap: bool)
    ensures
        ({
            let lines = content_lines(m, width, wrap);
            let rows = bubble_rows(m, width, think, wrap);
            let w = bubble_width(lines);
            &&& forall|i: int| 1 <= i <= lines.len() ==> (#[trigger] rows[i]).len() == w
            &&& forall|i: int| 0 <= i < lines.len() ==> (#[trigger] lines[i]).len() + 4 <= w
            &&& exists|i: int| 0 <= i < lines.len() && (#[trigger] lines[i]).len() + 4 == w
        }),
{
    let lines = content_lines(m, width, wrap);
    let rows = bubble_rows(m, width, think, wrap);
    if wrap {
        lemma_wrap_nonempty(m, 0, width);
    }
    lemma_max_len_bounds(lines);
    lemma_rows_shape(m, width, think, wrap);
    let w = bubble_width(lines);
    assert forall|i: int| 1 <= i <= lines.len() implies (#[trigger] rows[i]).len() == w by {
        assert(lines[i - 1].len() + 4 <= w);
        assert(rows[(i - 1) + 1] == rows[i]);
    }
}

/// The top border is a space then underscores, the bottom border a space then hyphens,
/// both of the same length: one less than the longest framed line, so that the glyphs
/// stand out beyond the border at the right.
pub proof fn lemma_borders(m: Seq<char>, width: int, think: bool, wrap: bool)
    ensures
        ({
            let lines = content_lines(m, width, wrap);
            let rows = bubble_rows(m, width, think, wrap);
            let w = bubble_width(lines);
            &&& rows[0] == border('_', w)
            &&& rows.last() == border('-', w)
            &&& rows[0].len() == rows.last().len()
            &&& rows[0].len() == w - 1
            &&& rows[0][0] == ' ' && rows.last()[0] == ' '
            &&& forall|k: int| 1 <= k < w - 1 ==> #[trigger] rows[0][k] == '_'
            &&& forall|k: int| 1 <= k < w - 1 ==> #[trigger] rows.last()[k] == '-'
        }),
{
    lemma_rows_shape(m, width, think, wrap);
}


/// Replacing a pattern that does not occur changes nothing.
pub proof fn lemma_replace_absent(s: Seq<char>, pat: Seq<char>, rep: Seq<char>)
    requires
        pat.len() > 0,
        !contains(s, pat),
    ensures
        replace_all(s, pat, rep) == s,
    decreases s.len(),
{
    if s.len() > 0 {
        assert(!occurs_at(s, pat, 0));
        let t = s.skip(1);
        assert forall|j: int| !occurs_at(t, pat, j) by {
            if occurs_at(t, pat, j) {
                assert(s.subrange(j + 1, j + 1 + pat.len()) =~= t.subrange(j, j + pat.len()));
                assert(occurs_at(s, pat, j + 1));
            }
        }
        lemma_replace_absent(t, pat, rep);
        assert(seq![s[0]] + t =~= s);
    }
}

/// A prefix free of the pattern's first character passes through a replacement untouched.
pub proof fn lemma_replace_prefix(a: Seq<char>, b: Seq<char>, pat: Seq<char>, rep: Seq<char>)
    requires
        pat.len() > 0,
        forall|i: int| 0 <= i < a.len() ==> a[i] != pat[0],
    ensures
        replace_all(a + b, pat, rep) == a + replace_all(b, pat, rep),
    decreases a.len(),
{
    if a.len() == 0 {
        assert(a + b =~= b);
        assert(a + replace_all(b, pat, rep) =~= replace_all(b, pat, rep));
    } else {
        let s = a + b;
        assert(s[0] == a[0]);
        if occurs_at(s, pat, 0) {
            assert(s.subrange(0, pat.len() as int)[0] == s[0]);
        }
        assert(s.skip(1) =~= a.skip(1) + b);
        lemma_replace_prefix(a.skip(1), b, pat, rep);
        assert(seq![a[0]] + (a.skip(1) + replace_all(b, pat, rep)) =~= a + replace_all(
            b,
            pat,
            rep,
        ));
    }
}

/// The pattern at the front is replaced, and the rest follows.
pub proof fn lemma_replace_front(b: Seq<char>, pat: Seq<char>, rep: Seq<char>)
    requires
        pat.len() > 0,
    ensures
        replace_all(pat + b, pat, rep) == rep + replace_all(b, pat, rep),
{
    let s = pat + b;
    assert(s.subrange(0, pat.len() as int) =~= pat);
    assert(s.skip(pat.len() as int) =~= b);
}

/// A doubled backslash followed by `@` resolves to a single `@`: both escapes are
/// resolved in the one rendering, around any text free of backslashes.
pub proof fn lemma_escaped_at(s1: Seq<char>, s2: Seq<char>)
    requires
        forall|i: int| 0 <= i < s1.len() ==> s1[i] != '\\',
        forall|i: int| 0 <= i < s2.len() ==> s2[i] != '\\',
    ensures
        unescape(s1 + seq!['\\', '\\', '@'] + s2) == s1 + seq!['@'] + s2,
{
    let bs = seq!['\\', '\\'];
    let at = seq!['\\', '@'];
    let one = seq!['\\'];
    let x = s1 + seq!['\\', '\\', '@'] + s2;
    // first pass: the doubled backslash
    assert(x =~= s1 + (bs + (seq!['@'] + s2)));
    lemma_replace_prefix(s1, bs + (seq!['@'] + s2), bs, one);
    lemma_replace_front(seq!['@'] + s2, bs, one);
    lemma_replace_prefix(seq!['@'] + s2, Seq::empty(), bs, one);
    assert(seq!['@'] + s2 + Seq::<char>::empty() =~= seq!['@'] + s2);
    assert(replace_all(Seq::<char>::empty(), bs, one) =~= Seq::<char>::empty());
    let y = s1 + seq!['\\', '@'] + s2;
    assert(replace_all(x, bs, one) =~= y);
    // second pass: the escaped `@`
    assert(y =~= s1 + (at + s2));
    lemma_replace_prefix(s1, at + s2, at, seq!['@']);
    lemma_replace_front(s2, at, seq!['@']);
    lemma_replace_prefix(s2, Seq::empty(), at, seq!['@']);
    assert(s2 + Seq::<char>::empty() =~= s2);
    assert(replace_all(Seq::<char>::empty(), at, seq!['@']) =~= Seq::<char>::empty());
    assert(replace_all(y, at, seq!['@']) =~= s1 + seq!['@'] + s2);
}

/// Joining the split lines gives the text back.
pub proof fn lemma_join_split(s: Seq<char>)
    ensures
        join_rows(split_lines(s)) == s,
    decreases s.len(),
{
    if s.len() > 0 {
        let p = split_lines(s.drop_last());
        lemma_join_split(s.drop_last());
        lemma_split_lines_nonempty(s.drop_last());
        if s.last() == '\n' {
            assert(p.push(Seq::empty()).drop_last() =~= p);
            assert(s.drop_last() + seq!['\n'] + Seq::<char>::empty() =~= s);
        } else {
            let q = p.drop_last().push(p.last().push(s.last()));
            if p.len() == 1 {
                assert(s.drop_last().push(s.last()) =~= s);
            } else {
                assert(q.drop_last() =~= p.drop_last());
                assert(join_rows(p.drop_last()) + seq!['\n'] + p.last().push(s.last())
                    =~= (join_rows(p.drop_last()) + seq!['\n'] + p.last()).push(s.last()));
                assert(s.drop_last().push(s.last()) =~= s);
            }
        }
    }
}

/// When every line belongs to the figure, none is dropped.
pub proof fn lemma_kept_all(lines: Seq<Seq<char>>)
    requires
        forall|i: int| 0 <= i < lines.len() ==> keep_line(#[trigger] lines[i]),
    ensures
        kept_lines(lines) == lines,
    decreases lines.len(),
{
    if lines.len() > 0 {
        let p = lines.drop_last();
        assert forall|i: int| 0 <= i < p.len() implies keep_line(#[trigger] p[i]) by {
            assert(p[i] == lines[i]);
        }
        lemma_kept_all(p);
        assert(keep_line(lines[lines.len() - 1]));
        assert(p.push(lines.last()) =~= lines);
    }
}

/// Trimming keeps a prefix of the text.
pub proof fn lemma_trim_prefix(s: Seq<char>)
    ensures
        trim_end(s).len() <= s.len(),
        trim_end(s) == s.take(trim_end(s).len() as int),
    decreases s.len(),
{
    if s.len() > 0 && is_white(s.last()) {
        lemma_trim_prefix(s.drop_last());
        assert(s.drop_last().take(trim_end(s).len() as int) =~= s.take(trim_end(s).len() as int));
    } else {
        assert(s.take(s.len() as int) =~= s);
    }
}

/// A pattern absent from a text is absent from each of its prefixes.
pub proof fn lemma_absent_prefix(s: Seq<char>, k: int, pat: Seq<char>)
    requires
        0 <= k <= s.len(),
        !contains(s, pat),
    ensures
        !contains(s.take(k), pat),
{
    assert forall|j: int| !occurs_at(s.take(k), pat, j) by {
        if occurs_at(s.take(k), pat, j) {
            assert(s.subrange(j, j + pat.len()) =~= s.take(k).subrange(j, j + pat.len()));
            assert(occurs_at(s, pat, j));
        }
    }
}

/// A template free of placeholders, escapes, comment lines and end-marker lines renders
/// as itself, trimmed at the end.
pub proof fn lemma_plain_template(
    s: Seq<char>,
    thoughts: Seq<char>,
    eyes: Seq<char>,
    tongue: Seq<char>,
)
    requires
        forall|i: int|
            0 <= i < split_lines(s).len() ==> keep_line(#[trigger] split_lines(s)[i]),
        !contains(s, eyes_token()),
        !contains(s, thoughts_token()),
        !contains(s, tongue_token()),
        !contains(s, seq!['\\', '\\']),
        !contains(s, seq!['\\', '@']),
    ensures
        animal_spec(s, thoughts, eyes, tongue) == trim_end(s),
{
    lemma_kept_all(split_lines(s));
    lemma_join_split(s);
    let t = trim_end(s);
    lemma_trim_prefix(s);
    lemma_absent_prefix(s, t.len() as int, eyes_token());
    lemma_absent_prefix(s, t.len() as int, thoughts_token());
    lemma_absent_prefix(s, t.len() as int, tongue_token());
    lemma_absent_prefix(s, t.len() as int, seq!['\\', '\\']);
    lemma_absent_prefix(s, t.len() as int, seq!['\\', '@']);
    lemma_replace_absent(t, eyes_token(), eyes);
    lemma_replace_absent(t, thoughts_token(), thoughts);
    lemma_replace_absent(t, tongue_token(), tongue);
    lemma_replace_absent(t, seq!['\\', '\\'], seq!['\\']);
    lemma_replace_absent(t, seq!['\\', '@'], seq!['@']);
}

} // verus!
