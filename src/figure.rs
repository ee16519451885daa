//! The template renderer: drops metadata lines, trims, and substitutes placeholders.
use vstd::prelude::*;
use crate::text::{
    chars_of, contains, contains_chars, join_rows, push_all, push_range, replace_all,
    replace_chars, string_of,
};

verus! {

/// The lines of `s`, split at each newline; a trailing newline leaves an empty last line.
pub open spec fn split_lines(s: Seq<char>) -> Seq<Seq<char>>
    decreases s.len(),
{
    if s.len() == 0 {
        seq![Seq::empty()]
    } else {
        let p = split_lines(s.drop_last());
        if s.last() == '\n' {
            p.push(Seq::empty())
        } else {
            p.drop_last().push(p.last().push(s.last()))
        }
    }
}

/// The comment marker that opens a metadata line.
pub open spec fn comment_marker() -> Seq<char> {
    seq!['#', '#']
}

/// The marker whose line ends the figure's content.
pub open spec fn end_marker() -> Seq<char> {
    seq!['E', 'O', 'C']
}

/// A line belongs to the figure unless it starts with the comment marker or holds the
/// end marker.
pub open spec fn keep_line(l: Seq<char>) -> bool {
    !(l.len() >= 2 && l.take(2) == comment_marker()) && !contains(l, end_marker())
}

/// The lines that belong to the figure, in order.
pub open spec fn kept_lines(lines: Seq<Seq<char>>) -> Seq<Seq<char>>
    decreases lines.len(),
{
    if lines.len() == 0 {
        lines
    } else if keep_line(lines.last()) {
        kept_lines(lines.drop_last()).push(lines.last())
    } else {
        kept_lines(lines.drop_last())
    }
}

/// Unicode `White_Space`, the characters that trimming removes.
pub open spec fn is_white(c: char) -> bool {
    ('\u{9}' <= c && c <= '\u{d}') || c == ' ' || c == '\u{85}' || c == '\u{a0}' || c
        == '\u{1680}' || ('\u{2000}' <= c && c <= '\u{200a}') || c == '\u{2028}' || c
        == '\u{2029}' || c == '\u{202f}' || c == '\u{205f}' || c == '\u{3000}'
}

/// `s` without its trailing whitespace.
pub open spec fn trim_end(s: Seq<char>) -> Seq<char>
    decreases s.len(),
{
    if s.len() > 0 && is_white(s.last()) {
        trim_end(s.drop_last())
    } else {
        s
    }
}

/// The figure's text: metadata lines dropped, the rest rejoined and trimmed at the end.
pub open spec fn body_of(s: Seq<char>) -> Seq<char> {
    trim_end(join_rows(kept_lines(split_lines(s))))
}

/// The placeholder for the eye glyphs.
pub open spec fn eyes_token() -> Seq<char> {
    seq!['$', 'e', 'y', 'e', 's']
}

/// The placeholder for the thought connector.
pub open spec fn thoughts_token() -> Seq<char> {
    seq!['$', 't', 'h', 'o', 'u', 'g', 'h', 't', 's']
}

/// The placeholder for the tongue glyphs.
pub open spec fn tongue_token() -> Seq<char> {
    seq!['$', 't', 'o', 'n', 'g', 'u', 'e']
}

/// The placeholders replaced, in order: eyes, thought connector, tongue.
pub open spec fn substitute(
    body: Seq<char>,
    thoughts: Seq<char>,
    eyes: Seq<char>,
    tongue: Seq<char>,
) -> Seq<char> {
    replace_all(
        replace_all(replace_all(body, eyes_token(), eyes), thoughts_token(), thoughts),
        tongue_token(),
        tongue,
    )
}

/// The escapes resolved, in order: a doubled backslash becomes one, then `\@` becomes `@`.
pub open spec fn unescape(s: Seq<char>) -> Seq<char> {
    replace_all(replace_all(s, seq!['\\', '\\'], seq!['\\']), seq!['\\', '@'], seq!['@'])
}

/// The rendered figure.
pub open spec fn animal_spec(
    s: Seq<char>,
    thoughts: Seq<char>,
    eyes: Seq<char>,
    tongue: Seq<char>,
) -> Seq<char> {
    unescape(substitute(body_of(s), thoughts, eyes, tongue))
}

/// Whether the line belongs to the figure.
fn keeps_line(l: &Vec<char>) -> (r: bool)
    ensures
        r == keep_line(l@),
{
    let comment = l.len() >= 2 && l[0] == '#' && l[1] == '#';
    if l.len() >= 2 {
        assert(comment == (l@.take(2) == comment_marker())) by {
            if !comment {
                assert(l@.take(2)[0] != '#' || l@.take(2)[1] != '#');
            } else {
                assert(l@.take(2) =~= comment_marker());
            }
        }
    }
    !comment && !contains_chars(l, &vec!['E', 'O', 'C'])
}

/// Whether `c` is Unicode whitespace.
fn is_white_char(c: char) -> (r: bool)
    ensures
        r == is_white(c),
{
    ('\u{9}' <= c && c <= '\u{d}') || c == ' ' || c == '\u{85}' || c == '\u{a0}' || c
        == '\u{1680}' || ('\u{2000}' <= c && c <= '\u{200a}') || c == '\u{2028}' || c
        == '\u{2029}' || c == '\u{202f}' || c == '\u{205f}' || c == '\u{3000}'
}

/// Splitting always yields at least one line.
pub proof fn lemma_split_lines_nonempty(s: Seq<char>)
    ensures
        split_lines(s).len() >= 1,
    decreases s.len(),
{
    if s.len() > 0 {
        lemma_split_lines_nonempty(s.drop_last());
    }
}

/// Appends `line` to the joined rows `out` when it belongs to the figure.
fn keep_into(out: &mut Vec<char>, any: &mut bool, line: &Vec<char>, Ghost(done): Ghost<
    Seq<Seq<char>>,
>)
    requires
        old(out)@ == join_rows(kept_lines(done)),
        *old(any) == (kept_lines(done).len() > 0),
    ensures
        final(out)@ == join_rows(kept_lines(done.push(line@))),
        *final(any) == (kept_lines(done.push(line@)).len() > 0),
{
    assert(done.push(line@).drop_last() =~= done);
    if keeps_line(line) {
        let ghost k = kept_lines(done);
        assert(k.push(line@).drop_last() =~= k);
        if *any {
            out.push('\n');
        } else {
            assert(k.push(line@) =~= seq![line@]);
        }
        push_all(out, line);
        *any = true;
    }
}

/// The figure's text of `s`: metadata lines dropped, rejoined, trimmed at the end.
fn figure_body(s: &Vec<char>) -> (r: Vec<char>)
    ensures
        r@ == body_of(s@),
{
    let mut out: Vec<char> = Vec::new();
    let mut any = false;
    let mut cur: Vec<char> = Vec::new();
    let mut i: usize = 0;
    assert(s@.take(0) =~= Seq::<char>::empty());
    while i < s.len()
        invariant
            i <= s@.len(),
            split_lines(s@.take(i as int)).len() >= 1,
            cur@ == split_lines(s@.take(i as int)).last(),
            out@ == join_rows(kept_lines(split_lines(s@.take(i as int)).drop_last())),
            any == (kept_lines(split_lines(s@.take(i as int)).drop_last()).len() > 0),
        decreases s@.len() - i,
    {
        let ghost p = split_lines(s@.take(i as int));
        assert(s@.take(i + 1).drop_last() =~= s@.take(i as int));
        let c = s[i];
        if c == '\n' {
            assert(p.drop_last().push(p.last()) =~= p);
            keep_into(&mut out, &mut any, &cur, Ghost(p.drop_last()));
            cur = Vec::new();
            assert(split_lines(s@.take(i + 1)).drop_last() =~= p);
        } else {
            cur.push(c);
            assert(split_lines(s@.take(i + 1)).drop_last() =~= p.drop_last());
        }
        i = i + 1;
    }
    assert(s@.take(i as int) =~= s@);
    let ghost p = split_lines(s@);
    assert(p.drop_last().push(p.last()) =~= p);
    keep_into(&mut out, &mut any, &cur, Ghost(p.drop_last()));
    let mut j: usize = out.len();
    assert(out@.take(j as int) =~= out@);
    while j > 0 && is_white_char(out[j - 1])
        invariant
            j <= out@.len(),
            trim_end(out@.take(j as int)) == body_of(s@),
        decreases j,
    {
        assert(out@.take(j - 1) =~= out@.take(j as int).drop_last());
        j = j - 1;
    }
    let mut r: Vec<char> = Vec::new();
    push_range(&mut r, &out, 0, j);
    assert(r@ =~= out@.take(j as int));
    r
}

/// Renders a figure template: drops comment and end-marker lines, trims trailing
/// whitespace, substitutes the eyes, thought connector and tongue, then resolves the
/// backslash escapes.
pub fn format_animal(s: String, thoughts: &str, eyes: &str, tongue: &str) -> (r: String)
    ensures
        r@ == animal_spec(s@, thoughts@, eyes@, tongue@),
{
    let chars = chars_of(s.as_str());
    let body = figure_body(&chars);
    let p_eyes = vec!['$', 'e', 'y', 'e', 's'];
    let p_thoughts = vec!['$', 't', 'h', 'o', 'u', 'g', 'h', 't', 's'];
    let p_tongue = vec!['$', 't', 'o', 'n', 'g', 'u', 'e'];
    let p_backslash = vec!['\\', '\\'];
    let p_at = vec!['\\', '@'];
    assert(p_eyes@ =~= eyes_token());
    assert(p_thoughts@ =~= thoughts_token());
    assert(p_tongue@ =~= tongue_token());
    let t = replace_chars(&body, &p_eyes, &chars_of(eyes));
    let t = replace_chars(&t, &p_thoughts, &chars_of(thoughts));
    let t = replace_chars(&t, &p_tongue, &chars_of(tongue));
    let r_backslash = vec!['\\'];
    let r_at = vec!['@'];
    assert(p_backslash@ =~= seq!['\\', '\\']);
    assert(p_at@ =~= seq!['\\', '@']);
    assert(r_backslash@ =~= seq!['\\']);
    assert(r_at@ =~= seq!['@']);
    let t = replace_chars(&t, &p_backslash, &r_backslash);
    let t = replace_chars(&t, &p_at, &r_at);
    assert(t@ =~= animal_spec(s@, thoughts@, eyes@, tongue@));
    string_of(&t)
}

} // verus!
