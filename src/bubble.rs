//! The bubble builder: wraps a message into lines and frames them in a box of glyphs.
use vstd::prelude::*;
use crate::text::{chars_of, join_rows, push_all, push_range, push_repeat, repeat, string_of};

verus! {

/// The eight glyphs that frame the lines of a bubble.
#[derive(Clone, Copy, Debug)]
pub struct BubbleStyle {
    pub sleft: char,
    pub sright: char,
    pub topleft: char,
    pub midleft: char,
    pub botleft: char,
    pub topright: char,
    pub midright: char,
    pub botright: char,
}

/// The glyphs of a thought bubble (`think`) or of a speech bubble.
pub open spec fn style_spec(think: bool) -> BubbleStyle {
    if think {
        BubbleStyle {
            sleft: '(',
            sright: ')',
            topleft: '(',
            midleft: '(',
            botleft: '(',
            topright: ')',
            midright: ')',
            botright: ')',
        }
    } else {
        BubbleStyle {
            sleft: '<',
            sright: '>',
            topleft: '/',
            midleft: '|',
            botleft: '\\',
            topright: '\\',
            midright: '|',
            botright: '/',
        }
    }
}

impl BubbleStyle {
    /// The glyphs of a speech bubble.
    pub fn speech() -> (r: BubbleStyle)
        ensures
            r == style_spec(false),
    {
        BubbleStyle {
            sleft: '<',
            sright: '>',
            topleft: '/',
            midleft: '|',
            botleft: '\\',
            topright: '\\',
            midright: '|',
            botright: '/',
        }
    }

    /// The glyphs of a thought bubble.
    pub fn thought() -> (r: BubbleStyle)
        ensures
            r == style_spec(true),
    {
        BubbleStyle {
            sleft: '(',
            sright: ')',
            topleft: '(',
            midleft: '(',
            botleft: '(',
            topright: ')',
            midright: ')',
            botright: ')',
        }
    }

    /// The opening glyph of line `i` of `n`: the single-line glyph when there are at
    /// most two lines, else the top, middle or bottom glyph by position.
    pub open spec fn left_spec(self, i: int, n: int) -> char {
        if n <= 2 {
            self.sleft
        } else if i == 0 {
            self.topleft
        } else if i == n - 1 {
            self.botleft
        } else {
            self.midleft
        }
    }

    /// The closing glyph of line `i` of `n`, chosen as for `left_spec`.
    pub open spec fn right_spec(self, i: int, n: int) -> char {
        if n <= 2 {
            self.sright
        } else if i == 0 {
            self.topright
        } else if i == n - 1 {
            self.botright
        } else {
            self.midright
        }
    }

    /// The opening glyph of line `i` of `n`.
    pub fn left(&self, i: usize, n: usize) -> (r: char)
        ensures
            r == self.left_spec(i as int, n as int),
    {
        if n <= 2 {
            self.sleft
        } else if i == 0 {
            self.topleft
        } else if i == n - 1 {
            self.botleft
        } else {
            self.midleft
        }
    }

    /// The closing glyph of line `i` of `n`.
    pub fn right(&self, i: usize, n: usize) -> (r: char)
        ensures
            r == self.right_spec(i as int, n as int),
    {
        if n <= 2 {
            self.sright
        } else if i == 0 {
            self.topright
        } else if i == n - 1 {
            self.botright
        } else {
            self.midright
        }
    }
}

/// Scanning back from `k` towards `off`, the first end position `k` such that the
/// window `m[off..k]` ends with a space; `off` when there is none.
pub open spec fn space_end(m: Seq<char>, off: int, k: int) -> int
    decreases k - off,
{
    if k <= off {
        off
    } else if m[k - 1] == ' ' {
        k
    } else {
        space_end(m, off, k - 1)
    }
}

/// The length of the line that starts at `off`: up to the last space within `width`
/// characters, or a hard break at `width` when the window holds no space.
pub open spec fn break_len(m: Seq<char>, off: int, width: int) -> int {
    let k = space_end(m, off, off + width);
    if off < k && k <= off + width {
        k - off
    } else {
        width
    }
}

/// The lines of `m` from `off` on, wrapped at `width`; the tail is the last line.
pub open spec fn wrap_from(m: Seq<char>, off: int, width: int) -> Seq<Seq<char>>
    decreases m.len() - off,
{
    if width <= 0 || off < 0 || off + width >= m.len() {
        seq![m.subrange(off, m.len() as int)]
    } else {
        let step = break_len(m, off, width);
        seq![m.subrange(off, off + step)] + wrap_from(m, off + step, width)
    }
}

/// The lines of the bubble's text: wrapped at `width` when `wrap`, else the whole message.
pub open spec fn content_lines(m: Seq<char>, width: int, wrap: bool) -> Seq<Seq<char>> {
    if wrap {
        wrap_from(m, 0, width)
    } else {
        seq![m]
    }
}

/// The length of the longest line.
pub open spec fn max_len(lines: Seq<Seq<char>>) -> nat
    decreases lines.len(),
{
    if lines.len() == 0 {
        0
    } else {
        let p = max_len(lines.drop_last());
        if lines.last().len() > p {
            lines.last().len()
        } else {
            p
        }
    }
}

/// The width of a bubble: its longest framed line, that is glyph, space, text, space, glyph.
pub open spec fn bubble_width(lines: Seq<Seq<char>>) -> int {
    max_len(lines) + 4int
}

/// A border row: a space, then `c` up to the width `w`.
pub open spec fn border(c: char, w: int) -> Seq<char> {
    seq![' '] + repeat(c, w - 2)
}

/// A line between its glyphs, padded with spaces before the closing glyph to width `w`.
pub open spec fn framed_row(line: Seq<char>, l: char, r: char, w: int) -> Seq<char> {
    seq![l, ' '] + line + seq![' '] + repeat(' ', w - 4 - line.len()) + seq![r]
}

/// The rows of a bubble: top border, the framed lines, bottom border.
pub open spec fn bubble_rows(m: Seq<char>, width: int, think: bool, wrap: bool) -> Seq<Seq<char>> {
    let lines = content_lines(m, width, wrap);
    let n = lines.len() as int;
    let st = style_spec(think);
    let w = bubble_width(lines);
    seq![border('_', w)] + Seq::new(
        n as nat,
        |i: int| framed_row(lines[i], st.left_spec(i, n), st.right_spec(i, n), w),
    ) + seq![border('-', w)]
}

/// The text of a bubble.
pub open spec fn bubble_spec(m: Seq<char>, width: int, think: bool, wrap: bool) -> Seq<char> {
    join_rows(bubble_rows(m, width, think, wrap))
}

/// The lines that the ranges of `r` cut out of `m`.
pub open spec fn lines_of(m: Seq<char>, r: Seq<(usize, usize)>) -> Seq<Seq<char>> {
    Seq::new(r.len(), |i: int| m.subrange(r[i].0 as int, r[i].1 as int))
}

/// Every range of `r` lies within the first `end` characters.
pub open spec fn ranges_within(r: Seq<(usize, usize)>, end: int) -> bool {
    forall|i: int| 0 <= i < r.len() ==> (#[trigger] r[i]).0 <= r[i].1 <= end
}

/// No line is longer than the longest one.
pub proof fn lemma_max_len_bounds(lines: Seq<Seq<char>>)
    ensures
        forall|i: int| 0 <= i < lines.len() ==> lines[i].len() <= max_len(lines),
        lines.len() > 0 ==> exists|i: int| 0 <= i < lines.len() && lines[i].len() == max_len(lines),
    decreases lines.len(),
{
    if lines.len() > 0 {
        let p = lines.drop_last();
        lemma_max_len_bounds(p);
        assert forall|i: int| 0 <= i < lines.len() implies lines[i].len() <= max_len(lines) by {
            if i < p.len() {
                assert(lines[i] == p[i]);
            }
        }
        if lines.last().len() <= max_len(p) && p.len() > 0 {
            let j = choose|j: int| 0 <= j < p.len() && p[j].len() == max_len(p);
            assert(lines[j] == p[j]);
        } else {
            assert(lines[lines.len() - 1].len() == max_len(lines));
        }
    }
}

/// The rows of a bubble, one by one: the top border, each line framed by the glyphs of
/// its position, the bottom border.
pub proof fn lemma_rows_shape(m: Seq<char>, width: int, think: bool, wrap: bool)
    ensures
        ({
            let lines = content_lines(m, width, wrap);
            let n = lines.len() as int;
            let rows = bubble_rows(m, width, think, wrap);
            let st = style_spec(think);
            let w = bubble_width(lines);
            &&& rows.len() == n + 2
            &&& rows[0] == border('_', w)
            &&& rows[n + 1] == border('-', w)
            &&& forall|i: int|
                0 <= i < n ==> #[trigger] rows[i + 1] == framed_row(
                    lines[i],
                    st.left_spec(i, n),
                    st.right_spec(i, n),
                    w,
                )
        }),
{
    let lines = content_lines(m, width, wrap);
    let n = lines.len() as int;
    let st = style_spec(think);
    let w = bubble_width(lines);
    let framed = Seq::new(
        n as nat,
        |j: int| framed_row(lines[j], st.left_spec(j, n), st.right_spec(j, n), w),
    );
    let top = seq![border('_', w)];
    let rows = bubble_rows(m, width, think, wrap);
    assert(rows == top + framed + seq![border('-', w)]);
    assert forall|i: int| 0 <= i < n implies #[trigger] rows[i + 1] == framed_row(
        lines[i],
        st.left_spec(i, n),
        st.right_spec(i, n),
        w,
    ) by {
        assert((top + framed)[i + 1] == framed[i]);
    }
}

/// Cuts the message into line ranges, wrapped at `width` when `wrap`.
fn wrap_ranges(m: &Vec<char>, width: usize, wrap: bool) -> (r: Vec<(usize, usize)>)
    ensures
        ranges_within(r@, m@.len() as int),
        lines_of(m@, r@) == content_lines(m@, width as int, wrap),
{
    let n = m.len();
    let mut r: Vec<(usize, usize)> = Vec::new();
    let mut off: usize = 0;
    if wrap && width > 0 {
        assert(lines_of(m@, r@) =~= Seq::<Seq<char>>::empty());
        assert(lines_of(m@, r@) + wrap_from(m@, 0, width as int) =~= wrap_from(m@, 0, width as int));
        while width < n - off
            invariant
                n == m@.len(),
                off <= n,
                width > 0,
                wrap,
                ranges_within(r@, off as int),
                lines_of(m@, r@) + wrap_from(m@, off as int, width as int) == wrap_from(
                    m@,
                    0,
                    width as int,
                ),
            decreases n - off,
        {
            let mut k: usize = off + width;
            while k > off && m[k - 1] != ' '
                invariant
                    off <= k <= off + width,
                    off + width < n,
                    n == m@.len(),
                    space_end(m@, off as int, k as int) == space_end(
                        m@,
                        off as int,
                        (off + width) as int,
                    ),
                decreases k,
            {
                k = k - 1;
            }
            let step: usize = if k > off {
                k - off
            } else {
                width
            };
            assert(step == break_len(m@, off as int, width as int));
            let ghost before = lines_of(m@, r@);
            let ghost line = m@.subrange(off as int, off + step);
            r.push((off, off + step));
            assert(lines_of(m@, r@) =~= before.push(line));
            assert(before + wrap_from(m@, off as int, width as int) =~= before.push(line)
                + wrap_from(m@, off + step, width as int));
            off = off + step;
        }
    }
    let ghost before = lines_of(m@, r@);
    r.push((off, n));
    assert(lines_of(m@, r@) =~= before.push(m@.subrange(off as int, n as int)));
    if wrap && width > 0 {
        assert(lines_of(m@, r@) =~= before + wrap_from(m@, off as int, width as int));
    } else {
        assert(m@.subrange(0, n as int) =~= m@);
        assert(lines_of(m@, r@) =~= content_lines(m@, width as int, wrap));
    }
    r
}

/// A border row of `longest + 4` characters: a space, then `c`.
fn border_row(c: char, longest: usize) -> (r: Vec<char>)
    ensures
        r@ == border(c, longest + 4),
{
    let mut r: Vec<char> = Vec::new();
    r.push(' ');
    push_repeat(&mut r, c, longest);
    push_repeat(&mut r, c, 2);
    assert(r@ =~= border(c, longest + 4));
    r
}

/// The line `m[start..end]` framed by `l` and `r` and padded to `longest + 4` characters.
fn frame_row(m: &Vec<char>, start: usize, end: usize, l: char, r: char, longest: usize) -> (row:
    Vec<char>)
    requires
        start <= end <= m@.len(),
        end - start <= longest,
    ensures
        row@ == framed_row(m@.subrange(start as int, end as int), l, r, longest + 4),
{
    let mut row: Vec<char> = Vec::new();
    row.push(l);
    row.push(' ');
    push_range(&mut row, m, start, end);
    row.push(' ');
    push_repeat(&mut row, ' ', longest - (end - start));
    row.push(r);
    assert(row@ =~= framed_row(m@.subrange(start as int, end as int), l, r, longest + 4));
    row
}

/// The bubble around `message`: a top border of underscores, each line of the message
/// (wrapped at `width` when `wrap`) framed by the glyphs of its position and padded to
/// the longest, and a bottom border of hyphens, joined by newlines.
pub fn make_bubble(message: &String, width: usize, think: bool, wrap: bool) -> (r: String)
    ensures
        r@ == bubble_spec(message@, width as int, think, wrap),
{
    let m = chars_of(message.as_str());
    let ranges = wrap_ranges(&m, width, wrap);
    let ghost lines = content_lines(m@, width as int, wrap);
    let nl = ranges.len();
    let mut longest: usize = 0;
    let mut i: usize = 0;
    while i < nl
        invariant
            nl == ranges@.len(),
            i <= nl,
            ranges_within(ranges@, m@.len() as int),
            lines_of(m@, ranges@) == lines,
            longest == max_len(lines.take(i as int)),
        decreases nl - i,
    {
        let len = ranges[i].1 - ranges[i].0;
        assert(lines.take(i + 1).drop_last() =~= lines.take(i as int));
        assert(lines.take(i + 1).last() == lines[i as int]);
        if len > longest {
            longest = len;
        }
        i = i + 1;
    }
    assert(lines.take(nl as int) =~= lines);
    proof {
        lemma_max_len_bounds(lines);
    }
    let style = if think {
        BubbleStyle::thought()
    } else {
        BubbleStyle::speech()
    };
    let ghost rows = bubble_rows(m@, width as int, think, wrap);
    let mut out = border_row('_', longest);
    assert(rows.len() == nl + 2);
    assert(rows.take(1) =~= seq![rows[0]]);
    let mut i: usize = 0;
    while i < nl
        invariant
            nl == ranges@.len(),
            nl == lines.len(),
            i <= nl,
            ranges_within(ranges@, m@.len() as int),
            lines_of(m@, ranges@) == lines,
            longest == max_len(lines),
            forall|j: int| 0 <= j < lines.len() ==> lines[j].len() <= max_len(lines),
            style == style_spec(think),
            rows == bubble_rows(m@, width as int, think, wrap),
            rows.len() == nl + 2,
            lines == content_lines(m@, width as int, wrap),
            out@ == join_rows(rows.take(i + 1)),
        decreases nl - i,
    {
        let (start, end) = ranges[i];
        assert(lines[i as int] == m@.subrange(start as int, end as int));
        let row = frame_row(&m, start, end, style.left(i, nl), style.right(i, nl), longest);
        out.push('\n');
        push_all(&mut out, &row);
        proof {
            lemma_rows_shape(m@, width as int, think, wrap);
        }
        assert(rows[i + 1] == row@);
        assert(rows.take(i + 2).drop_last() =~= rows.take(i + 1));
        i = i + 1;
    }
    out.push('\n');
    let bottom = border_row('-', longest);
    push_all(&mut out, &bottom);
    assert(rows.take(nl + 2).drop_last() =~= rows.take(nl + 1));
    assert(rows.take(nl + 2) =~= rows);
    string_of(&out)
}

} // verus!
