//! Fixed-height frames of terminal lines, escape-aware padding, the colored
//! separator bar and the character grid the unfold animation is drawn on.

use vstd::prelude::*;
use crate::logo::color::{Rgb, ansi, fg_spec, lemma_fg_invisible, lemma_reset_invisible, reset_spec};
use crate::text::{
    Align, append_chars, append_str, chars_of, escape_open_after, lemma_escape_concat,
    lemma_visible_concat, lemma_visible_plain, padded, push_char, push_repeat, repeat, visible_from, visible_width,
};

verus! {

/// A fixed-height frame of pre-rendered terminal lines.
pub struct Frame<const N: usize> {
    pub lines: [String; N],
}

/// Counts the characters of `s` that are outside ANSI escape sequences.
pub fn visible_len(s: &str) -> (n: usize)
    ensures
        n == visible_width(s@),
{
    let cs = chars_of(s);
    let mut len: usize = 0;
    let mut in_escape = false;
    let mut i: usize = 0;
    assert(cs@.subrange(0, cs.len() as int) =~= cs@);
    while i < cs.len()
        invariant
            i <= cs.len(),
            len <= i,
            cs@ == s@,
            visible_width(cs@) == len + visible_from(cs@.subrange(i as int, cs.len() as int), in_escape),
        decreases cs.len() - i,
    {
        let ch = cs[i];
        let ghost rest = cs@.subrange(i as int, cs.len() as int);
        assert(rest.drop_first() =~= cs@.subrange(i + 1, cs.len() as int));
        if in_escape {
            if ch == 'm' {
                in_escape = false;
            }
        } else if ch == '\x1b' {
            in_escape = true;
        } else {
            len = len + 1;
        }
        i = i + 1;
    }
    len
}


/// Pads a string (accounting for ANSI escapes) to a target visible width,
/// adding spaces on the right.
pub fn pad_to(s: &str, target: usize) -> (out: String)
    ensures
        out@ == padded(s@, target as nat, Align::Left),
{
    let vl = visible_len(s);
    let mut out = String::new();
    append_str(&mut out, s);
    if vl < target {
        push_repeat(&mut out, ' ', target - vl);
    }
    out
}

/// Length of the `i`-th of `n` segments that share `width` columns: the
/// first `width % n` segments take one column more than the others.
pub open spec fn segment_len(n: nat, width: nat, i: int) -> nat {
    width / n + if i < (width % n) as int {
        1nat
    } else {
        0nat
    }
}

/// The segments of a bar from the `i`-th color on: each color's escape
/// followed by its run of `━`.
pub open spec fn segments_from(colors: Seq<Rgb>, width: nat, i: nat) -> Seq<char>
    decreases colors.len() - i,
{
    if i >= colors.len() {
        seq![]
    } else {
        fg_spec(colors[i as int].0, colors[i as int].1, colors[i as int].2) + repeat(
            '━',
            segment_len(colors.len(), width, i as int),
        ) + segments_from(colors, width, i + 1)
    }
}

/// A bar of `width` columns split into equal segments of `colors`, then reset.
pub open spec fn bar_spec(colors: Seq<Rgb>, width: nat) -> Seq<char> {
    segments_from(colors, width, 0) + reset_spec()
}

/// Builds a solid colored bar across `width` columns, split into
/// equal segments of the given colors.
pub fn colored_bar(colors: &[Rgb], width: usize) -> (bar: String)
    requires
        colors.len() > 0,
    ensures
        bar@ == bar_spec(colors@, width as nat),
{
    let n = colors.len();
    let seg = width / n;
    let rem = width % n;
    let ghost w = width as nat;
    let mut bar = String::new();
    let mut i: usize = 0;
    assert(bar@ + segments_from(colors@, w, 0) =~= segments_from(colors@, w, 0));
    while i < n
        invariant
            n == colors.len(),
            n > 0,
            i <= n,
            seg == width / n,
            rem == width % n,
            w == width as nat,
            bar@ + segments_from(colors@, w, i as nat) == segments_from(colors@, w, 0),
        decreases n - i,
    {
        let col = colors[i];
        let len: usize = if i < rem {
            assert(seg < usize::MAX) by (nonlinear_arith)
                requires
                    seg == width / n,
                    rem == width % n,
                    i < rem,
                    n > 0,
            {
                assert(n >= 2);
            }
            seg + 1
        } else {
            seg
        };
        assert(len == segment_len(n as nat, w, i as int));
        let esc = ansi(col);
        let ghost before = bar@;
        append_str(&mut bar, esc.as_str());
        push_repeat(&mut bar, '━', len);
        assert(segments_from(colors@, w, i as nat) == fg_spec(col.0, col.1, col.2) + repeat('━', len as nat)
            + segments_from(colors@, w, (i + 1) as nat));
        assert(bar@ + segments_from(colors@, w, (i + 1) as nat) =~= before + segments_from(colors@, w, i as nat));
        i = i + 1;
    }
    assert(bar@ + seq![] =~= bar@);
    append_chars(&mut bar, &['\x1b', '[', '0', 'm']);
    bar
}

/// Columns taken by the segments from the `i`-th on.
pub open spec fn segments_total(n: nat, width: nat, i: nat) -> nat
    decreases n - i,
{
    if i >= n {
        0
    } else {
        segment_len(n, width, i as int) + segments_total(n, width, i + 1)
    }
}

proof fn lemma_segments_visible(colors: Seq<Rgb>, width: nat, i: nat)
    ensures
        visible_width(segments_from(colors, width, i)) == segments_total(colors.len(), width, i),
        !escape_open_after(segments_from(colors, width, i), false),
    decreases colors.len() - i,
{
    if i < colors.len() {
        let c = colors[i as int];
        let esc = fg_spec(c.0, c.1, c.2);
        let run = repeat('━', segment_len(colors.len(), width, i as int));
        let rest = segments_from(colors, width, i + 1);
        lemma_segments_visible(colors, width, i + 1);
        lemma_fg_invisible(c.0, c.1, c.2);
        lemma_visible_plain(run);
        lemma_visible_concat(esc, run, false);
        lemma_escape_concat(esc, run, false);
        lemma_visible_concat(esc + run, rest, false);
        lemma_escape_concat(esc + run, rest, false);
    }
}

proof fn lemma_segments_total(n: nat, width: nat, i: nat)
    requires
        n > 0,
        i <= n,
    ensures
        segments_total(n, width, i) == (n - i) * (width / n) + if i < width % n {
            (width % n - i) as nat
        } else {
            0nat
        },
    decreases n - i,
{
    if i < n {
        lemma_segments_total(n, width, i + 1);
        assert((n - i) * (width / n) == width / n + (n - (i + 1)) * (width / n)) by (nonlinear_arith);
    } else {
        assert(width % n < n);
        assert((n - i) * (width / n) == 0);
    }
}

/// The bar spans exactly `width` columns, whatever the colors.
pub proof fn lemma_bar_width(colors: Seq<Rgb>, width: nat)
    requires
        colors.len() > 0,
    ensures
        visible_width(bar_spec(colors, width)) == width,
{
    let n = colors.len();
    lemma_segments_visible(colors, width, 0);
    lemma_segments_total(n, width, 0);
    vstd::arithmetic::div_mod::lemma_fundamental_div_mod(width as int, n as int);
    assert(n * (width / n) == (width / n) * n) by (nonlinear_arith);
    lemma_reset_invisible();
    lemma_visible_concat(segments_from(colors, width, 0), reset_spec(), false);
}

/// A glyph placed on the character grid at a (row, column), in a color.
/// Positions outside the grid are allowed and are not drawn.
#[derive(Clone, Copy)]
pub struct Placement {
    pub row: isize,
    pub col: isize,
    pub glyph: char,
    pub color: Rgb,
}

/// What the grid shows at (`r`, `c`): the last placement that lands there.
pub open spec fn cell_at(ps: Seq<Placement>, r: int, c: int) -> Option<(char, Rgb)>
    decreases ps.len(),
{
    if ps.len() == 0 {
        None
    } else if ps.last().row == r && ps.last().col == c {
        Some((ps.last().glyph, ps.last().color))
    } else {
        cell_at(ps.drop_last(), r, c)
    }
}

/// Row `r` of the grid from column `col` on, where the text so far ends at
/// column `last`: each occupied cell is reached with spaces and drawn as
/// its color escape, its glyph and a reset; empty cells after the last
/// occupied one are not written.
pub open spec fn row_text(ps: Seq<Placement>, r: int, width: int, col: int, last: int) -> Seq<char>
    decreases width - col,
{
    if col >= width {
        seq![]
    } else {
        match cell_at(ps, r, col) {
            Some((g, color)) => repeat(' ', (col - last) as nat) + fg_spec(color.0, color.1, color.2)
                + seq![g] + reset_spec() + row_text(ps, r, width, col + 1, col + 1),
            None => row_text(ps, r, width, col + 1, last),
        }
    }
}

/// The glyph and color shown at (`r`, `c`).
fn cell_for(ps: &[Placement], r: usize, c: usize) -> (cell: Option<(char, Rgb)>)
    ensures
        cell == cell_at(ps@, r as int, c as int),
{
    let mut i = ps.len();
    assert(ps@.take(i as int) =~= ps@);
    while i > 0
        invariant
            i <= ps.len(),
            cell_at(ps@, r as int, c as int) == cell_at(ps@.take(i as int), r as int, c as int),
        decreases i,
    {
        let p = ps[i - 1];
        let ghost pre = ps@.take(i as int);
        assert(pre.last() == p);
        if p.row >= 0 && p.col >= 0 && p.row as usize == r && p.col as usize == c {
            return Some((p.glyph, p.color));
        }
        assert(pre.drop_last() =~= ps@.take(i - 1));
        i = i - 1;
    }
    None
}

/// Renders row `r` of a `width`-column grid.
fn render_row(ps: &[Placement], r: usize, width: usize) -> (s: String)
    ensures
        s@ == row_text(ps@, r as int, width as int, 0, 0),
{
    let mut s = String::new();
    let mut last: usize = 0;
    let mut col: usize = 0;
    assert(s@ + row_text(ps@, r as int, width as int, 0, 0) =~= row_text(ps@, r as int, width as int, 0, 0));
    while col < width
        invariant
            last <= col <= width,
            s@ + row_text(ps@, r as int, width as int, col as int, last as int) == row_text(
                ps@,
                r as int,
                width as int,
                0,
                0,
            ),
        decreases width - col,
    {
        let ghost before = s@;
        match cell_for(ps, r, col) {
            Some((glyph, color)) => {
                push_repeat(&mut s, ' ', col - last);
                let esc = ansi(color);
                append_str(&mut s, esc.as_str());
                push_char(&mut s, glyph);
                append_chars(&mut s, &['\x1b', '[', '0', 'm']);
                assert(s@ + row_text(ps@, r as int, width as int, col + 1, col + 1) =~= before
                    + row_text(ps@, r as int, width as int, col as int, last as int));
                last = col + 1;
            },
            None => {},
        }
        col = col + 1;
    }
    assert(s@ + seq![] =~= s@);
    s
}

/// Renders `rows` rows of a `width`-column grid holding the placements;
/// later placements cover earlier ones on the same cell.
pub fn render_placements(ps: &[Placement], rows: usize, width: usize) -> (lines: Vec<String>)
    ensures
        lines.len() == rows,
        forall|r: int| 0 <= r < rows ==> #[trigger] lines[r]@ == row_text(ps@, r, width as int, 0, 0),
{
    let mut lines: Vec<String> = Vec::new();
    let mut r: usize = 0;
    while r < rows
        invariant
            r <= rows,
            lines.len() == r,
            forall|k: int| 0 <= k < r ==> #[trigger] lines[k]@ == row_text(ps@, k, width as int, 0, 0),
        decreases rows - r,
    {
        let line = render_row(ps, r, width);
        lines.push(line);
        r = r + 1;
    }
    lines
}

} // verus!
