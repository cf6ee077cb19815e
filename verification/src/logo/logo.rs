//! The diamond logo: its static rendering, the layout of one spin frame and
//! the frames of the unfold transition.
//!
//! The spin and unfold animations sample trigonometric and easing curves;
//! those samples arrive here as plain numbers (the half-width of each row,
//! the faded colors, the grid position of each piece) and everything drawn
//! from them is laid out by the functions below.

use vstd::prelude::*;
use crate::logo::color::{BRIGHT, CYAN, GREEN, MUTED, PURPLE, Rgb, TEAL, ansi, fg_spec, reset_spec};
use crate::logo::frame::{
    Frame, Placement, bar_spec, colored_bar, pad_to, render_placements, row_text,
};
use crate::text::{Align, append_chars, append_str, padded, push_char, push_repeat, repeat, string_of};

verus! {

/// Number of rows the diamond occupies.
pub const ROWS: usize = 5;

/// Center column of the diamond.
pub const CENTER: usize = 4;

/// Column where the "domain-probe" text is anchored.
pub const TEXT_COL: usize = 11;

/// The palette after fading toward the background for one spin angle.
#[derive(Clone, Copy)]
pub struct FadedPalette {
    pub cyan: Rgb,
    pub purple: Rgb,
    pub teal: Rgb,
    pub green: Rgb,
}

/// What one spin angle makes of the diamond: the half-width of each row
/// (the full widths 1, 2, 3, 2, 1 scaled by the angle's cosine), whether
/// the back face shows, and the faded palette.
#[derive(Clone, Copy)]
pub struct SpinShape {
    pub half_widths: [usize; 5],
    pub is_back: bool,
    pub faded: FadedPalette,
}

/// Widest half-width of each row (the front face).
pub open spec fn full_half_width(row: int) -> nat {
    if row == 2 {
        3
    } else if row == 1 || row == 3 {
        2
    } else {
        1
    }
}

impl SpinShape {
    /// Scaling never widens a row past the front face.
    pub open spec fn wf(&self) -> bool {
        forall|i: int| 0 <= i < 5 ==> #[trigger] self.half_widths@[i] <= full_half_width(i)
    }

    pub open spec fn hw(&self, i: int) -> nat {
        self.half_widths@[i] as nat
    }

    /// Colors of the top, equator left, equator middle, equator right and
    /// bottom strokes; the back face shows them mirrored.
    pub open spec fn top(&self) -> Rgb {
        if self.is_back { self.faded.green } else { self.faded.cyan }
    }

    pub open spec fn eq_left(&self) -> Rgb {
        if self.is_back { self.faded.green } else { self.faded.purple }
    }

    pub open spec fn eq_mid(&self) -> Rgb {
        self.faded.teal
    }

    pub open spec fn eq_right(&self) -> Rgb {
        if self.is_back { self.faded.purple } else { self.faded.green }
    }

    pub open spec fn bottom(&self) -> Rgb {
        if self.is_back { self.faded.cyan } else { self.faded.green }
    }
}

/// `indent` spaces, a color escape, `body`, a reset.
pub open spec fn stroke(indent: nat, c: Rgb, body: Seq<char>) -> Seq<char> {
    repeat(' ', indent) + fg_spec(c.0, c.1, c.2) + body + reset_spec()
}

/// Indentation of a row of half-width `h`.
pub open spec fn indent(h: nat) -> nat {
    if h >= CENTER { 0 } else { (CENTER - h) as nat }
}

/// The equator line: the diamond part padded to the text column, then the
/// name in muted and bright text.
pub open spec fn with_name(diamond: Seq<char>) -> Seq<char> {
    padded(diamond, TEXT_COL as nat, Align::Left) + seq![' '] + fg_spec(MUTED.0, MUTED.1, MUTED.2)
        + seq!['d', 'o', 'm', 'a', 'i', 'n'] + fg_spec(BRIGHT.0, BRIGHT.1, BRIGHT.2) + seq![
        '-',
        'p',
        'r',
        'o',
        'b',
        'e',
    ] + reset_spec()
}

/// Whether every row has collapsed to nothing (the diamond is seen edge-on).
pub open spec fn edge_on(s: SpinShape) -> bool {
    forall|i: int| 0 <= i < 5 ==> #[trigger] s.half_widths@[i] == 0
}

/// The edge-on frame: a vertical line with a dot at the equator.
pub open spec fn edge_line(s: SpinShape, row: int) -> Seq<char> {
    let c = if s.is_back { s.faded.teal } else { s.faded.cyan };
    if row == 0 || row == 4 {
        stroke(CENTER as nat, c, seq!['│'])
    } else if row == 1 || row == 3 {
        stroke(CENTER as nat, c, seq!['┃'])
    } else {
        with_name(stroke(CENTER as nat, c, seq!['◆']))
    }
}

/// The diamond part of the equator row: a dot when collapsed, else two
/// points joined by a bar of the middle color.
pub open spec fn equator_part(s: SpinShape) -> Seq<char> {
    let h = s.hw(2);
    let l = s.eq_left();
    let m = s.eq_mid();
    let r = s.eq_right();
    if h == 0 {
        stroke(CENTER as nat, l, seq!['◆'])
    } else if h == 1 {
        stroke(indent(h), l, seq!['◇'] + fg_spec(r.0, r.1, r.2) + seq!['◇'])
    } else {
        stroke(
            indent(h),
            l,
            seq!['◇'] + fg_spec(m.0, m.1, m.2) + repeat('━', (2 * h - 2) as nat) + fg_spec(r.0, r.1, r.2)
                + seq!['◇'],
        )
    }
}

/// One row of a spin frame that is not edge-on.
pub open spec fn body_line(s: SpinShape, row: int) -> Seq<char> {
    let h = s.hw(row);
    let top_point = if s.is_back { '▾' } else { '▴' };
    let bot_point = if s.is_back { '▴' } else { '▾' };
    if row == 0 {
        if h >= 1 {
            stroke(indent(h), s.top(), seq!['╱', '╲'])
        } else {
            stroke(CENTER as nat, s.top(), seq![top_point])
        }
    } else if row == 1 {
        if h == 0 {
            stroke(CENTER as nat, s.top(), seq!['│'])
        } else if h == 1 {
            stroke(indent(h), s.top(), seq!['╱', '╲'])
        } else {
            stroke(indent(h), s.top(), seq!['╱'] + repeat(' ', (2 * h - 2) as nat) + seq!['╲'])
        }
    } else if row == 2 {
        with_name(equator_part(s))
    } else if row == 3 {
        if h == 0 {
            stroke(CENTER as nat, s.bottom(), seq![bot_point])
        } else if h == 1 {
            stroke(indent(h), s.bottom(), seq!['╲', '╱'])
        } else {
            stroke(indent(h), s.bottom(), seq!['╲'] + repeat(' ', (2 * h - 2) as nat) + seq!['╱'])
        }
    } else {
        if h >= 1 && s.hw(3) > 1 {
            stroke(indent(h), s.bottom(), seq!['╲', '╱'])
        } else {
            stroke(CENTER as nat, s.bottom(), seq![bot_point])
        }
    }
}

/// Row `row` of the spin frame for shape `s`.
pub open spec fn spin_line(s: SpinShape, row: int) -> Seq<char> {
    if edge_on(s) {
        edge_line(s, row)
    } else {
        body_line(s, row)
    }
}

/// `indent` spaces followed by the escape for `c`.
fn start_stroke(indent: usize, c: Rgb) -> (s: String)
    ensures
        s@ == repeat(' ', indent as nat) + fg_spec(c.0, c.1, c.2),
{
    let mut s = String::new();
    push_repeat(&mut s, ' ', indent);
    let esc = ansi(c);
    append_str(&mut s, esc.as_str());
    s
}

/// Appends the reset escape.
fn end_stroke(s: &mut String)
    ensures
        final(s)@ == old(s)@ + reset_spec(),
{
    append_chars(s, &['\x1b', '[', '0', 'm']);
}

/// `indent` spaces, the escape for `c`, the glyphs, a reset.
fn stroke_line(indent: usize, c: Rgb, glyphs: &[char]) -> (s: String)
    ensures
        s@ == stroke(indent as nat, c, glyphs@),
{
    let mut s = start_stroke(indent, c);
    append_chars(&mut s, glyphs);
    end_stroke(&mut s);
    s
}

/// A stroke `open`, `inner` spaces, `close`.
fn hollow_line(indent: usize, c: Rgb, open: char, inner: usize, close: char) -> (s: String)
    ensures
        s@ == stroke(indent as nat, c, seq![open] + repeat(' ', inner as nat) + seq![close]),
{
    let mut s = start_stroke(indent, c);
    push_char(&mut s, open);
    push_repeat(&mut s, ' ', inner);
    push_char(&mut s, close);
    end_stroke(&mut s);
    assert(s@ =~= stroke(indent as nat, c, seq![open] + repeat(' ', inner as nat) + seq![close]));
    s
}

/// Appends the logo name after the diamond part of the equator row.
fn name_line(diamond: &str) -> (s: String)
    ensures
        s@ == with_name(diamond@),
{
    let mut s = pad_to(diamond, TEXT_COL);
    push_char(&mut s, ' ');
    let muted = ansi(MUTED);
    append_str(&mut s, muted.as_str());
    append_chars(&mut s, &['d', 'o', 'm', 'a', 'i', 'n']);
    let bright = ansi(BRIGHT);
    append_str(&mut s, bright.as_str());
    append_chars(&mut s, &['-', 'p', 'r', 'o', 'b', 'e']);
    end_stroke(&mut s);
    assert(s@ =~= with_name(diamond@));
    s
}

/// Indentation of a row of half-width `h`.
fn indent_of(h: usize) -> (n: usize)
    ensures
        n == indent(h as nat),
{
    if h >= CENTER { 0 } else { CENTER - h }
}

/// Row 0 of a frame that is not edge-on: the top apex.
fn top_row(shape: SpinShape) -> (s: String)
    requires
        shape.wf(),
        !edge_on(shape),
    ensures
        s@ == body_line(shape, 0),
{
    let f = shape.faded;
    let top = if shape.is_back { f.green } else { f.cyan };
    let top_point = if shape.is_back { '▾' } else { '▴' };
    let h = shape.half_widths[0];
    if h >= 1 {
        stroke_line(indent_of(h), top, &['╱', '╲'])
    } else {
        stroke_line(CENTER, top, &[top_point])
    }
}

/// Row 1 of a frame that is not edge-on: the upper body.
fn upper_row(shape: SpinShape) -> (s: String)
    requires
        shape.wf(),
        !edge_on(shape),
    ensures
        s@ == body_line(shape, 1),
{
    let f = shape.faded;
    let top = if shape.is_back { f.green } else { f.cyan };
    let h = shape.half_widths[1];
    assert(h <= full_half_width(1));
    if h == 0 {
        stroke_line(CENTER, top, &['│'])
    } else if h == 1 {
        stroke_line(indent_of(h), top, &['╱', '╲'])
    } else {
        hollow_line(indent_of(h), top, '╱', 2 * h - 2, '╲')
    }
}

/// `indent` spaces, the escape for `c`, `body`, a reset.
fn stroke_around(indent: usize, c: Rgb, body: &str) -> (s: String)
    ensures
        s@ == stroke(indent as nat, c, body@),
{
    let mut s = start_stroke(indent, c);
    append_str(&mut s, body);
    end_stroke(&mut s);
    s
}

/// `◇`, the escape for `r`, `◇`.
fn open_points(r: Rgb) -> (b: String)
    ensures
        b@ == seq!['◇'] + fg_spec(r.0, r.1, r.2) + seq!['◇'],
{
    let mut b = String::new();
    push_char(&mut b, '◇');
    let e = ansi(r);
    append_str(&mut b, e.as_str());
    push_char(&mut b, '◇');
    b
}

/// `◇`, a bar of `len` in color `m`, `◇` in color `r`.
fn barred_points(m: Rgb, len: usize, r: Rgb) -> (b: String)
    ensures
        b@ == seq!['◇'] + fg_spec(m.0, m.1, m.2) + repeat('━', len as nat) + fg_spec(r.0, r.1, r.2)
            + seq!['◇'],
{
    let mut b = String::new();
    push_char(&mut b, '◇');
    let em = ansi(m);
    append_str(&mut b, em.as_str());
    push_repeat(&mut b, '━', len);
    let er = ansi(r);
    append_str(&mut b, er.as_str());
    push_char(&mut b, '◇');
    b
}

/// The diamond part of the equator row.
fn equator_diamond(shape: SpinShape) -> (s: String)
    requires
        shape.wf(),
    ensures
        s@ == equator_part(shape),
{
    let f = shape.faded;
    let back = shape.is_back;
    let eq_l = if back { f.green } else { f.purple };
    let eq_m = f.teal;
    let eq_r = if back { f.purple } else { f.green };
    let h = shape.half_widths[2];
    assert(h <= full_half_width(2));
    if h == 0 {
        let s = stroke_line(CENTER, eq_l, &['◆']);
        assert(s@ =~= stroke(CENTER as nat, eq_l, seq!['◆']));
        s
    } else if h == 1 {
        let b = open_points(eq_r);
        stroke_around(indent_of(h), eq_l, b.as_str())
    } else {
        let b = barred_points(eq_m, 2 * h - 2, eq_r);
        stroke_around(indent_of(h), eq_l, b.as_str())
    }
}

/// Row 2 of a frame that is not edge-on: the equator and the name.
fn equator_row(shape: SpinShape) -> (s: String)
    requires
        shape.wf(),
        !edge_on(shape),
    ensures
        s@ == body_line(shape, 2),
{
    let diamond = equator_diamond(shape);
    name_line(diamond.as_str())
}

/// Row 3 of a frame that is not edge-on: the lower body.
fn lower_row(shape: SpinShape) -> (s: String)
    requires
        shape.wf(),
        !edge_on(shape),
    ensures
        s@ == body_line(shape, 3),
{
    let f = shape.faded;
    let bot = if shape.is_back { f.cyan } else { f.green };
    let bot_point = if shape.is_back { '▴' } else { '▾' };
    let h = shape.half_widths[3];
    assert(h <= full_half_width(3));
    if h == 0 {
        stroke_line(CENTER, bot, &[bot_point])
    } else if h == 1 {
        stroke_line(indent_of(h), bot, &['╲', '╱'])
    } else {
        hollow_line(indent_of(h), bot, '╲', 2 * h - 2, '╱')
    }
}

/// Row 4 of a frame that is not edge-on: the bottom apex, drawn open only
/// under a lower body wider than one column.
fn bottom_row(shape: SpinShape) -> (s: String)
    requires
        shape.wf(),
        !edge_on(shape),
    ensures
        s@ == body_line(shape, 4),
{
    let f = shape.faded;
    let bot = if shape.is_back { f.cyan } else { f.green };
    let bot_point = if shape.is_back { '▴' } else { '▾' };
    let h = shape.half_widths[4];
    if h >= 1 && shape.half_widths[3] > 1 {
        stroke_line(indent_of(h), bot, &['╲', '╱'])
    } else {
        stroke_line(CENTER, bot, &[bot_point])
    }
}

/// The edge-on frame.
fn edge_frame(shape: SpinShape) -> (frame: Frame<ROWS>)
    requires
        edge_on(shape),
    ensures
        forall|row: int| 0 <= row < 5 ==> #[trigger] frame.lines@[row]@ == spin_line(shape, row),
{
    let f = shape.faded;
    let c = if shape.is_back { f.teal } else { f.cyan };
    let l0 = stroke_line(CENTER, c, &['│']);
    let l1 = stroke_line(CENTER, c, &['┃']);
    let dot = stroke_line(CENTER, c, &['◆']);
    assert(dot@ =~= stroke(CENTER as nat, c, seq!['◆']));
    let l2 = name_line(dot.as_str());
    let l3 = stroke_line(CENTER, c, &['┃']);
    let l4 = stroke_line(CENTER, c, &['│']);
    let frame = Frame { lines: [l0, l1, l2, l3, l4] };
    assert(frame.lines@[0]@ == spin_line(shape, 0));
    assert(frame.lines@[1]@ == spin_line(shape, 1));
    assert(frame.lines@[2]@ == spin_line(shape, 2));
    assert(frame.lines@[3]@ == spin_line(shape, 3));
    assert(frame.lines@[4]@ == spin_line(shape, 4));
    frame
}

/// Lays out one spin frame for a sampled shape.
///
/// An edge-on diamond is a vertical line with a dot at the equator;
/// otherwise each row is drawn at its half-width, with points where a row
/// has collapsed, and the back face shows mirrored colors and points.
pub fn spin_frame(shape: SpinShape) -> (frame: Frame<ROWS>)
    requires
        shape.wf(),
    ensures
        forall|row: int| 0 <= row < 5 ==> #[trigger] frame.lines@[row]@ == spin_line(shape, row),
{
    let hw = shape.half_widths;
    if hw[0] == 0 && hw[1] == 0 && hw[2] == 0 && hw[3] == 0 && hw[4] == 0 {
        assert(edge_on(shape));
        return edge_frame(shape);
    }
    assert(!edge_on(shape));
    let frame = Frame {
        lines: [
            top_row(shape),
            upper_row(shape),
            equator_row(shape),
            lower_row(shape),
            bottom_row(shape),
        ],
    };
    assert(frame.lines@[0]@ == spin_line(shape, 0));
    assert(frame.lines@[1]@ == spin_line(shape, 1));
    assert(frame.lines@[2]@ == spin_line(shape, 2));
    assert(frame.lines@[3]@ == spin_line(shape, 3));
    assert(frame.lines@[4]@ == spin_line(shape, 4));
    frame
}

/// The front face: every row at full width, undimmed colors.
pub open spec fn front_shape_spec() -> SpinShape {
    SpinShape {
        half_widths: [1, 2, 3, 2, 1],
        is_back: false,
        faded: FadedPalette { cyan: CYAN, purple: PURPLE, teal: TEAL, green: GREEN },
    }
}

/// The shape at rotation angle zero: the front face at full width and
/// full color.
pub fn front_shape() -> (s: SpinShape)
    ensures
        s == front_shape_spec(),
        s.wf(),
{
    let s = SpinShape {
        half_widths: [1, 2, 3, 2, 1],
        is_back: false,
        faded: FadedPalette { cyan: CYAN, purple: PURPLE, teal: TEAL, green: GREEN },
    };
    assert(s.wf()) by {
        assert(s.half_widths@[0] == 1);
        assert(s.half_widths@[1] == 2);
        assert(s.half_widths@[2] == 3);
        assert(s.half_widths@[3] == 2);
        assert(s.half_widths@[4] == 1);
    }
    s
}

/// The logo as plain ASCII (pipe-safe, no color).
pub open spec fn ascii_spec() -> Seq<Seq<char>> {
    seq![
        seq![' ', ' ', '/', '\\'],
        seq![' ', '/', ' ', ' ', '\\'],
        seq!['<', ' ', ' ', ' ', ' ', '>', ' ', 'd', 'o', 'm', 'a', 'i', 'n', '-', 'p', 'r', 'o', 'b', 'e'],
        seq![' ', '\\', ' ', ' ', '/'],
        seq![' ', ' ', '\\', '/'],
    ]
}

/// The lines of the plain ASCII logo.
pub fn ascii_lines() -> (lines: Vec<String>)
    ensures
        lines.len() == 5,
        forall|i: int| 0 <= i < 5 ==> #[trigger] lines[i]@ == ascii_spec()[i],
{
    let mut lines: Vec<String> = Vec::new();
    lines.push(string_of(&[' ', ' ', '/', '\\']));
    lines.push(string_of(&[' ', '/', ' ', ' ', '\\']));
    lines.push(
        string_of(
            &['<', ' ', ' ', ' ', ' ', '>', ' ', 'd', 'o', 'm', 'a', 'i', 'n', '-', 'p', 'r', 'o', 'b', 'e'],
        ),
    );
    lines.push(string_of(&[' ', '\\', ' ', ' ', '/']));
    lines.push(string_of(&[' ', ' ', '\\', '/']));
    assert(lines[0]@ =~= ascii_spec()[0]);
    assert(lines[1]@ =~= ascii_spec()[1]);
    assert(lines[2]@ =~= ascii_spec()[2]);
    assert(lines[3]@ =~= ascii_spec()[3]);
    assert(lines[4]@ =~= ascii_spec()[4]);
    lines
}

/// The lines the logo prints: the truecolor front face where the terminal
/// supports 24-bit color, the plain ASCII logo otherwise.
pub fn print(supports_truecolor: bool) -> (lines: Vec<String>)
    ensures
        lines.len() == 5,
        forall|i: int|
            0 <= i < 5 ==> #[trigger] lines[i]@ == if supports_truecolor {
                spin_line(front_shape_spec(), i)
            } else {
                ascii_spec()[i]
            },
{
    if supports_truecolor {
        let frame = spin_frame(front_shape());
        let mut lines: Vec<String> = Vec::new();
        let mut i: usize = 0;
        while i < ROWS
            invariant
                i <= 5,
                lines.len() == i,
                forall|k: int| 0 <= k < 5 ==> #[trigger] frame.lines@[k]@ == spin_line(front_shape_spec(), k),
                forall|k: int| 0 <= k < i ==> #[trigger] lines[k]@ == frame.lines@[k]@,
            decreases 5 - i,
        {
            let line = frame.lines[i].clone();
            lines.push(line);
            i = i + 1;
        }
        lines
    } else {
        ascii_lines()
    }
}

/// Lays out one spin frame per sampled shape, in order.
pub fn spin_frames(shapes: &[SpinShape]) -> (frames: Vec<Frame<ROWS>>)
    requires
        forall|i: int| 0 <= i < shapes.len() ==> #[trigger] shapes[i].wf(),
    ensures
        frames.len() == shapes.len(),
        forall|i: int, row: int|
            0 <= i < shapes.len() && 0 <= row < 5 ==> #[trigger] frames[i].lines@[row]@ == spin_line(
                shapes[i],
                row,
            ),
{
    let mut frames: Vec<Frame<ROWS>> = Vec::new();
    let mut i: usize = 0;
    while i < shapes.len()
        invariant
            i <= shapes.len(),
            frames.len() == i,
            forall|k: int| 0 <= k < shapes.len() ==> #[trigger] shapes[k].wf(),
            forall|k: int, row: int|
                0 <= k < i && 0 <= row < 5 ==> #[trigger] frames[k].lines@[row]@ == spin_line(shapes[k], row),
        decreases shapes.len() - i,
    {
        let frame = spin_frame(shapes[i]);
        frames.push(frame);
        i = i + 1;
    }
    frames
}

/// The colors of the separator bar the unfold ends in.
pub open spec fn unfold_colors_spec() -> Seq<Rgb> {
    seq![PURPLE, CYAN, TEAL, GREEN, TEAL]
}

/// Packs five lines into a frame.
fn frame_of(lines: Vec<String>) -> (frame: Frame<ROWS>)
    requires
        lines.len() == 5,
    ensures
        forall|row: int| 0 <= row < 5 ==> #[trigger] frame.lines@[row]@ == lines[row]@,
{
    let ghost v = lines@;
    let mut lines = lines;
    let l4 = lines.pop().unwrap();
    let l3 = lines.pop().unwrap();
    let l2 = lines.pop().unwrap();
    let l1 = lines.pop().unwrap();
    let l0 = lines.pop().unwrap();
    let frame = Frame { lines: [l0, l1, l2, l3, l4] };
    assert(frame.lines@[0] == v[0]);
    assert(frame.lines@[1] == v[1]);
    assert(frame.lines@[2] == v[2]);
    assert(frame.lines@[3] == v[3]);
    assert(frame.lines@[4] == v[4]);
    frame
}

/// The frame the unfold ends on: the separator bar across the terminal on
/// the equator row, nothing elsewhere.
pub fn final_unfold_frame(term_width: usize) -> (frame: Frame<ROWS>)
    ensures
        frame.lines@[2]@ == bar_spec(unfold_colors_spec(), term_width as nat),
        forall|row: int| 0 <= row < 5 && row != 2 ==> #[trigger] frame.lines@[row]@ == Seq::<char>::empty(),
{
    let colors: [Rgb; 5] = [PURPLE, CYAN, TEAL, GREEN, TEAL];
    assert(colors@ =~= unfold_colors_spec());
    let bar = colored_bar(&colors, term_width);
    let frame = Frame { lines: [String::new(), String::new(), bar, String::new(), String::new()] };
    assert(frame.lines@[0]@ == Seq::<char>::empty());
    assert(frame.lines@[1]@ == Seq::<char>::empty());
    assert(frame.lines@[3]@ == Seq::<char>::empty());
    assert(frame.lines@[4]@ == Seq::<char>::empty());
    frame
}

/// The unfold frames: one per sampled set of piece placements, drawn on a
/// `term_width`-column grid, then the final separator bar.
pub fn unfold_frames(samples: &[Vec<Placement>], term_width: usize) -> (frames: Vec<Frame<ROWS>>)
    ensures
        frames.len() == samples.len() + 1,
        forall|i: int, row: int|
            0 <= i < samples.len() && 0 <= row < 5 ==> #[trigger] frames[i].lines@[row]@ == row_text(
                samples[i]@,
                row,
                term_width as int,
                0,
                0,
            ),
        frames[samples.len() as int].lines@[2]@ == bar_spec(unfold_colors_spec(), term_width as nat),
        forall|row: int|
            0 <= row < 5 && row != 2 ==> #[trigger] frames[samples.len() as int].lines@[row]@
                == Seq::<char>::empty(),
{
    let mut frames: Vec<Frame<ROWS>> = Vec::new();
    let mut i: usize = 0;
    while i < samples.len()
        invariant
            i <= samples.len(),
            frames.len() == i,
            forall|k: int, row: int|
                0 <= k < i && 0 <= row < 5 ==> #[trigger] frames[k].lines@[row]@ == row_text(
                    samples[k]@,
                    row,
                    term_width as int,
                    0,
                    0,
                ),
        decreases samples.len() - i,
    {
        let lines = render_placements(samples[i].as_slice(), ROWS, term_width);
        let frame = frame_of(lines);
        frames.push(frame);
        i = i + 1;
    }
    frames.push(final_unfold_frame(term_width));
    frames
}

} // verus!
