//! Truecolor escapes and the logo palette.

use vstd::prelude::*;
use crate::text::{
    append_chars, decimal, digit_char, escape_open_after, lemma_visible_concat, push_char,
    push_decimal, visible_from, visible_width,
};

verus! {

/// An RGB color.
pub type Rgb = (u8, u8, u8);

/// Design palette: cyan.
pub const CYAN: Rgb = (125, 211, 252);
/// Design palette: purple.
pub const PURPLE: Rgb = (196, 181, 253);
/// Design palette: teal.
pub const TEAL: Rgb = (94, 234, 212);
/// Design palette: green.
pub const GREEN: Rgb = (134, 239, 172);
/// Design palette: muted text.
pub const MUTED: Rgb = (133, 133, 173);
/// Design palette: bright text.
pub const BRIGHT: Rgb = (244, 244, 255);

/// The escape that resets all attributes: `ESC [ 0 m`.
pub open spec fn reset_spec() -> Seq<char> {
    seq!['\x1b', '[', '0', 'm']
}

/// The truecolor foreground escape `ESC [ 38 ; 2 ; r ; g ; b m`.
pub open spec fn fg_spec(r: u8, g: u8, b: u8) -> Seq<char> {
    seq!['\x1b', '[', '3', '8', ';', '2', ';'] + decimal(r as nat) + seq![';'] + decimal(g as nat)
        + seq![';'] + decimal(b as nat) + seq!['m']
}

/// ANSI truecolor foreground escape.
pub fn fg(r: u8, g: u8, b: u8) -> (s: String)
    ensures
        s@ == fg_spec(r, g, b),
{
    let mut s = String::new();
    append_chars(&mut s, &['\x1b', '[', '3', '8', ';', '2', ';']);
    push_decimal(&mut s, r as u64);
    push_char(&mut s, ';');
    push_decimal(&mut s, g as u64);
    push_char(&mut s, ';');
    push_decimal(&mut s, b as u64);
    push_char(&mut s, 'm');
    s
}

/// Shorthand: color to ANSI foreground escape.
pub fn ansi(col: Rgb) -> (s: String)
    ensures
        s@ == fg_spec(col.0, col.1, col.2),
{
    fg(col.0, col.1, col.2)
}

/// An ASCII digit neither ends nor starts an escape.
proof fn lemma_digit_plain(d: nat)
    requires
        d < 10,
    ensures
        digit_char(d) != 'm' && digit_char(d) != '\x1b',
{
    assert(digit_char(0) == '0');
    assert(digit_char(1) == '1');
    assert(digit_char(2) == '2');
    assert(digit_char(3) == '3');
    assert(digit_char(4) == '4');
    assert(digit_char(5) == '5');
    assert(digit_char(6) == '6');
    assert(digit_char(7) == '7');
    assert(digit_char(8) == '8');
    assert(digit_char(9) == '9');
}

/// No character of a decimal numeral ends or starts an escape.
proof fn lemma_decimal_plain(n: nat)
    ensures
        forall|i: int|
            0 <= i < decimal(n).len() ==> #[trigger] decimal(n)[i] != 'm' && decimal(n)[i] != '\x1b',
    decreases n,
{
    lemma_digit_plain(n % 10);
    if n >= 10 {
        lemma_decimal_plain(n / 10);
        let d = decimal(n);
        let p = decimal(n / 10);
        assert(d == p.push(digit_char(n % 10)));
        assert forall|i: int| 0 <= i < d.len() implies #[trigger] d[i] != 'm' && d[i] != '\x1b' by {
            if i < p.len() {
                assert(d[i] == p[i]);
            }
        }
    } else {
        assert(decimal(n) == seq![digit_char(n)]);
    }
}

/// Inside an open escape, text without `m` stays invisible and keeps it open.
proof fn lemma_escape_body(body: Seq<char>)
    requires
        forall|i: int| 0 <= i < body.len() ==> body[i] != 'm',
    ensures
        visible_from(body, true) == 0,
        escape_open_after(body, true),
    decreases body.len(),
{
    if body.len() > 0 {
        lemma_escape_body(body.drop_first());
    }
}

/// An escape `ESC body m` whose body holds no `m` shows nothing and closes.
proof fn lemma_escape_invisible(s: Seq<char>)
    requires
        s.len() >= 2,
        s[0] == '\x1b',
        s.last() == 'm',
        forall|i: int| 1 <= i < s.len() - 1 ==> s[i] != 'm',
    ensures
        visible_width(s) == 0,
        !escape_open_after(s, false),
{
    let body = s.subrange(1, s.len() - 1);
    assert(s.drop_first() =~= body + seq!['m']);
    lemma_escape_body(body);
    lemma_visible_concat(body, seq!['m'], true);
    crate::text::lemma_escape_concat(body, seq!['m'], true);
    let m = seq!['m'];
    assert(m.drop_first() =~= Seq::<char>::empty());
    assert(visible_from(m.drop_first(), false) == 0);
    assert(visible_from(m, true) == 0);
    assert(!escape_open_after(m.drop_first(), false));
    assert(!escape_open_after(m, true));
    assert(visible_from(s, false) == visible_from(s.drop_first(), true));
    assert(escape_open_after(s, false) == escape_open_after(s.drop_first(), true));
}

/// The foreground escape occupies no column and leaves no escape open.
pub proof fn lemma_fg_invisible(r: u8, g: u8, b: u8)
    ensures
        visible_width(fg_spec(r, g, b)) == 0,
        !escape_open_after(fg_spec(r, g, b), false),
{
    lemma_decimal_plain(r as nat);
    lemma_decimal_plain(g as nat);
    lemma_decimal_plain(b as nat);
    let s = fg_spec(r, g, b);
    assert forall|i: int| 1 <= i < s.len() - 1 implies s[i] != 'm' by {
        let p = seq!['\x1b', '[', '3', '8', ';', '2', ';'];
        let dr = decimal(r as nat);
        let dg = decimal(g as nat);
        let db = decimal(b as nat);
        if i < 7 {
        } else if i < 7 + dr.len() {
            assert(s[i] == dr[i - 7]);
        } else if i == 7 + dr.len() {
        } else if i < 8 + dr.len() + dg.len() {
            assert(s[i] == dg[i - 8 - dr.len()]);
        } else if i == 8 + dr.len() + dg.len() {
        } else {
            assert(s[i] == db[i - 9 - dr.len() - dg.len()]);
        }
    }
    lemma_escape_invisible(s);
}

/// The reset escape occupies no column and leaves no escape open.
pub proof fn lemma_reset_invisible()
    ensures
        visible_width(reset_spec()) == 0,
        !escape_open_after(reset_spec(), false),
{
    lemma_escape_invisible(reset_spec());
}

} // verus!
