//! Terminal styling: the configurable palette, colored text, badges, score
//! bars and section headers.

use owo_colors::OwoColorize;
use vstd::prelude::*;
use crate::config::{ColorConfig, default_palette, hex_color, lemma_default_colors_parse, parse_hex_color};
use crate::logo::color::{Rgb, fg_spec};
use crate::text::{append_str, decimal, push_char, push_decimal, push_repeat, repeat, byte_len, fits_in_bytes, chars_of};

verus! {

/// `ESC [ 39 m`: back to the default foreground.
pub open spec fn fg_off() -> Seq<char> {
    seq!['\x1b', '[', '3', '9', 'm']
}

/// `ESC [ 1 m`: bold on.
pub open spec fn bold_on() -> Seq<char> {
    seq!['\x1b', '[', '1', 'm']
}

/// `ESC [ 0 m`: all attributes off.
pub open spec fn attrs_off() -> Seq<char> {
    seq!['\x1b', '[', '0', 'm']
}

/// `text` in the truecolor foreground `c`, optionally bold.
pub open spec fn colored(text: Seq<char>, c: Rgb, bold: bool) -> Seq<char> {
    if bold {
        fg_spec(c.0, c.1, c.2) + bold_on() + text + attrs_off() + fg_off()
    } else {
        fg_spec(c.0, c.1, c.2) + text + fg_off()
    }
}

/// Foreground truecolor with `owo_colors`: `text.truecolor(r, g, b)` displayed.
#[verifier::external_body]
fn owo_truecolor(text: &str, r: u8, g: u8, b: u8) -> (out: String)
    ensures
        out@ == colored(text@, (r, g, b), false),
{
    text.truecolor(r, g, b).to_string()
}

/// Bold foreground truecolor with `owo_colors`: `text.bold().truecolor(r, g, b)` displayed.
#[verifier::external_body]
fn owo_bold_truecolor(text: &str, r: u8, g: u8, b: u8) -> (out: String)
    ensures
        out@ == colored(text@, (r, g, b), true),
{
    text.bold().truecolor(r, g, b).to_string()
}

/// Palette slots.
pub const GREEN: usize = 0;
pub const CYAN: usize = 1;
pub const YELLOW: usize = 2;
pub const RED: usize = 3;
pub const PURPLE: usize = 4;
pub const ORANGE: usize = 5;
pub const PINK: usize = 6;
pub const TEAL: usize = 7;
pub const FG: usize = 8;
pub const MUTED: usize = 9;
pub const DIM: usize = 10;
pub const BRIGHT: usize = 11;

/// The rendering settings: whether color is used, whether output goes to a
/// terminal, and the twelve palette colors.
pub struct Style {
    pub use_color: bool,
    pub is_tty: bool,
    pub palette: [Rgb; 12],
}

/// The built-in palette.
pub fn default_palette_values() -> (p: [Rgb; 12])
    ensures
        p@ == default_palette(),
{
    let p = [
        (134, 239, 172),
        (125, 211, 252),
        (253, 230, 138),
        (252, 165, 165),
        (196, 181, 253),
        (253, 186, 116),
        (249, 168, 212),
        (94, 234, 212),
        (200, 200, 224),
        (107, 107, 141),
        (68, 68, 102),
        (238, 238, 245),
    ];
    assert(p@ =~= default_palette());
    p
}

/// The palette entry a configured color gives: the parsed color, or the
/// default for that slot when the text does not parse.
pub open spec fn palette_entry(text: Seq<char>, slot: int) -> Rgb {
    match hex_color(text) {
        Some(c) => c,
        None => default_palette()[slot],
    }
}

fn parse_or(hex: &String, fallback: &String, Ghost(slot): Ghost<int>) -> (c: Rgb)
    requires
        0 <= slot < 12,
        fallback@ == ColorConfig::default_entries()[slot],
    ensures
        c == palette_entry(hex@, slot),
{
    proof {
        lemma_default_colors_parse();
    }
    match parse_hex_color(hex.as_str()) {
        Some(c) => c,
        None => match parse_hex_color(fallback.as_str()) {
            Some(c) => c,
            None => (0, 0, 0),
        },
    }
}

/// Builds the palette from configured colors; an entry that does not parse
/// falls back to the default for its slot.
pub fn init_colors(config: &ColorConfig) -> (p: [Rgb; 12])
    ensures
        forall|i: int| 0 <= i < 12 ==> #[trigger] p@[i] == palette_entry(config.entries()[i], i),
{
    let d = ColorConfig::default();
    let p = [
        parse_or(&config.green, &d.green, Ghost(0)),
        parse_or(&config.cyan, &d.cyan, Ghost(1)),
        parse_or(&config.yellow, &d.yellow, Ghost(2)),
        parse_or(&config.red, &d.red, Ghost(3)),
        parse_or(&config.purple, &d.purple, Ghost(4)),
        parse_or(&config.orange, &d.orange, Ghost(5)),
        parse_or(&config.pink, &d.pink, Ghost(6)),
        parse_or(&config.teal, &d.teal, Ghost(7)),
        parse_or(&config.fg, &d.fg, Ghost(8)),
        parse_or(&config.muted, &d.muted, Ghost(9)),
        parse_or(&config.dim, &d.dim, Ghost(10)),
        parse_or(&config.bright, &d.bright, Ghost(11)),
    ];
    p
}

impl Style {
    /// `text` styled with palette slot `slot` when color is on, plain otherwise.
    pub open spec fn painted(&self, text: Seq<char>, slot: int, bold: bool) -> Seq<char> {
        if self.use_color {
            colored(text, self.palette@[slot], bold)
        } else {
            text
        }
    }

    /// The color in palette slot `index`.
    pub fn pal(&self, index: usize) -> (c: Rgb)
        requires
            index < 12,
        ensures
            c == self.palette@[index as int],
    {
        self.palette[index]
    }

    fn paint(&self, value: &str, slot: usize, bold: bool) -> (s: String)
        requires
            slot < 12,
        ensures
            s@ == self.painted(value@, slot as int, bold),
    {
        if self.use_color {
            let c = self.pal(slot);
            if bold {
                owo_bold_truecolor(value, c.0, c.1, c.2)
            } else {
                owo_truecolor(value, c.0, c.1, c.2)
            }
        } else {
            let mut s = String::new();
            append_str(&mut s, value);
            s
        }
    }

    pub fn c_green(&self, value: &str) -> (s: String)
        ensures
            s@ == self.painted(value@, GREEN as int, false),
    {
        self.paint(value, GREEN, false)
    }

    pub fn c_cyan(&self, value: &str) -> (s: String)
        ensures
            s@ == self.painted(value@, CYAN as int, false),
    {
        self.paint(value, CYAN, false)
    }

    pub fn c_yellow(&self, value: &str) -> (s: String)
        ensures
            s@ == self.painted(value@, YELLOW as int, false),
    {
        self.paint(value, YELLOW, false)
    }

    pub fn c_red(&self, value: &str) -> (s: String)
        ensures
            s@ == self.painted(value@, RED as int, false),
    {
        self.paint(value, RED, false)
    }

    pub fn c_purple(&self, value: &str) -> (s: String)
        ensures
            s@ == self.painted(value@, PURPLE as int, false),
    {
        self.paint(value, PURPLE, false)
    }

    pub fn c_orange(&self, value: &str) -> (s: String)
        ensures
            s@ == self.painted(value@, ORANGE as int, false),
    {
        self.paint(value, ORANGE, false)
    }

    pub fn c_pink(&self, value: &str) -> (s: String)
        ensures
            s@ == self.painted(value@, PINK as int, false),
    {
        self.paint(value, PINK, false)
    }

    pub fn c_teal(&self, value: &str) -> (s: String)
        ensures
            s@ == self.painted(value@, TEAL as int, false),
    {
        self.paint(value, TEAL, false)
    }

    pub fn c_fg(&self, value: &str) -> (s: String)
        ensures
            s@ == self.painted(value@, FG as int, false),
    {
        self.paint(value, FG, false)
    }

    pub fn c_muted(&self, value: &str) -> (s: String)
        ensures
            s@ == self.painted(value@, MUTED as int, false),
    {
        self.paint(value, MUTED, false)
    }

    pub fn c_dim(&self, value: &str) -> (s: String)
        ensures
            s@ == self.painted(value@, DIM as int, false),
    {
        self.paint(value, DIM, false)
    }

    pub fn c_bright(&self, value: &str) -> (s: String)
        ensures
            s@ == self.painted(value@, BRIGHT as int, false),
    {
        self.paint(value, BRIGHT, false)
    }

    pub fn c_bold_green(&self, value: &str) -> (s: String)
        ensures
            s@ == self.painted(value@, GREEN as int, true),
    {
        self.paint(value, GREEN, true)
    }

    pub fn c_bold_yellow(&self, value: &str) -> (s: String)
        ensures
            s@ == self.painted(value@, YELLOW as int, true),
    {
        self.paint(value, YELLOW, true)
    }

    pub fn c_bold_red(&self, value: &str) -> (s: String)
        ensures
            s@ == self.painted(value@, RED as int, true),
    {
        self.paint(value, RED, true)
    }

    pub fn c_bold_bright(&self, value: &str) -> (s: String)
        ensures
            s@ == self.painted(value@, BRIGHT as int, true),
    {
        self.paint(value, BRIGHT, true)
    }

    pub fn c_bold_cyan(&self, value: &str) -> (s: String)
        ensures
            s@ == self.painted(value@, CYAN as int, true),
    {
        self.paint(value, CYAN, true)
    }

    pub fn c_bold_purple(&self, value: &str) -> (s: String)
        ensures
            s@ == self.painted(value@, PURPLE as int, true),
    {
        self.paint(value, PURPLE, true)
    }

    pub fn c_bold_orange(&self, value: &str) -> (s: String)
        ensures
            s@ == self.painted(value@, ORANGE as int, true),
    {
        self.paint(value, ORANGE, true)
    }

    /// Badge for a passing check: bold green.
    pub fn badge_pass(&self, value: &str) -> (s: String)
        ensures
            s@ == self.painted(value@, GREEN as int, true),
    {
        self.paint(value, GREEN, true)
    }

    /// Badge for a warning: bold yellow.
    pub fn badge_warn(&self, value: &str) -> (s: String)
        ensures
            s@ == self.painted(value@, YELLOW as int, true),
    {
        self.paint(value, YELLOW, true)
    }

    /// Badge for a failing check: bold red.
    pub fn badge_fail(&self, value: &str) -> (s: String)
        ensures
            s@ == self.painted(value@, RED as int, true),
    {
        self.paint(value, RED, true)
    }

    /// Badge for an informational check: bold cyan.
    pub fn badge_info(&self, value: &str) -> (s: String)
        ensures
            s@ == self.painted(value@, CYAN as int, true),
    {
        self.paint(value, CYAN, true)
    }
}

/// Cells of a ten-cell bar that `score` out of `max` fills: the share
/// `score / max` of ten cells, rounded half away from zero (none when `max`
/// is zero).
pub open spec fn filled_cells(score: nat, max: nat) -> nat {
    if max > 0 {
        (20 * score + max) / (2 * max)
    } else {
        0
    }
}

/// The score text `score/max`.
pub open spec fn score_text(score: nat, max: nat) -> Seq<char> {
    decimal(score) + seq!['/'] + decimal(max)
}

/// The bar characters: filled cells then empty ones, ten in all.
pub open spec fn bar_cells(filled: nat) -> Seq<char> {
    repeat('\u{2588}', filled) + repeat('\u{2591}', (10 - filled) as nat)
}

impl Style {
    /// The score bar line: ten cells, colored by how many are filled
    /// (8-10 green, 5-7 yellow, 0-4 red), then `score/max` dimmed.
    pub open spec fn score_bar_spec(&self, score: nat, max: nat) -> Seq<char> {
        let filled = filled_cells(score, max);
        let bar = bar_cells(filled);
        let text = score_text(score, max);
        if self.use_color {
            let slot = if filled >= 8 {
                GREEN
            } else if filled >= 5 {
                YELLOW
            } else {
                RED
            };
            colored(bar, self.palette@[slot as int], false) + seq![' '] + colored(
                text,
                self.palette@[DIM as int],
                false,
            )
        } else {
            bar + seq![' '] + text
        }
    }

    /// Score bar: `█` filled, `░` empty, ten cells, then `score/max`.
    pub fn score_bar(&self, score: u32, max: u32) -> (s: String)
        requires
            filled_cells(score as nat, max as nat) <= 10,
        ensures
            s@ == self.score_bar_spec(score as nat, max as nat),
    {
        let filled: u64 = if max > 0 {
            (20 * (score as u64) + (max as u64)) / (2 * (max as u64))
        } else {
            0
        };
        let mut bar = String::new();
        push_repeat(&mut bar, '\u{2588}', filled as usize);
        push_repeat(&mut bar, '\u{2591}', (10 - filled) as usize);
        let mut text = String::new();
        push_decimal(&mut text, score as u64);
        push_char(&mut text, '/');
        push_decimal(&mut text, max as u64);
        let mut out = String::new();
        if self.use_color {
            let color = if filled >= 8 {
                self.pal(GREEN)
            } else if filled >= 5 {
                self.pal(YELLOW)
            } else {
                self.pal(RED)
            };
            let dim = self.pal(DIM);
            let b = owo_truecolor(bar.as_str(), color.0, color.1, color.2);
            let t = owo_truecolor(text.as_str(), dim.0, dim.1, dim.2);
            append_str(&mut out, b.as_str());
            push_char(&mut out, ' ');
            append_str(&mut out, t.as_str());
        } else {
            append_str(&mut out, bar.as_str());
            push_char(&mut out, ' ');
            append_str(&mut out, text.as_str());
        }
        out
    }

    /// Length of the horizontal rule in a section header, given the
    /// terminal width and the header's prefix length.
    pub open spec fn rule_len(term_width: nat, prefix_len: nat) -> nat {
        if term_width > prefix_len + 2 {
            (term_width - prefix_len - 1) as nat
        } else {
            10
        }
    }

    /// A section header: icon (on a terminal), title, and a `─` rule that
    /// fills the rest of the terminal width (ten cells when it is narrow).
    pub open spec fn section_header_spec(&self, icon: Seq<char>, title: Seq<char>, term_width: nat) -> Seq<char> {
        let show_icon = self.is_tty && icon.len() > 0;
        let prefix_len: nat = (if show_icon { 3nat } else { 0nat }) + byte_len(title) + 1;
        let rule = repeat('\u{2500}', Self::rule_len(term_width, prefix_len));
        if self.use_color {
            if show_icon {
                icon + seq![' '] + self.painted(title, BRIGHT as int, true) + seq![' '] + self.painted(
                    rule,
                    DIM as int,
                    false,
                )
            } else {
                self.painted(title, BRIGHT as int, true) + seq![' '] + self.painted(rule, DIM as int, false)
            }
        } else {
            title + seq![' '] + rule
        }
    }

    /// Section header: icon + title + horizontal rule filling the remaining width.
    pub fn format_section_header(&self, icon: &str, title: &str, term_width: usize) -> (s: String)
        ensures
            s@ == self.section_header_spec(icon@, title@, term_width as nat),
    {
        let show_icon = self.is_tty && !icon.is_empty();
        let icon_part: usize = if show_icon { 3 } else { 0 };
        let tc = chars_of(title);
        // The rule is ten cells unless the terminal is wider than the prefix plus two.
        let rule_len: usize = if term_width < icon_part + 4 || !fits_in_bytes(&tc, term_width - icon_part - 4) {
            10
        } else {
            let title_len = title_bytes(&tc, term_width);
            term_width - (icon_part + title_len + 1) - 1
        };
        let mut rule = String::new();
        push_repeat(&mut rule, '\u{2500}', rule_len);
        let mut out = String::new();
        if self.use_color {
            if show_icon {
                append_str(&mut out, icon);
                push_char(&mut out, ' ');
            }
            let t = self.c_bold_bright(title);
            let r = self.c_dim(rule.as_str());
            append_str(&mut out, t.as_str());
            push_char(&mut out, ' ');
            append_str(&mut out, r.as_str());
        } else {
            append_str(&mut out, title);
            push_char(&mut out, ' ');
            append_str(&mut out, rule.as_str());
        }
        out
    }
}

/// UTF-8 length of `cs`, known to be within `cap`.
fn title_bytes(cs: &[char], cap: usize) -> (n: usize)
    requires
        byte_len(cs@) <= cap,
    ensures
        n == byte_len(cs@),
{
    let mut used: usize = 0;
    let mut i: usize = 0;
    assert(cs@.take(0) =~= Seq::<char>::empty());
    while i < cs.len()
        invariant
            i <= cs.len(),
            used == byte_len(cs@.take(i as int)),
            byte_len(cs@) <= cap,
        decreases cs.len() - i,
    {
        let w = crate::text::utf8_width_of(cs[i]);
        assert(cs@.take(i + 1) =~= cs@.take(i as int).push(cs@[i as int]));
        proof {
            crate::text::lemma_byte_len_push(cs@.take(i as int), cs@[i as int]);
            crate::text::lemma_byte_len_prefix(cs@, i + 1);
        }
        used = used + w;
        i = i + 1;
    }
    assert(cs@.take(cs.len() as int) =~= cs@);
    used
}

} // verus!
