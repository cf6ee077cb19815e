//! Configuration values and their defaults, and color parsing.

use vstd::prelude::*;
use vstd::string::StringExecFns;
use crate::text::{chars_of, parse_unsigned, parse_unsigned_chars, digit_value, digits_value, unsigned_body, all_digits};

verus! {

/// Palette entries, each as `#RRGGBB`.
pub struct ColorConfig {
    pub green: String,
    pub cyan: String,
    pub yellow: String,
    pub red: String,
    pub purple: String,
    pub orange: String,
    pub pink: String,
    pub teal: String,
    pub fg: String,
    pub muted: String,
    pub dim: String,
    pub bright: String,
}

/// DNS settings.
pub struct DnsConfig {
    pub doh_url: String,
}

/// Network settings.
pub struct NetworkConfig {
    pub timeout: u64,
    pub max_redirect_hops: usize,
    pub user_agent: String,
}

/// Logo animation settings.
pub struct AnimationConfig {
    pub enabled: bool,
}

/// The whole configuration file.
pub struct Config {
    pub colors: ColorConfig,
    pub dns: DnsConfig,
    pub network: NetworkConfig,
    pub animation: AnimationConfig,
}

/// The default palette, in the order green, cyan, yellow, red, purple,
/// orange, pink, teal, fg, muted, dim, bright.
pub open spec fn default_palette() -> Seq<(u8, u8, u8)> {
    seq![
        (134u8, 239u8, 172u8),
        (125u8, 211u8, 252u8),
        (253u8, 230u8, 138u8),
        (252u8, 165u8, 165u8),
        (196u8, 181u8, 253u8),
        (253u8, 186u8, 116u8),
        (249u8, 168u8, 212u8),
        (94u8, 234u8, 212u8),
        (200u8, 200u8, 224u8),
        (107u8, 107u8, 141u8),
        (68u8, 68u8, 102u8),
        (238u8, 238u8, 245u8),
    ]
}

impl ColorConfig {
    /// The twelve palette entries in palette order.
    pub open spec fn entries(&self) -> Seq<Seq<char>> {
        seq![
            self.green@,
            self.cyan@,
            self.yellow@,
            self.red@,
            self.purple@,
            self.orange@,
            self.pink@,
            self.teal@,
            self.fg@,
            self.muted@,
            self.dim@,
            self.bright@,
        ]
    }
}

impl Default for ColorConfig {
    fn default() -> (c: Self)
        ensures
            c.green@ == "#86EFAC"@,
            c.cyan@ == "#7DD3FC"@,
            c.yellow@ == "#FDE68A"@,
            c.red@ == "#FCA5A5"@,
            c.purple@ == "#C4B5FD"@,
            c.orange@ == "#FDBA74"@,
            c.pink@ == "#F9A8D4"@,
            c.teal@ == "#5EEAD4"@,
            c.fg@ == "#C8C8E0"@,
            c.muted@ == "#6B6B8D"@,
            c.dim@ == "#444466"@,
            c.bright@ == "#EEEEF5"@,
    {
        ColorConfig {
            green: String::from_str("#86EFAC"),
            cyan: String::from_str("#7DD3FC"),
            yellow: String::from_str("#FDE68A"),
            red: String::from_str("#FCA5A5"),
            purple: String::from_str("#C4B5FD"),
            orange: String::from_str("#FDBA74"),
            pink: String::from_str("#F9A8D4"),
            teal: String::from_str("#5EEAD4"),
            fg: String::from_str("#C8C8E0"),
            muted: String::from_str("#6B6B8D"),
            dim: String::from_str("#444466"),
            bright: String::from_str("#EEEEF5"),
        }
    }
}

impl Default for DnsConfig {
    fn default() -> (c: Self)
        ensures
            c.doh_url@ == "https://dns.google/resolve"@,
    {
        DnsConfig { doh_url: String::from_str("https://dns.google/resolve") }
    }
}

impl Default for NetworkConfig {
    fn default() -> (c: Self)
        ensures
            c.timeout == 10,
            c.max_redirect_hops == 10,
            c.user_agent@ == "domain-probe/0.1"@,
    {
        NetworkConfig {
            timeout: 10,
            max_redirect_hops: 10,
            user_agent: String::from_str("domain-probe/0.1"),
        }
    }
}

impl Default for AnimationConfig {
    fn default() -> (c: Self)
        ensures
            c.enabled,
    {
        AnimationConfig { enabled: true }
    }
}

impl Default for Config {
    fn default() -> (c: Self)
        ensures
            c.colors.entries() == (ColorConfig::default_entries()),
            c.dns.doh_url@ == "https://dns.google/resolve"@,
            c.network.timeout == 10,
            c.network.max_redirect_hops == 10,
            c.network.user_agent@ == "domain-probe/0.1"@,
            c.animation.enabled,
    {
        Config {
            colors: ColorConfig::default(),
            dns: DnsConfig::default(),
            network: NetworkConfig::default(),
            animation: AnimationConfig::default(),
        }
    }
}

impl ColorConfig {
    /// The default palette entries as text, in palette order.
    pub open spec fn default_entries() -> Seq<Seq<char>> {
        seq![
            "#86EFAC"@,
            "#7DD3FC"@,
            "#FDE68A"@,
            "#FCA5A5"@,
            "#C4B5FD"@,
            "#FDBA74"@,
            "#F9A8D4"@,
            "#5EEAD4"@,
            "#C8C8E0"@,
            "#6B6B8D"@,
            "#444466"@,
            "#EEEEF5"@,
        ]
    }
}

/// Bounds a value to `[lo, hi]`.
pub open spec fn clamp_spec(v: int, lo: int, hi: int) -> int {
    if v < lo {
        lo
    } else if v > hi {
        hi
    } else {
        v
    }
}

/// Keeps user-supplied network settings in range: the timeout within
/// 1..=120 seconds and the redirect hop limit within 1..=30.
pub fn normalize_network(network: &mut NetworkConfig)
    ensures
        final(network).timeout == clamp_spec(old(network).timeout as int, 1, 120),
        final(network).max_redirect_hops == clamp_spec(old(network).max_redirect_hops as int, 1, 30),
        final(network).user_agent == old(network).user_agent,
{
    if network.timeout < 1 {
        network.timeout = 1;
    } else if network.timeout > 120 {
        network.timeout = 120;
    }
    if network.max_redirect_hops < 1 {
        network.max_redirect_hops = 1;
    } else if network.max_redirect_hops > 30 {
        network.max_redirect_hops = 30;
    }
}

/// Number of leading `#` characters.
pub open spec fn lead_hashes(s: Seq<char>) -> nat
    decreases s.len(),
{
    if s.len() > 0 && s[0] == '#' {
        1 + lead_hashes(s.drop_first())
    } else {
        0
    }
}

/// The color text once every leading `#` is removed.
pub open spec fn strip_hashes(s: Seq<char>) -> Seq<char> {
    s.subrange(lead_hashes(s) as int, s.len() as int)
}

/// Every character is ASCII.
pub open spec fn all_ascii(s: Seq<char>) -> bool {
    forall|i: int| 0 <= i < s.len() ==> s[i] < '\u{80}'
}

/// A hex color: ASCII text, any number of leading `#`, then exactly six
/// characters read as three two-character hexadecimal bytes.
pub open spec fn hex_color(s: Seq<char>) -> Option<(u8, u8, u8)> {
    let h = strip_hashes(s);
    if !all_ascii(s) || h.len() != 6 {
        None
    } else {
        match (
            parse_unsigned(h.subrange(0, 2), 16, 255),
            parse_unsigned(h.subrange(2, 4), 16, 255),
            parse_unsigned(h.subrange(4, 6), 16, 255),
        ) {
            (Some(r), Some(g), Some(b)) => Some((r as u8, g as u8, b as u8)),
            _ => None,
        }
    }
}

/// Parses `#RRGGBB` (the `#` optional) into its three bytes.
pub fn parse_hex_color(hex: &str) -> (c: Option<(u8, u8, u8)>)
    ensures
        c == hex_color(hex@),
{
    let s = chars_of(hex);
    let mut i: usize = 0;
    while i < s.len()
        invariant
            i <= s.len(),
            s@ == hex@,
            forall|k: int| 0 <= k < i ==> s@[k] < '\u{80}',
        decreases s.len() - i,
    {
        if s[i] >= '\u{80}' {
            assert(!all_ascii(s@)) by {
                assert(s@[i as int] >= '\u{80}');
            }
            return None;
        }
        i = i + 1;
    }
    let mut a: usize = 0;
    assert(s@.subrange(0, s.len() as int) =~= s@);
    while a < s.len() && s[a] == '#'
        invariant
            a <= s.len(),
            lead_hashes(s@) == a + lead_hashes(s@.subrange(a as int, s.len() as int)),
        decreases s.len() - a,
    {
        assert(s@.subrange(a as int, s.len() as int).drop_first() =~= s@.subrange(a + 1, s.len() as int));
        a = a + 1;
    }
    assert(lead_hashes(s@.subrange(a as int, s.len() as int)) == 0);
    if s.len() - a != 6 {
        return None;
    }
    let ghost h = strip_hashes(s@);
    let p0 = [s[a], s[a + 1]];
    let p1 = [s[a + 2], s[a + 3]];
    let p2 = [s[a + 4], s[a + 5]];
    assert(p0@ =~= h.subrange(0, 2));
    assert(p1@ =~= h.subrange(2, 4));
    assert(p2@ =~= h.subrange(4, 6));
    let r = parse_unsigned_chars(&p0, 16, 255);
    let g = parse_unsigned_chars(&p1, 16, 255);
    let b = parse_unsigned_chars(&p2, 16, 255);
    match (r, g, b) {
        (Some(r), Some(g), Some(b)) => Some((r as u8, g as u8, b as u8)),
        _ => None,
    }
}

} // verus!
verus! {

proof fn lemma_hex_pair(a: char, b: char)
    requires
        digit_value(a, 16) is Some,
        digit_value(b, 16) is Some,
    ensures
        parse_unsigned(seq![a, b], 16, 255) == Some(digit_value(a, 16).unwrap() * 16 + digit_value(b, 16).unwrap()),
{
    let s = seq![a, b];
    assert(s[0] == a);
    assert(unsigned_body(s) == s);
    assert(s.drop_last() =~= seq![a]);
    assert(seq![a].drop_last() =~= Seq::<char>::empty());
    let da = digit_value(a, 16).unwrap();
    let db = digit_value(b, 16).unwrap();
    assert(da < 16 && db < 16);
    assert(digits_value(Seq::<char>::empty(), 16) == 0);
    assert(digits_value(seq![a], 16) == da);
    assert(digits_value(s, 16) == da * 16 + db);
    assert(all_digits(s, 16)) by {
        assert forall|i: int| 0 <= i < s.len() implies (#[trigger] digit_value(s[i], 16)) is Some by {
            if i == 0 { assert(s[i] == a); } else { assert(s[i] == b); }
        }
    }
}

/// The text `#` followed by six hex digits denotes those three bytes.
proof fn lemma_hex_literal(s: Seq<char>)
    requires
        s.len() == 7,
        s[0] == '#',
        forall|i: int| 1 <= i < 7 ==> digit_value(#[trigger] s[i], 16) is Some,
    ensures
        hex_color(s) == Some((
            (digit_value(s[1], 16).unwrap() * 16 + digit_value(s[2], 16).unwrap()) as u8,
            (digit_value(s[3], 16).unwrap() * 16 + digit_value(s[4], 16).unwrap()) as u8,
            (digit_value(s[5], 16).unwrap() * 16 + digit_value(s[6], 16).unwrap()) as u8,
        )),
{
    let t = s.drop_first();
    assert(s.drop_first() =~= s.subrange(1, 7));
    assert(lead_hashes(t) == 0) by {
        assert(digit_value(t[0], 16) is Some);
    }
    assert(lead_hashes(s) == 1);
    let h = strip_hashes(s);
    assert(h =~= t);
    assert forall|i: int| 0 <= i < s.len() implies s[i] < '\u{80}' by {
        if i > 0 {
            assert(digit_value(s[i], 16) is Some);
        }
    }
    assert(h.subrange(0, 2) =~= seq![s[1], s[2]]);
    assert(h.subrange(2, 4) =~= seq![s[3], s[4]]);
    assert(h.subrange(4, 6) =~= seq![s[5], s[6]]);
    lemma_hex_pair(s[1], s[2]);
    lemma_hex_pair(s[3], s[4]);
    lemma_hex_pair(s[5], s[6]);
}

/// The hexadecimal digit for `d` (below sixteen), in upper or lower case.
pub open spec fn hex_digit(d: nat, upper: bool) -> char {
    if d < 10 {
        (48 + d) as char
    } else if upper {
        (55 + d) as char
    } else {
        (87 + d) as char
    }
}

/// A byte as two hexadecimal digits, in upper or lower case.
pub open spec fn hex_byte(n: u8, upper: bool) -> Seq<char> {
    seq![hex_digit(n as nat / 16, upper), hex_digit(n as nat % 16, upper)]
}

/// A hexadecimal digit reads back as its value.
proof fn lemma_hex_digit(d: nat, upper: bool)
    requires
        d < 16,
    ensures
        digit_value(hex_digit(d, upper), 16) == Some(d),
{
}

/// Writing a color as `#` and three two-digit hexadecimal bytes, in either
/// case, and reading it back gives the same color.
pub proof fn lemma_hex_color_round_trip(r: u8, g: u8, b: u8, upper_r: bool, upper_g: bool, upper_b: bool)
    ensures
        hex_color(seq!['#'] + hex_byte(r, upper_r) + hex_byte(g, upper_g) + hex_byte(b, upper_b)) == Some((r, g, b)),
{
    let s = seq!['#'] + hex_byte(r, upper_r) + hex_byte(g, upper_g) + hex_byte(b, upper_b);
    lemma_hex_digit(r as nat / 16, upper_r);
    lemma_hex_digit(r as nat % 16, upper_r);
    lemma_hex_digit(g as nat / 16, upper_g);
    lemma_hex_digit(g as nat % 16, upper_g);
    lemma_hex_digit(b as nat / 16, upper_b);
    lemma_hex_digit(b as nat % 16, upper_b);
    assert(s.len() == 7);
    assert(s[1] == hex_digit(r as nat / 16, upper_r) && s[2] == hex_digit(r as nat % 16, upper_r));
    assert(s[3] == hex_digit(g as nat / 16, upper_g) && s[4] == hex_digit(g as nat % 16, upper_g));
    assert(s[5] == hex_digit(b as nat / 16, upper_b) && s[6] == hex_digit(b as nat % 16, upper_b));
    lemma_hex_literal(s);
    assert((r as nat / 16) * 16 + r as nat % 16 == r as nat) by (nonlinear_arith);
    assert((g as nat / 16) * 16 + g as nat % 16 == g as nat) by (nonlinear_arith);
    assert((b as nat / 16) * 16 + b as nat % 16 == b as nat) by (nonlinear_arith);
}

/// A color text that is not ASCII, or that does not have six characters
/// once its leading `#` are removed, is no color.
pub proof fn lemma_hex_color_rejects(s: Seq<char>)
    requires
        !all_ascii(s) || strip_hashes(s).len() != 6,
    ensures
        hex_color(s) is None,
{
}

proof fn lemma_default_color_0()
    ensures
        hex_color("#86EFAC"@) == Some((134u8, 239u8, 172u8)),
{
    reveal_strlit("#86EFAC");
    lemma_hex_literal("#86EFAC"@);
}

proof fn lemma_default_color_1()
    ensures
        hex_color("#7DD3FC"@) == Some((125u8, 211u8, 252u8)),
{
    reveal_strlit("#7DD3FC");
    lemma_hex_literal("#7DD3FC"@);
}

proof fn lemma_default_color_2()
    ensures
        hex_color("#FDE68A"@) == Some((253u8, 230u8, 138u8)),
{
    reveal_strlit("#FDE68A");
    lemma_hex_literal("#FDE68A"@);
}

proof fn lemma_default_color_3()
    ensures
        hex_color("#FCA5A5"@) == Some((252u8, 165u8, 165u8)),
{
    reveal_strlit("#FCA5A5");
    lemma_hex_literal("#FCA5A5"@);
}

proof fn lemma_default_color_4()
    ensures
        hex_color("#C4B5FD"@) == Some((196u8, 181u8, 253u8)),
{
    reveal_strlit("#C4B5FD");
    lemma_hex_literal("#C4B5FD"@);
}

proof fn lemma_default_color_5()
    ensures
        hex_color("#FDBA74"@) == Some((253u8, 186u8, 116u8)),
{
    reveal_strlit("#FDBA74");
    lemma_hex_literal("#FDBA74"@);
}

proof fn lemma_default_color_6()
    ensures
        hex_color("#F9A8D4"@) == Some((249u8, 168u8, 212u8)),
{
    reveal_strlit("#F9A8D4");
    lemma_hex_literal("#F9A8D4"@);
}

proof fn lemma_default_color_7()
    ensures
        hex_color("#5EEAD4"@) == Some((94u8, 234u8, 212u8)),
{
    reveal_strlit("#5EEAD4");
    lemma_hex_literal("#5EEAD4"@);
}

proof fn lemma_default_color_8()
    ensures
        hex_color("#C8C8E0"@) == Some((200u8, 200u8, 224u8)),
{
    reveal_strlit("#C8C8E0");
    lemma_hex_literal("#C8C8E0"@);
}

proof fn lemma_default_color_9()
    ensures
        hex_color("#6B6B8D"@) == Some((107u8, 107u8, 141u8)),
{
    reveal_strlit("#6B6B8D");
    lemma_hex_literal("#6B6B8D"@);
}

proof fn lemma_default_color_10()
    ensures
        hex_color("#444466"@) == Some((68u8, 68u8, 102u8)),
{
    reveal_strlit("#444466");
    lemma_hex_literal("#444466"@);
}

proof fn lemma_default_color_11()
    ensures
        hex_color("#EEEEF5"@) == Some((238u8, 238u8, 245u8)),
{
    reveal_strlit("#EEEEF5");
    lemma_hex_literal("#EEEEF5"@);
}

/// Every default palette entry parses to the matching default color.
pub proof fn lemma_default_colors_parse()
    ensures
        forall|i: int| 0 <= i < 12 ==> hex_color(#[trigger] ColorConfig::default_entries()[i]) == Some(default_palette()[i]),
{
    lemma_default_color_0();
    lemma_default_color_1();
    lemma_default_color_2();
    lemma_default_color_3();
    lemma_default_color_4();
    lemma_default_color_5();
    lemma_default_color_6();
    lemma_default_color_7();
    lemma_default_color_8();
    lemma_default_color_9();
    lemma_default_color_10();
    lemma_default_color_11();
    let e = ColorConfig::default_entries();
    let p = default_palette();
    assert forall|i: int| 0 <= i < 12 implies hex_color(#[trigger] e[i]) == Some(p[i]) by {
        if i == 0 { assert(e[i] == "#86EFAC"@); }
        else if i == 1 { assert(e[i] == "#7DD3FC"@); }
        else if i == 2 { assert(e[i] == "#FDE68A"@); }
        else if i == 3 { assert(e[i] == "#FCA5A5"@); }
        else if i == 4 { assert(e[i] == "#C4B5FD"@); }
        else if i == 5 { assert(e[i] == "#FDBA74"@); }
        else if i == 6 { assert(e[i] == "#F9A8D4"@); }
        else if i == 7 { assert(e[i] == "#5EEAD4"@); }
        else if i == 8 { assert(e[i] == "#C8C8E0"@); }
        else if i == 9 { assert(e[i] == "#6B6B8D"@); }
        else if i == 10 { assert(e[i] == "#444466"@); }
        else if i == 11 { assert(e[i] == "#EEEEF5"@); }
    }
}

} // verus!
