//! Character-level text helpers shared by the renderers.

use vstd::prelude::*;
use vstd::string::StringExecFns;
use crate::logo::frame::visible_len;

verus! {

/// The ASCII digit for `d` (`d < 10`).
pub open spec fn digit_char(d: nat) -> char {
    ((d + 48) as u8) as char
}

/// Decimal representation of `n`, without leading zeros.
pub open spec fn decimal(n: nat) -> Seq<char>
    decreases n,
{
    if n < 10 {
        seq![digit_char(n)]
    } else {
        decimal(n / 10).push(digit_char(n % 10))
    }
}

/// Appends one character to a string (`String::push`).
#[verifier::external_body]
pub fn push_char(s: &mut String, c: char)
    ensures
        final(s)@ == old(s)@.push(c),
{
    s.push(c)
}

/// The characters of a string slice, in order (`str::chars`, collected).
#[verifier::external_body]
pub fn chars_of(s: &str) -> (v: Vec<char>)
    ensures
        v@ == s@,
{
    s.chars().collect()
}

/// Appends `t` to `s`.
pub fn append_str(s: &mut String, t: &str)
    ensures
        final(s)@ == old(s)@ + t@,
{
    s.append(t);
}

/// Appends every character of `cs` to `s`.
pub fn append_chars(s: &mut String, cs: &[char])
    ensures
        final(s)@ == old(s)@ + cs@,
{
    let ghost start = s@;
    let mut i: usize = 0;
    while i < cs.len()
        invariant
            i <= cs.len(),
            s@ == start + cs@.take(i as int),
        decreases cs.len() - i,
    {
        push_char(s, cs[i]);
        i = i + 1;
        assert(cs@.take(i as int) == cs@.take(i - 1).push(cs@[i - 1]));
    }
    assert(cs@.take(cs.len() as int) == cs@);
}

/// A string holding exactly the characters `cs`.
pub fn string_of(cs: &[char]) -> (s: String)
    ensures
        s@ == cs@,
{
    let mut s = String::new();
    append_chars(&mut s, cs);
    s
}

/// Appends the decimal representation of `n` to `s`.
pub fn push_decimal(s: &mut String, n: u64)
    ensures
        final(s)@ == old(s)@ + decimal(n as nat),
    decreases n,
{
    if n >= 10 {
        push_decimal(s, n / 10);
    }
    let d: u8 = (n % 10) as u8;
    push_char(s, (d + 48) as char);
}

/// Appends the decimal representation of a 128-bit `n` to `s`.
pub fn push_decimal_u128(s: &mut String, n: u128)
    ensures
        final(s)@ == old(s)@ + decimal(n as nat),
    decreases n,
{
    if n >= 10 {
        push_decimal_u128(s, n / 10);
    }
    let d: u8 = (n % 10) as u8;
    push_char(s, (d + 48) as char);
}

/// Decimal representation of `n`.
pub fn u64_to_string(n: u64) -> (s: String)
    ensures
        s@ == decimal(n as nat),
{
    let mut s = String::new();
    push_decimal(&mut s, n);
    s
}


/// ASCII lower-casing of one character; other characters are unchanged.
pub open spec fn lower_char(c: char) -> char {
    if 'A' <= c && c <= 'Z' {
        ((c as u32) + 32) as char
    } else {
        c
    }
}

/// ASCII lower-casing of a character sequence.
pub open spec fn lower(s: Seq<char>) -> Seq<char> {
    Seq::new(s.len(), |i: int| lower_char(s[i]))
}

/// `needle` occurs in `hay` starting at index `i`.
pub open spec fn occurs_at(hay: Seq<char>, needle: Seq<char>, i: int) -> bool {
    0 <= i && i + needle.len() <= hay.len() && hay.subrange(i, i + needle.len()) == needle
}

/// `needle` occurs somewhere in `hay`.
pub open spec fn contains_seq(hay: Seq<char>, needle: Seq<char>) -> bool {
    exists|i: int| occurs_at(hay, needle, i)
}

/// `hay` begins with `prefix`.
pub open spec fn starts_with(hay: Seq<char>, prefix: Seq<char>) -> bool {
    occurs_at(hay, prefix, 0)
}

/// The Unicode `White_Space` property, as `char::is_whitespace` defines it.
pub open spec fn is_space(c: char) -> bool {
    ||| ('\t' <= c && c <= '\r')
    ||| c == ' '
    ||| c == '\u{85}'
    ||| c == '\u{a0}'
    ||| c == '\u{1680}'
    ||| ('\u{2000}' <= c && c <= '\u{200a}')
    ||| c == '\u{2028}'
    ||| c == '\u{2029}'
    ||| c == '\u{202f}'
    ||| c == '\u{205f}'
    ||| c == '\u{3000}'
}

/// Number of leading whitespace characters of `s`.
pub open spec fn lead_space(s: Seq<char>) -> nat
    decreases s.len(),
{
    if s.len() > 0 && is_space(s[0]) {
        1 + lead_space(s.drop_first())
    } else {
        0
    }
}

/// Number of trailing whitespace characters of `s`.
pub open spec fn trail_space(s: Seq<char>) -> nat
    decreases s.len(),
{
    if s.len() > 0 && is_space(s.last()) {
        1 + trail_space(s.drop_last())
    } else {
        0
    }
}

/// `s` without leading whitespace.
pub open spec fn trim_start(s: Seq<char>) -> Seq<char> {
    s.subrange(lead_space(s) as int, s.len() as int)
}

/// `s` without trailing whitespace.
pub open spec fn trim_end(s: Seq<char>) -> Seq<char> {
    s.subrange(0, s.len() - trail_space(s))
}

/// `s` without leading and trailing whitespace (`str::trim`).
pub open spec fn trim(s: Seq<char>) -> Seq<char> {
    trim_end(trim_start(s))
}

/// Exec form of [`is_space`].
pub fn is_space_char(c: char) -> (b: bool)
    ensures
        b == is_space(c),
{
    ('\t' <= c && c <= '\r') || c == ' ' || c == '\u{85}' || c == '\u{a0}' || c == '\u{1680}'
        || ('\u{2000}' <= c && c <= '\u{200a}') || c == '\u{2028}' || c == '\u{2029}' || c
        == '\u{202f}' || c == '\u{205f}' || c == '\u{3000}'
}

/// Exec form of [`lower_char`].
pub fn to_lower_char(c: char) -> (l: char)
    ensures
        l == lower_char(c),
{
    if 'A' <= c && c <= 'Z' {
        let b: u8 = c as u8;
        (b + 32) as char
    } else {
        c
    }
}

/// ASCII lower-cased copy of `s`.
pub fn to_lower(s: &[char]) -> (l: Vec<char>)
    ensures
        l@ == lower(s@),
{
    let mut out: Vec<char> = Vec::new();
    let mut i: usize = 0;
    while i < s.len()
        invariant
            i <= s.len(),
            out@ == lower(s@.take(i as int)),
        decreases s.len() - i,
    {
        let c = to_lower_char(s[i]);
        out.push(c);
        i = i + 1;
        assert(out@ =~= lower(s@.take(i as int)));
    }
    assert(s@.take(s.len() as int) =~= s@);
    out
}

/// Whether `needle` occurs in `hay` at index `i`.
pub fn matches_at(hay: &[char], needle: &[char], i: usize) -> (b: bool)
    ensures
        b == occurs_at(hay@, needle@, i as int),
{
    if i > hay.len() || needle.len() > hay.len() - i {
        return false;
    }
    let mut j: usize = 0;
    while j < needle.len()
        invariant
            j <= needle.len(),
            i + needle.len() <= hay.len(),
            forall|k: int| 0 <= k < j ==> hay@[i + k] == needle@[k],
        decreases needle.len() - j,
    {
        if hay[i + j] != needle[j] {
            assert(hay@.subrange(i as int, i + needle.len())[j as int] != needle@[j as int]);
            return false;
        }
        j = j + 1;
    }
    assert(hay@.subrange(i as int, i + needle.len()) =~= needle@);
    true
}

/// Whether `needle` occurs anywhere in `hay`.
pub fn contains(hay: &[char], needle: &[char]) -> (b: bool)
    ensures
        b == contains_seq(hay@, needle@),
{
    if needle.len() > hay.len() {
        return false;
    }
    let last = hay.len() - needle.len();
    let mut i: usize = 0;
    loop
        invariant
            i <= last,
            last + needle.len() == hay.len(),
            forall|k: int| 0 <= k < i ==> !occurs_at(hay@, needle@, k),
        decreases last - i,
    {
        if matches_at(hay, needle, i) {
            return true;
        }
        if i == last {
            assert forall|k: int| !occurs_at(hay@, needle@, k) by {
                if 0 <= k && k + needle@.len() <= hay@.len() {
                    assert(k <= last);
                }
            }
            return false;
        }
        i = i + 1;
    }
}

/// Whether two character sequences are equal.
pub fn same_chars(a: &[char], b: &[char]) -> (r: bool)
    ensures
        r == (a@ == b@),
{
    if a.len() != b.len() {
        return false;
    }
    let r = matches_at(a, b, 0);
    assert(a@.subrange(0, b@.len() as int) =~= a@);
    r
}

/// Whether `hay` begins with `prefix`.
pub fn has_prefix(hay: &[char], prefix: &[char]) -> (b: bool)
    ensures
        b == starts_with(hay@, prefix@),
{
    matches_at(hay, prefix, 0)
}

/// Whether the lower-cased `hay` contains `needle`.
pub fn contains_folded(hay: &[char], needle: &[char]) -> (b: bool)
    ensures
        b == contains_seq(lower(hay@), needle@),
{
    let l = to_lower(hay);
    contains(&l, needle)
}

/// Index of the first non-whitespace character.
pub fn lead_space_len(s: &[char]) -> (n: usize)
    ensures
        n == lead_space(s@),
        n <= s.len(),
{
    let mut i: usize = 0;
    assert(s@.subrange(0, s.len() as int) =~= s@);
    while i < s.len() && is_space_char(s[i])
        invariant
            i <= s.len(),
            forall|k: int| 0 <= k < i ==> is_space(s@[k]),
            lead_space(s@) == i + lead_space(s@.subrange(i as int, s.len() as int)),
        decreases s.len() - i,
    {
        let ghost rest = s@.subrange(i as int, s.len() as int);
        assert(rest.drop_first() =~= s@.subrange(i + 1, s.len() as int));
        i = i + 1;
    }
    let ghost rest = s@.subrange(i as int, s.len() as int);
    assert(lead_space(rest) == 0);
    i
}

/// Number of trailing whitespace characters.
pub fn trail_space_len(s: &[char]) -> (n: usize)
    ensures
        n == trail_space(s@),
        n <= s.len(),
{
    let mut i: usize = s.len();
    assert(s@.take(s.len() as int) =~= s@);
    while i > 0 && is_space_char(s[i - 1])
        invariant
            i <= s.len(),
            trail_space(s@) == (s.len() - i) + trail_space(s@.take(i as int)),
        decreases i,
    {
        let ghost front = s@.take(i as int);
        assert(front.drop_last() =~= s@.take(i - 1));
        i = i - 1;
    }
    let ghost front = s@.take(i as int);
    assert(trail_space(front) == 0);
    s.len() - i
}

/// `s` without leading and trailing whitespace.
pub fn trimmed(s: &[char]) -> (t: Vec<char>)
    ensures
        t@ == trim(s@),
{
    let a = lead_space_len(s);
    let ghost st = s@.subrange(a as int, s.len() as int);
    let mut front: Vec<char> = Vec::new();
    let mut i: usize = a;
    while i < s.len()
        invariant
            a <= i <= s.len(),
            front@ == s@.subrange(a as int, i as int),
        decreases s.len() - i,
    {
        front.push(s[i]);
        i = i + 1;
        assert(front@ =~= s@.subrange(a as int, i as int));
    }
    assert(front@ == trim_start(s@));
    let b = trail_space_len(&front);
    let mut out: Vec<char> = Vec::new();
    let mut j: usize = 0;
    while j < front.len() - b
        invariant
            b <= front.len(),
            j <= front.len() - b,
            out@ == front@.take(j as int),
        decreases front.len() - b - j,
    {
        out.push(front[j]);
        j = j + 1;
        assert(out@ =~= front@.take(j as int));
    }
    assert(out@ =~= trim_end(front@));
    out
}

/// The characters of `s` from index `from` on.
pub fn suffix_from(s: &[char], from: usize) -> (t: Vec<char>)
    requires
        from <= s.len(),
    ensures
        t@ == s@.subrange(from as int, s.len() as int),
{
    let mut out: Vec<char> = Vec::new();
    let mut i: usize = from;
    while i < s.len()
        invariant
            from <= i <= s.len(),
            out@ == s@.subrange(from as int, i as int),
        decreases s.len() - i,
    {
        out.push(s[i]);
        i = i + 1;
        assert(out@ =~= s@.subrange(from as int, i as int));
    }
    out
}

/// The first `n` characters of `s`.
pub fn prefix_of(s: &[char], n: usize) -> (t: Vec<char>)
    requires
        n <= s.len(),
    ensures
        t@ == s@.take(n as int),
{
    let mut out: Vec<char> = Vec::new();
    let mut i: usize = 0;
    while i < n
        invariant
            i <= n <= s.len(),
            out@ == s@.take(i as int),
        decreases n - i,
    {
        out.push(s[i]);
        i = i + 1;
        assert(out@ =~= s@.take(i as int));
    }
    out
}


/// Value of `c` as a digit in the given radix (10 or 16), if it is one.
pub open spec fn digit_value(c: char, radix: nat) -> Option<nat> {
    if '0' <= c && c <= '9' {
        Some((c as nat - 48) as nat)
    } else if radix == 16 && 'a' <= c && c <= 'f' {
        Some((c as nat - 87) as nat)
    } else if radix == 16 && 'A' <= c && c <= 'F' {
        Some((c as nat - 55) as nat)
    } else {
        None
    }
}

/// Every character of `s` is a digit in `radix`.
pub open spec fn all_digits(s: Seq<char>, radix: nat) -> bool {
    forall|i: int| 0 <= i < s.len() ==> (#[trigger] digit_value(s[i], radix)) is Some
}

/// Numeric value of a digit string in `radix` (most significant first).
pub open spec fn digits_value(s: Seq<char>, radix: nat) -> nat
    decreases s.len(),
{
    if s.len() == 0 {
        0
    } else {
        digits_value(s.drop_last(), radix) * radix + digit_value(s.last(), radix).unwrap_or(0)
    }
}

/// The digits of an unsigned literal: a leading `+` is allowed and dropped.
pub open spec fn unsigned_body(s: Seq<char>) -> Seq<char> {
    if s.len() > 0 && s[0] == '+' {
        s.drop_first()
    } else {
        s
    }
}

/// Unsigned integer parsing as `from_str_radix` does it for an unsigned type
/// whose largest value is `max`: an optional `+`, then one or more digits,
/// and a value no larger than `max`.
pub open spec fn parse_unsigned(s: Seq<char>, radix: nat, max: nat) -> Option<nat> {
    let body = unsigned_body(s);
    if body.len() > 0 && all_digits(body, radix) && digits_value(body, radix) <= max {
        Some(digits_value(body, radix))
    } else {
        None
    }
}

/// Exec form of [`digit_value`].
pub fn digit_of(c: char, radix: u64) -> (d: Option<u64>)
    requires
        radix == 10 || radix == 16,
    ensures
        d matches Some(v) ==> digit_value(c, radix as nat) == Some(v as nat),
        d is None ==> digit_value(c, radix as nat) is None,
        d matches Some(v) ==> v < radix,
{
    if '0' <= c && c <= '9' {
        Some((c as u64) - 48)
    } else if radix == 16 && 'a' <= c && c <= 'f' {
        Some((c as u64) - 87)
    } else if radix == 16 && 'A' <= c && c <= 'F' {
        Some((c as u64) - 55)
    } else {
        None
    }
}

proof fn lemma_digits_value_push(s: Seq<char>, c: char, radix: nat)
    ensures
        digits_value(s.push(c), radix) == digits_value(s, radix) * radix + digit_value(c, radix).unwrap_or(0),
{
    assert(s.push(c).drop_last() =~= s);
}

proof fn lemma_digits_value_mono(s: Seq<char>, c: char, radix: nat)
    requires
        radix >= 1,
    ensures
        digits_value(s.push(c), radix) >= digits_value(s, radix),
{
    lemma_digits_value_push(s, c, radix);
    assert(digits_value(s, radix) * radix >= digits_value(s, radix)) by (nonlinear_arith)
        requires radix >= 1;
}

proof fn lemma_digits_value_prefix_bound(s: Seq<char>, i: int, radix: nat)
    requires
        radix >= 1,
        0 <= i <= s.len(),
    ensures
        digits_value(s.take(i), radix) <= digits_value(s, radix),
    decreases s.len() - i,
{
    if i < s.len() {
        lemma_digits_value_prefix_bound(s, i + 1, radix);
        assert(s.take(i + 1) =~= s.take(i).push(s[i]));
        lemma_digits_value_mono(s.take(i), s[i], radix);
    } else {
        assert(s.take(i) =~= s);
    }
}

/// Parses an unsigned integer no larger than `max`, as `str::parse` and
/// `from_str_radix` do for unsigned integer types.
pub fn parse_unsigned_chars(s: &[char], radix: u64, max: u64) -> (r: Option<u64>)
    requires
        radix == 10 || radix == 16,
    ensures
        r matches Some(v) ==> parse_unsigned(s@, radix as nat, max as nat) == Some(v as nat),
        r is None ==> parse_unsigned(s@, radix as nat, max as nat) is None,
{
    let start: usize = if s.len() > 0 && s[0] == '+' { 1 } else { 0 };
    let ghost body = unsigned_body(s@);
    assert(body =~= s@.subrange(start as int, s.len() as int));
    if start >= s.len() {
        return None;
    }
    let mut v: u64 = 0;
    let mut i: usize = start;
    while i < s.len()
        invariant
            start <= i <= s.len(),
            body == s@.subrange(start as int, s.len() as int),
            body == unsigned_body(s@),
            all_digits(body.take(i - start), radix as nat),
            v as nat == digits_value(body.take(i - start), radix as nat),
            v <= max,
            radix == 10 || radix == 16,
        decreases s.len() - i,
    {
        let d = digit_of(s[i], radix);
        let ghost pre = body.take(i - start);
        assert(body.take(i - start + 1) =~= pre.push(s@[i as int]));
        proof {
            lemma_digits_value_push(pre, s@[i as int], radix as nat);
        }
        match d {
            None => {
                assert(!all_digits(body, radix as nat)) by {
                    assert(body[i - start] == s@[i as int]);
                    assert(digit_value(body[i - start], radix as nat) is None);
                }
                return None;
            },
            Some(dv) => {
                if dv > max || v > (max - dv) / radix {
                    proof {
                        let vi: int = v as int;
                        let ri: int = radix as int;
                        let di: int = dv as int;
                        let mi: int = max as int;
                        if di <= mi {
                            let q: int = (mi - di) / ri;
                            assert(vi * ri + di > mi) by (nonlinear_arith)
                                requires vi > q, q == (mi - di) / ri, ri > 0, di <= mi;
                        } else {
                            assert(vi * ri + di > mi) by (nonlinear_arith)
                                requires di > mi, vi >= 0, ri > 0;
                        }
                        lemma_digits_value_prefix_bound(body, i - start + 1, radix as nat);
                        assert(digit_value(s@[i as int], radix as nat) == Some(dv as nat));
                        assert(digits_value(body.take(i - start + 1), radix as nat) == vi * ri + di);
                        assert(digits_value(body, radix as nat) > max);
                    }
                    return None;
                }
                proof {
                    let vi: int = v as int;
                    let ri: int = radix as int;
                    let di: int = dv as int;
                    let mi: int = max as int;
                    let q: int = (mi - di) / ri;
                    assert(vi * ri + di <= mi) by (nonlinear_arith)
                        requires vi <= q, q == (mi - di) / ri, ri > 0, di <= mi;
                }
                v = v * radix + dv;
                i = i + 1;
            },
        }
    }
    assert(body.take(s.len() - start) =~= body);
    Some(v)
}


/// `n` copies of `c`.
pub open spec fn repeat(c: char, n: nat) -> Seq<char> {
    Seq::new(n, |i: int| c)
}

/// Appends `n` copies of `c` to `s`.
pub fn push_repeat(s: &mut String, c: char, n: usize)
    ensures
        final(s)@ == old(s)@ + repeat(c, n as nat),
{
    let ghost start = s@;
    let mut i: usize = 0;
    while i < n
        invariant
            i <= n,
            s@ == start + repeat(c, i as nat),
        decreases n - i,
    {
        push_char(s, c);
        i = i + 1;
        assert(repeat(c, i as nat) =~= repeat(c, (i - 1) as nat).push(c));
    }
}

/// Characters shown on screen: everything outside `ESC ... m` escape runs.
/// `escaped` tells whether an escape run is already open.
pub open spec fn visible_from(s: Seq<char>, escaped: bool) -> nat
    decreases s.len(),
{
    if s.len() == 0 {
        0
    } else if escaped {
        visible_from(s.drop_first(), s[0] != 'm')
    } else if s[0] == '\x1b' {
        visible_from(s.drop_first(), true)
    } else {
        1 + visible_from(s.drop_first(), false)
    }
}

/// Visible width of `s`: characters outside ANSI escape sequences.
pub open spec fn visible_width(s: Seq<char>) -> nat {
    visible_from(s, false)
}

/// Whether an escape run is still open at the end of `s`.
pub open spec fn escape_open_after(s: Seq<char>, escaped: bool) -> bool
    decreases s.len(),
{
    if s.len() == 0 {
        escaped
    } else if escaped {
        escape_open_after(s.drop_first(), s[0] != 'm')
    } else {
        escape_open_after(s.drop_first(), s[0] == '\x1b')
    }
}

/// Visible width splits over a concatenation.
pub proof fn lemma_visible_concat(a: Seq<char>, b: Seq<char>, escaped: bool)
    ensures
        visible_from(a + b, escaped) == visible_from(a, escaped) + visible_from(
            b,
            escape_open_after(a, escaped),
        ),
    decreases a.len(),
{
    if a.len() == 0 {
        assert(a + b =~= b);
    } else {
        assert((a + b).drop_first() =~= a.drop_first() + b);
        if escaped {
            lemma_visible_concat(a.drop_first(), b, a[0] != 'm');
        } else if a[0] == '\x1b' {
            lemma_visible_concat(a.drop_first(), b, true);
        } else {
            lemma_visible_concat(a.drop_first(), b, false);
        }
    }
}

/// Text without escape characters is entirely visible.
pub proof fn lemma_visible_plain(s: Seq<char>)
    requires
        forall|i: int| 0 <= i < s.len() ==> s[i] != '\x1b',
    ensures
        visible_width(s) == s.len(),
        !escape_open_after(s, false),
    decreases s.len(),
{
    if s.len() > 0 {
        assert(s[0] != '\x1b');
        lemma_visible_plain(s.drop_first());
    }
}

/// Placement of padding for [`padded`].
pub enum Align {
    Left,
    Center,
    Right,
}

/// `s` padded with spaces to a visible width of at least `width`.
pub open spec fn padded(s: Seq<char>, width: nat, align: Align) -> Seq<char> {
    let vis = visible_width(s);
    if vis >= width {
        s
    } else {
        let pad = (width - vis) as nat;
        match align {
            Align::Right => repeat(' ', pad) + s,
            Align::Center => repeat(' ', pad / 2) + s + repeat(' ', (pad - pad / 2) as nat),
            Align::Left => s + repeat(' ', pad),
        }
    }
}

/// The alignment an alignment character selects: `>` right, `^` center,
/// anything else left.
pub open spec fn align_of(c: char) -> Align {
    if c == '>' {
        Align::Right
    } else if c == '^' {
        Align::Center
    } else {
        Align::Left
    }
}

/// Pads a string containing ANSI codes to a target visible width.
/// `align`: `'<'` left, `'^'` center, `'>'` right.
pub fn pad_visible(s: &str, target_width: usize, align: char) -> (out: String)
    ensures
        out@ == padded(s@, target_width as nat, align_of(align)),
{
    let vis = visible_len(s);
    let mut out = String::new();
    if vis >= target_width {
        append_str(&mut out, s);
        return out;
    }
    let pad = target_width - vis;
    if align == '>' {
        push_repeat(&mut out, ' ', pad);
        append_str(&mut out, s);
    } else if align == '^' {
        let left = pad / 2;
        push_repeat(&mut out, ' ', left);
        append_str(&mut out, s);
        push_repeat(&mut out, ' ', pad - left);
    } else {
        append_str(&mut out, s);
        push_repeat(&mut out, ' ', pad);
    }
    out
}

/// Padding adds visible spaces: the result is exactly `width` wide when `s`
/// is narrower, and `s` itself otherwise.
pub proof fn lemma_padded_width(s: Seq<char>, width: nat, align: Align)
    requires
        !escape_open_after(s, false),
    ensures
        visible_width(padded(s, width, align)) == if visible_width(s) >= width {
            visible_width(s)
        } else {
            width
        },
{
    let vis = visible_width(s);
    if vis < width {
        let pad = (width - vis) as nat;
        let l = repeat(' ', pad / 2);
        let r = repeat(' ', (pad - pad / 2) as nat);
        let all = repeat(' ', pad);
        lemma_visible_plain(l);
        lemma_visible_plain(r);
        lemma_visible_plain(all);
        match align {
            Align::Right => {
                lemma_visible_concat(all, s, false);
            },
            Align::Center => {
                lemma_visible_concat(l, s, false);
                lemma_visible_concat(l + s, r, false);
                assert(escape_open_after(l + s, false) == false) by {
                    lemma_escape_concat(l, s, false);
                }
            },
            Align::Left => {
                lemma_visible_concat(s, all, false);
            },
        }
    }
}

/// Whether an escape run is open after a concatenation.
pub proof fn lemma_escape_concat(a: Seq<char>, b: Seq<char>, escaped: bool)
    ensures
        escape_open_after(a + b, escaped) == escape_open_after(b, escape_open_after(a, escaped)),
    decreases a.len(),
{
    if a.len() == 0 {
        assert(a + b =~= b);
    } else {
        assert((a + b).drop_first() =~= a.drop_first() + b);
        if escaped {
            lemma_escape_concat(a.drop_first(), b, a[0] != 'm');
        } else {
            lemma_escape_concat(a.drop_first(), b, a[0] == '\x1b');
        }
    }
}


/// Bytes `c` takes in UTF-8.
pub open spec fn utf8_width(c: char) -> nat {
    if (c as u32) <= 0x7f {
        1
    } else if (c as u32) <= 0x7ff {
        2
    } else if (c as u32) <= 0xffff {
        3
    } else {
        4
    }
}

/// Length of `s` in UTF-8 bytes.
pub open spec fn byte_len(s: Seq<char>) -> nat
    decreases s.len(),
{
    if s.len() == 0 {
        0
    } else {
        utf8_width(s[0]) + byte_len(s.drop_first())
    }
}

/// [`byte_len`] is the length of the UTF-8 encoding.
pub proof fn lemma_byte_len_encoding(s: Seq<char>)
    ensures
        byte_len(s) == vstd::utf8::encode_utf8(s).len(),
    decreases s.len(),
{
    if s.len() > 0 {
        vstd::utf8::char_is_scalar(s[0]);
        lemma_byte_len_encoding(s.drop_first());
    }
}

/// Exec form of [`utf8_width`].
pub fn utf8_width_of(c: char) -> (w: usize)
    ensures
        w == utf8_width(c),
{
    if (c as u32) <= 0x7f {
        1
    } else if (c as u32) <= 0x7ff {
        2
    } else if (c as u32) <= 0xffff {
        3
    } else {
        4
    }
}

pub proof fn lemma_byte_len_push(s: Seq<char>, c: char)
    ensures
        byte_len(s.push(c)) == byte_len(s) + utf8_width(c),
    decreases s.len(),
{
    if s.len() > 0 {
        assert(s.push(c).drop_first() =~= s.drop_first().push(c));
        assert(s.push(c)[0] == s[0]);
        lemma_byte_len_push(s.drop_first(), c);
    } else {
        assert(s.push(c).drop_first() =~= Seq::<char>::empty());
        assert(s.push(c)[0] == c);
        assert(byte_len(Seq::<char>::empty()) == 0);
    }
}

/// Whether the UTF-8 encoding of `cs` takes at most `max` bytes.
pub fn fits_in_bytes(cs: &[char], max: usize) -> (b: bool)
    ensures
        b == (byte_len(cs@) <= max),
{
    let mut used: usize = 0;
    let mut i: usize = 0;
    assert(cs@.take(0) =~= Seq::<char>::empty());
    while i < cs.len()
        invariant
            i <= cs.len(),
            used == byte_len(cs@.take(i as int)),
            used <= max,
        decreases cs.len() - i,
    {
        let w = utf8_width_of(cs[i]);
        assert(cs@.take(i + 1) =~= cs@.take(i as int).push(cs@[i as int]));
        proof {
            lemma_byte_len_push(cs@.take(i as int), cs@[i as int]);
        }
        if w > max - used {
            proof {
                lemma_byte_len_prefix(cs@, i + 1);
            }
            return false;
        }
        used = used + w;
        i = i + 1;
    }
    assert(cs@.take(cs.len() as int) =~= cs@);
    true
}

/// A prefix never takes more bytes than the whole.
pub proof fn lemma_byte_len_prefix(s: Seq<char>, k: int)
    requires
        0 <= k <= s.len(),
    ensures
        byte_len(s.take(k)) <= byte_len(s),
    decreases s.len() - k,
{
    if k < s.len() {
        lemma_byte_len_prefix(s, k + 1);
        assert(s.take(k + 1) =~= s.take(k).push(s[k]));
        lemma_byte_len_push(s.take(k), s[k]);
    } else {
        assert(s.take(k) =~= s);
    }
}

/// Number of leading characters of `s` whose UTF-8 encoding fits in `budget`
/// bytes: the longest prefix that ends on a character boundary within it.
pub open spec fn fitting_prefix(s: Seq<char>, budget: nat) -> nat
    decreases s.len(),
{
    if s.len() > 0 && utf8_width(s[0]) <= budget {
        1 + fitting_prefix(s.drop_first(), (budget - utf8_width(s[0])) as nat)
    } else {
        0
    }
}

/// `s` cut to at most `max` UTF-8 bytes: unchanged when it fits, otherwise
/// the longest whole-character prefix within `max - 3` bytes followed by
/// `...`; where `max` leaves no room for the three dots, as many dots as fit.
pub open spec fn truncated(s: Seq<char>, max: nat) -> Seq<char> {
    if byte_len(s) <= max {
        s
    } else if max >= 3 {
        s.take(fitting_prefix(s, (max - 3) as nat) as int) + seq!['.', '.', '.']
    } else {
        repeat('.', max)
    }
}

proof fn lemma_fitting_prefix_step(s: Seq<char>, budget: nat, k: int)
    requires
        0 <= k < s.len(),
        fitting_prefix(s, budget) == k + fitting_prefix(s.subrange(k, s.len() as int), (budget - byte_len(s.take(k))) as nat),
        byte_len(s.take(k)) <= budget,
    ensures
        byte_len(s.take(k)) + utf8_width(s[k]) <= budget ==> fitting_prefix(s, budget) == k + 1
            + fitting_prefix(s.subrange(k + 1, s.len() as int), (budget - byte_len(s.take(k + 1))) as nat),
        byte_len(s.take(k)) + utf8_width(s[k]) > budget ==> fitting_prefix(s, budget) == k,
        byte_len(s.take(k + 1)) == byte_len(s.take(k)) + utf8_width(s[k]),
{
    let rest = s.subrange(k, s.len() as int);
    assert(rest.drop_first() =~= s.subrange(k + 1, s.len() as int));
    assert(s.take(k + 1) =~= s.take(k).push(s[k]));
    lemma_byte_len_push(s.take(k), s[k]);
}

/// The fitting prefix fits its budget.
proof fn lemma_fitting_prefix_fits(s: Seq<char>, budget: nat)
    ensures
        byte_len(s.take(fitting_prefix(s, budget) as int)) <= budget,
        fitting_prefix(s, budget) <= s.len(),
    decreases s.len(),
{
    if s.len() > 0 && utf8_width(s[0]) <= budget {
        let rest = s.drop_first();
        let b2 = (budget - utf8_width(s[0])) as nat;
        lemma_fitting_prefix_fits(rest, b2);
        let k = fitting_prefix(rest, b2);
        let t = s.take(1 + k as int);
        assert(t.drop_first() =~= rest.take(k as int));
        assert(t[0] == s[0]);
    } else {
        assert(s.take(0) =~= Seq::<char>::empty());
    }
}

/// A truncated text takes at most `max` bytes, the dots included.
pub proof fn lemma_truncated_fits(s: Seq<char>, max: nat)
    ensures
        byte_len(truncated(s, max)) <= max,
{
    if byte_len(s) > max && max < 3 {
        lemma_byte_len_dots(max);
    } else if byte_len(s) > max {
        let budget = (max - 3) as nat;
        let p = s.take(fitting_prefix(s, budget) as int);
        lemma_fitting_prefix_fits(s, budget);
        let dots = seq!['.', '.', '.'];
        assert(byte_len(dots) == 3) by {
            let d1 = seq!['.'];
            let d2 = seq!['.', '.'];
            assert(utf8_width('.') == 1);
            assert(d1.drop_first() =~= Seq::<char>::empty());
            assert(byte_len(d1.drop_first()) == 0);
            assert(byte_len(d1) == 1);
            assert(d2.drop_first() =~= d1);
            assert(byte_len(d2) == 2);
            assert(dots.drop_first() =~= d2);
        }
        lemma_byte_len_concat_text(p, dots);
    }
}

/// A run of dots takes one byte per dot.
proof fn lemma_byte_len_dots(n: nat)
    ensures
        byte_len(repeat('.', n)) == n,
    decreases n,
{
    if n > 0 {
        assert(repeat('.', n).drop_first() =~= repeat('.', (n - 1) as nat));
        assert(utf8_width('.') == 1);
        lemma_byte_len_dots((n - 1) as nat);
    } else {
        assert(repeat('.', n) =~= Seq::<char>::empty());
    }
}

/// Byte length splits over a concatenation.
pub proof fn lemma_byte_len_concat_text(a: Seq<char>, b: Seq<char>)
    ensures
        byte_len(a + b) == byte_len(a) + byte_len(b),
    decreases a.len(),
{
    if a.len() > 0 {
        assert((a + b).drop_first() =~= a.drop_first() + b);
        assert((a + b)[0] == a[0]);
        lemma_byte_len_concat_text(a.drop_first(), b);
    } else {
        assert(a + b =~= b);
    }
}

/// Truncates `s` to at most `max` bytes, respecting character boundaries;
/// when shortened, `...` is appended, the whole staying within `max`.
pub fn truncate_str(s: &str, max: usize) -> (out: String)
    ensures
        out@ == truncated(s@, max as nat),
{
    let cs = chars_of(s);
    let mut out = String::new();
    if fits_in_bytes(&cs, max) {
        append_str(&mut out, s);
        return out;
    }
    if max < 3 {
        push_repeat(&mut out, '.', max);
        assert(out@ =~= repeat('.', max as nat));
        return out;
    }
    let budget: usize = max - 3;
    let k = fitting_prefix_len(&cs, budget);
    let head = prefix_of(&cs, k);
    append_chars(&mut out, &head);
    append_chars(&mut out, &['.', '.', '.']);
    out
}

/// Characters a terminal treats as controls (Unicode category Cc).
pub open spec fn is_control(c: char) -> bool {
    c < ' ' || ('\u{7f}' <= c && c <= '\u{9f}')
}

/// A character [`sanitize`] keeps when outside an escape sequence.
pub open spec fn is_safe_char(c: char) -> bool {
    c == ' ' || c == '\t' || c == '\n' || (!is_control(c) && !('\u{80}' <= c && c <= '\u{9f}'))
}

/// A character that ends an escape sequence for [`sanitize`].
pub open spec fn ends_escape(c: char) -> bool {
    c == 'm' || c == 'H' || c == 'J' || c == 'K' || c == 'A' || c == 'B' || c == 'C' || c == 'D'
}

/// The characters [`sanitize`] keeps, given whether an escape sequence is open.
pub open spec fn sanitized_from(s: Seq<char>, escaped: bool) -> Seq<char>
    decreases s.len(),
{
    if s.len() == 0 {
        Seq::empty()
    } else if escaped {
        sanitized_from(s.drop_first(), !ends_escape(s[0]))
    } else if s[0] == '\x1b' {
        sanitized_from(s.drop_first(), true)
    } else if is_safe_char(s[0]) {
        seq![s[0]] + sanitized_from(s.drop_first(), false)
    } else {
        sanitized_from(s.drop_first(), false)
    }
}

/// Text cleaned of escape sequences and control characters.
pub open spec fn sanitized(s: Seq<char>) -> Seq<char> {
    sanitized_from(s, false)
}

/// Strips C0 control characters (except tab and newline), C1 controls, and
/// ANSI escape sequences from server-controlled text.
pub fn sanitize(s: &str) -> (out: String)
    ensures
        out@ == sanitized(s@),
{
    let cs = chars_of(s);
    let mut out = String::new();
    let mut in_escape = false;
    let mut i: usize = 0;
    assert(cs@.subrange(0, cs.len() as int) =~= cs@);
    while i < cs.len()
        invariant
            i <= cs.len(),
            cs@ == s@,
            sanitized(cs@) == out@ + sanitized_from(cs@.subrange(i as int, cs.len() as int), in_escape),
        decreases cs.len() - i,
    {
        let ch = cs[i];
        let ghost rest = cs@.subrange(i as int, cs.len() as int);
        assert(rest.drop_first() =~= cs@.subrange(i + 1, cs.len() as int));
        if in_escape {
            if ch == 'm' || ch == 'H' || ch == 'J' || ch == 'K' || ch == 'A' || ch == 'B' || ch
                == 'C' || ch == 'D' {
                in_escape = false;
            }
        } else if ch == '\x1b' {
            in_escape = true;
        } else if ch == ' ' || ch == '\t' || ch == '\n' || (!(ch < ' ' || ('\u{7f}' <= ch && ch
            <= '\u{9f}')) && !('\u{80}' <= ch && ch <= '\u{9f}')) {
            let ghost before = out@;
            push_char(&mut out, ch);
            assert(out@ + sanitized_from(rest.drop_first(), false) =~= before + (seq![ch]
                + sanitized_from(rest.drop_first(), false)));
        }
        i = i + 1;
    }
    assert(out@ =~= out@ + Seq::<char>::empty());
    out
}

/// Every character of the sanitized text is safe to print.
pub proof fn lemma_sanitized_safe(s: Seq<char>, escaped: bool)
    ensures
        forall|i: int|
            0 <= i < sanitized_from(s, escaped).len() ==> is_safe_char(
                #[trigger] sanitized_from(s, escaped)[i],
            ) && sanitized_from(s, escaped)[i] != '\x1b',
    decreases s.len(),
{
    if s.len() > 0 {
        if escaped {
            lemma_sanitized_safe(s.drop_first(), !ends_escape(s[0]));
            assert(sanitized_from(s, escaped) == sanitized_from(s.drop_first(), !ends_escape(s[0])));
        } else if s[0] == '\x1b' {
            lemma_sanitized_safe(s.drop_first(), true);
            assert(sanitized_from(s, escaped) == sanitized_from(s.drop_first(), true));
        } else {
            lemma_sanitized_safe(s.drop_first(), false);
            let t = sanitized_from(s.drop_first(), false);
            if !is_safe_char(s[0]) {
                assert(sanitized_from(s, escaped) == t);
            }
            if is_safe_char(s[0]) {
                assert forall|i: int| 0 <= i < (seq![s[0]] + t).len() implies is_safe_char(
                    #[trigger] (seq![s[0]] + t)[i],
                ) && (seq![s[0]] + t)[i] != '\x1b' by {
                    if i > 0 {
                        assert((seq![s[0]] + t)[i] == t[i - 1]);
                    }
                }
            }
        }
    }
}

/// Text made only of safe characters passes through unchanged.
pub proof fn lemma_sanitized_keeps_safe(s: Seq<char>)
    requires
        forall|i: int| 0 <= i < s.len() ==> is_safe_char(s[i]) && s[i] != '\x1b',
    ensures
        sanitized(s) == s,
    decreases s.len(),
{
    if s.len() > 0 {
        lemma_sanitized_keeps_safe(s.drop_first());
        assert(seq![s[0]] + s.drop_first() =~= s);
    }
}

/// Sanitizing is idempotent: cleaned text stays as it is.
pub proof fn lemma_sanitize_idempotent(s: Seq<char>)
    ensures
        sanitized(sanitized(s)) == sanitized(s),
{
    lemma_sanitized_safe(s, false);
    lemma_sanitized_keeps_safe(sanitized(s));
}

/// Digits of `d` with a `,` before every group of three counted from the
/// right: the characters up to index `k`.
pub open spec fn grouped_prefix(d: Seq<char>, k: nat) -> Seq<char>
    decreases k,
{
    if k == 0 {
        Seq::empty()
    } else {
        let i = (k - 1) as nat;
        let piece = if i > 0 && (d.len() - i) % 3 == 0 {
            seq![',', d[i as int]]
        } else {
            seq![d[i as int]]
        };
        grouped_prefix(d, i) + piece
    }
}

/// `num` in decimal with thousands separators.
pub open spec fn with_commas_spec(num: nat) -> Seq<char> {
    grouped_prefix(decimal(num), decimal(num).len())
}

/// Formats `num` with `,` between groups of three digits.
pub fn with_commas(num: u64) -> (out: String)
    ensures
        out@ == with_commas_spec(num as nat),
{
    let raw = u64_to_string(num);
    let cs = chars_of(raw.as_str());
    let len = cs.len();
    let mut out = String::new();
    let mut i: usize = 0;
    while i < len
        invariant
            i <= len,
            len == cs.len(),
            cs@ == decimal(num as nat),
            out@ == grouped_prefix(cs@, i as nat),
        decreases len - i,
    {
        if i > 0 && (len - i) % 3 == 0 {
            push_char(&mut out, ',');
        }
        push_char(&mut out, cs[i]);
        i = i + 1;
        assert(out@ =~= grouped_prefix(cs@, i as nat));
    }
    out
}


/// Pieces of `s` between occurrences of `sep`, `cur` being the piece
/// gathered so far (as `str::split` yields them: empty pieces included).
pub open spec fn split_from(s: Seq<char>, sep: char, cur: Seq<char>) -> Seq<Seq<char>>
    decreases s.len(),
{
    if s.len() == 0 {
        seq![cur]
    } else if s[0] == sep {
        seq![cur] + split_from(s.drop_first(), sep, Seq::empty())
    } else {
        split_from(s.drop_first(), sep, cur.push(s[0]))
    }
}

/// `s` split on `sep`.
pub open spec fn split_on(s: Seq<char>, sep: char) -> Seq<Seq<char>> {
    split_from(s, sep, Seq::empty())
}

/// The views of a vector of character vectors.
pub open spec fn views(v: Seq<Vec<char>>) -> Seq<Seq<char>> {
    v.map_values(|x: Vec<char>| x@)
}

/// Splits `s` on `sep`.
pub fn split_chars(s: &[char], sep: char) -> (parts: Vec<Vec<char>>)
    ensures
        views(parts@) == split_on(s@, sep),
{
    let mut parts: Vec<Vec<char>> = Vec::new();
    let mut cur: Vec<char> = Vec::new();
    let mut i: usize = 0;
    assert(s@.subrange(0, s.len() as int) =~= s@);
    assert(views(parts@) =~= Seq::<Seq<char>>::empty());
    while i < s.len()
        invariant
            i <= s.len(),
            split_on(s@, sep) == views(parts@) + split_from(s@.subrange(i as int, s.len() as int), sep, cur@),
        decreases s.len() - i,
    {
        let ghost rest = s@.subrange(i as int, s.len() as int);
        assert(rest.drop_first() =~= s@.subrange(i + 1, s.len() as int));
        if s[i] == sep {
            let ghost before = views(parts@);
            let done = cur;
            parts.push(done);
            cur = Vec::new();
            assert(views(parts@) =~= before + seq![done@]);
            assert(cur@ =~= Seq::<char>::empty());
            assert(views(parts@) + split_from(rest.drop_first(), sep, cur@) =~= before + (seq![done@]
                + split_from(rest.drop_first(), sep, Seq::empty())));
        } else {
            let ghost old_cur = cur@;
            cur.push(s[i]);
            assert(cur@ == old_cur.push(s@[i as int]));
        }
        i = i + 1;
    }
    let ghost before = views(parts@);
    let last = cur;
    parts.push(last);
    assert(views(parts@) =~= before + seq![last@]);
    parts
}


/// Number of leading characters of `cs` that fit in `budget` UTF-8 bytes.
pub fn fitting_prefix_len(cs: &[char], budget: usize) -> (k: usize)
    ensures
        k == fitting_prefix(cs@, budget as nat),
        k <= cs.len(),
        byte_len(cs@.take(k as int)) <= budget,
{
    let mut k: usize = 0;
    let mut used: usize = 0;
    assert(cs@.subrange(0, cs.len() as int) =~= cs@);
    assert(cs@.take(0) =~= Seq::<char>::empty());
    loop
        invariant
            k <= cs.len(),
            used == byte_len(cs@.take(k as int)),
            used <= budget,
            fitting_prefix(cs@, budget as nat) == k + fitting_prefix(
                cs@.subrange(k as int, cs.len() as int),
                (budget - used) as nat,
            ),
        ensures
            k <= cs.len(),
            used == byte_len(cs@.take(k as int)),
            used <= budget,
            fitting_prefix(cs@, budget as nat) == k,
        decreases cs.len() - k,
    {
        if k == cs.len() {
            assert(cs@.subrange(k as int, cs.len() as int).len() == 0);
            break;
        }
        let w = utf8_width_of(cs[k]);
        proof {
            lemma_fitting_prefix_step(cs@, budget as nat, k as int);
        }
        if w > budget - used {
            break;
        }
        used = used + w;
        k = k + 1;
    }
    k
}

} // verus!
