//! Text helpers that the rest of the crate shares: decimal and hexadecimal digits, blank and
//! substring tests, lower case.

use vstd::prelude::*;

verus! {

/// `String::push` appends the character to the end of the string.
pub assume_specification[ String::push ](s: &mut String, c: char)
    ensures
        final(s)@ == old(s)@.push(c),
;

/// `==` on `str`: two string slices are equal exactly when they hold the same characters in the
/// same order.
pub assume_specification[ <str as PartialEq>::eq ](s: &str, other: &str) -> (res: bool)
    ensures
        res == (s@ == other@),
;

/// The text in `s`, if there is one.
pub open spec fn opt_view(s: Option<String>) -> Option<Seq<char>> {
    match s {
        Some(t) => Some(t@),
        None => None,
    }
}

/// The lower-case equivalent of a text that is not empty, as `str::to_lowercase` gives it.
pub uninterp spec fn lowercase_mapping(s: Seq<char>) -> Seq<char>;

/// The lower-case equivalent of `s`.
pub open spec fn lowercase(s: Seq<char>) -> Seq<char> {
    if s.len() == 0 {
        Seq::empty()
    } else {
        lowercase_mapping(s)
    }
}

/// `str::to_lowercase`: the Unicode lower-case mapping of the whole string. An empty string has an
/// empty one. What any other maps to is named [`lowercase_mapping`]; no more is claimed of that than
/// that the same text always gives the same result.
pub assume_specification[ str::to_lowercase ](s: &str) -> (res: String)
    ensures
        s@.len() == 0 ==> res@.len() == 0,
        s@.len() > 0 ==> res@ == lowercase_mapping(s@),
;

/// `needle` occurs in `hay` as a run of consecutive characters.
pub open spec fn has_substring(hay: Seq<char>, needle: Seq<char>) -> bool {
    exists|i: int|
        0 <= i <= hay.len() - needle.len() && #[trigger] hay.subrange(i, i + needle.len())
            == needle
}

/// Calls `str::contains` with a string pattern: true exactly when the pattern matches a sub-slice
/// of the string.
#[verifier::external_body]
pub(crate) fn str_contains(hay: &str, needle: &str) -> (found: bool)
    ensures
        found == has_substring(hay@, needle@),
{
    hay.contains(needle)
}

/// The characters with the Unicode property `White_Space`.
pub open spec fn is_white_space(c: char) -> bool {
    ||| '\u{9}' <= c <= '\u{d}'
    ||| c == ' '
    ||| c == '\u{85}'
    ||| c == '\u{a0}'
    ||| c == '\u{1680}'
    ||| '\u{2000}' <= c <= '\u{200a}'
    ||| c == '\u{2028}'
    ||| c == '\u{2029}'
    ||| c == '\u{202f}'
    ||| c == '\u{205f}'
    ||| c == '\u{3000}'
}

/// Nothing is left of `s` once white space is trimmed.
pub open spec fn blank(s: Seq<char>) -> bool {
    forall|i: int| 0 <= i < s.len() ==> is_white_space(#[trigger] s[i])
}

/// Tells whether `s` is empty or holds nothing but white space.
pub fn is_blank(s: &str) -> (res: bool)
    ensures
        res == blank(s@),
{
    for c in it: s.chars()
        invariant
            it.seq() == s@,
            blank(s@.take(it.index())),
    {
        if !(('\u{9}' <= c && c <= '\u{d}') || c == ' ' || c == '\u{85}' || c == '\u{a0}' || c
            == '\u{1680}' || ('\u{2000}' <= c && c <= '\u{200a}') || c == '\u{2028}' || c
            == '\u{2029}' || c == '\u{202f}' || c == '\u{205f}' || c == '\u{3000}') {
            assert(s@[it.index()] == c);
            return false;
        }
        assert(s@.take(it.index() + 1) =~= s@.take(it.index()).push(c));
    }
    assert(s@.take(s@.len() as int) =~= s@);
    true
}

/// The lower-case hexadecimal digit of `d`, for `d` below 16.
pub open spec fn hex_digit(d: int) -> char {
    "0123456789abcdef"@[d]
}

/// The lower-case hexadecimal digit of `d`.
pub fn hex_char(d: u32) -> (c: char)
    requires
        d < 16,
    ensures
        c == hex_digit(d as int),
{
    proof {
        reveal_strlit("0123456789abcdef");
    }
    "0123456789abcdef".get_char(d as usize)
}

/// `n` in decimal, without leading zeros.
pub open spec fn decimal(n: nat) -> Seq<char>
    decreases n,
{
    if n < 10 {
        seq![hex_digit(n as int)]
    } else {
        decimal(n / 10).push(hex_digit((n % 10) as int))
    }
}

/// Writes `n` in decimal.
pub fn decimal_text(n: usize) -> (out: String)
    ensures
        out@ == decimal(n as nat),
    decreases n,
{
    let mut out = if n < 10 {
        String::new()
    } else {
        decimal_text(n / 10)
    };
    out.push(hex_char((n % 10) as u32));
    out
}

/// A text that is not empty has the lower case that `str::to_lowercase` maps it to, whatever its
/// length; the empty text has the empty one.
pub proof fn lowercase_is_the_mapping(s: Seq<char>)
    ensures
        s.len() > 0 ==> lowercase(s) == lowercase_mapping(s),
        s.len() == 0 ==> lowercase(s) == Seq::<char>::empty(),
{
}

/// A text occurs wherever it stands between two others.
pub proof fn substring_between(before: Seq<char>, t: Seq<char>, after: Seq<char>)
    ensures
        has_substring(before + t + after, t),
{
    let all = before + t + after;
    let i = before.len() as int;
    assert(all.subrange(i, i + t.len()) =~= t);
}

/// Where a text occurs, something stands before it and something after it, if only nothing.
pub proof fn substring_splits(hay: Seq<char>, needle: Seq<char>)
    requires
        has_substring(hay, needle),
    ensures
        exists|before: Seq<char>, after: Seq<char>| hay == #[trigger] (before + needle + after),
{
    let i = choose|i: int|
        0 <= i <= hay.len() - needle.len() && #[trigger] hay.subrange(i, i + needle.len())
            == needle;
    let before = hay.take(i);
    let after = hay.skip(i + needle.len());
    assert(hay =~= before + needle + after);
}

/// The white space of Unicode, by code point.
pub proof fn white_space_code_points(c: char)
    ensures
        is_white_space(c) <==> ({
            let n = c as int;
            9 <= n <= 13 || n == 0x20 || n == 0x85 || n == 0xa0 || n == 0x1680 || 0x2000 <= n
                <= 0x200a || n == 0x2028 || n == 0x2029 || n == 0x202f || n == 0x205f || n
                == 0x3000
        }),
{
}

/// Nothing is blank, one character is blank if it is white space, and two texts together are blank
/// if both are.
pub proof fn blank_by_parts(a: Seq<char>, b: Seq<char>, c: char)
    ensures
        blank(Seq::empty()),
        blank(seq![c]) <==> is_white_space(c),
        blank(a + b) <==> blank(a) && blank(b),
{
    if blank(seq![c]) {
        assert(is_white_space(seq![c][0]));
    }
    if blank(a + b) {
        assert forall|i: int| 0 <= i < a.len() implies is_white_space(#[trigger] a[i]) by {
            assert((a + b)[i] == a[i]);
        }
        assert forall|i: int| 0 <= i < b.len() implies is_white_space(#[trigger] b[i]) by {
            assert((a + b)[a.len() + i] == b[i]);
        }
    }
}

/// A single visible character keeps a text from being blank, wherever it stands.
pub proof fn visible_character_is_not_blank(before: Seq<char>, c: char, after: Seq<char>)
    requires
        !is_white_space(c),
    ensures
        !blank(before.push(c) + after),
{
    let s = before.push(c) + after;
    assert(s[before.len() as int] == c);
}

/// The hexadecimal digits are `0` to `9`, then `a` to `f`.
pub proof fn hex_digit_code_points(d: int)
    requires
        0 <= d < 16,
    ensures
        hex_digit(d) as int == if d < 10 {
            48 + d
        } else {
            87 + d
        },
{
    reveal_strlit("0123456789abcdef");
}

/// In decimal, a number below ten is its digit, and a larger one is its tens followed by its ones.
pub proof fn decimal_by_digits(tens: nat, ones: nat)
    requires
        ones < 10,
    ensures
        decimal(ones).len() == 1,
        decimal(ones)[0] as int == 48 + ones,
        tens > 0 ==> decimal(10 * tens + ones) == decimal(tens) + decimal(ones),
{
    hex_digit_code_points(ones as int);
    if tens > 0 {
        let n = 10 * tens + ones;
        assert(n / 10 == tens && n % 10 == ones);
        assert(decimal(n) =~= decimal(tens) + decimal(ones));
    }
}

} // verus!
