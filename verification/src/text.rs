//! Text: what the library needs from `str` beyond what the verifier's
//! standard library already describes, and the decimal numbers that arrive
//! as text.

use vstd::prelude::*;
use vstd::string::{StrSliceExecFns, StringExecFns};

verus! {

/// `str`'s `==` compares the characters of the two slices.
pub assume_specification[ <str as PartialEq>::eq ](a: &str, b: &str) -> (same: bool)
    ensures
        same == (a@ == b@),
;

/// Whether two texts hold the same characters.
pub fn same_text(a: &str, b: &str) -> (same: bool)
    ensures
        same == (a@ == b@),
{
    *a == *b
}

/// The characters of an optional text.
pub open spec fn option_text(text: Option<String>) -> Option<Seq<char>> {
    match text {
        Some(t) => Some(t@),
        None => None,
    }
}

/// The characters of an optional borrowed text.
pub open spec fn option_ref_text(text: Option<&String>) -> Option<Seq<char>> {
    match text {
        Some(t) => Some(t@),
        None => None,
    }
}

/// A text, or `default` in its place.
pub open spec fn text_or(text: Option<Seq<char>>, default: Seq<char>) -> Seq<char> {
    match text {
        Some(t) => t,
        None => default,
    }
}

/// The views of a list of texts.
pub open spec fn texts_view(texts: Seq<String>) -> Seq<Seq<char>> {
    texts.map_values(|t: String| t@)
}

/// Whether a text begins with another.
pub fn starts_with(text: &str, prefix: &str) -> (yes: bool)
    ensures
        yes == prefix@.is_prefix_of(text@),
{
    let needed = prefix.unicode_len();
    if text.unicode_len() < needed {
        false
    } else {
        same_text(text.substring_char(0, needed), prefix)
    }
}

/// A text without its first `count` characters.
pub fn skip_chars(text: &str, count: usize) -> (rest: &str)
    requires
        count <= text@.len(),
    ensures
        rest@ == text@.skip(count as int),
{
    text.substring_char(count, text.unicode_len())
}

/// The length of a text in bytes of UTF-8.
pub open spec fn utf8_len(text: Seq<char>) -> usize {
    vstd::utf8::encode_utf8(text).len() as usize
}

/// A text of ASCII characters has as many bytes as characters.
pub proof fn lemma_utf8_len_of_ascii(text: Seq<char>)
    requires
        vstd::utf8::is_ascii_chars(text),
        text.len() <= usize::MAX,
    ensures
        utf8_len(text) == text.len(),
{
    vstd::utf8::is_ascii_chars_encode_utf8(text);
}

/// Whether `c` is white space as Unicode defines it (the property
/// `White_Space`), which is what `char::is_whitespace` tests: the controls
/// from tab to carriage return, the space, the next-line control, the
/// no-break space, the Ogham space mark, the spaces from en quad to hair
/// space, the line and paragraph separators, the narrow no-break space, the
/// medium mathematical space and the ideographic space.
pub open spec fn is_whitespace(c: char) -> bool {
    let code = c as int;
    ||| 0x0009 <= code <= 0x000D
    ||| code == 0x0020
    ||| code == 0x0085
    ||| code == 0x00A0
    ||| code == 0x1680
    ||| 0x2000 <= code <= 0x200A
    ||| code == 0x2028
    ||| code == 0x2029
    ||| code == 0x202F
    ||| code == 0x205F
    ||| code == 0x3000
}

/// `s` without the white space at its start.
pub open spec fn trimmed_start(s: Seq<char>) -> Seq<char>
    decreases s.len(),
{
    if s.len() > 0 && is_whitespace(s.first()) {
        trimmed_start(s.drop_first())
    } else {
        s
    }
}

/// `s` without the white space at its end.
pub open spec fn trimmed_end(s: Seq<char>) -> Seq<char>
    decreases s.len(),
{
    if s.len() > 0 && is_whitespace(s.last()) {
        trimmed_end(s.drop_last())
    } else {
        s
    }
}

/// `s` without the white space at its start and at its end.
pub open spec fn trimmed(s: Seq<char>) -> Seq<char> {
    trimmed_end(trimmed_start(s))
}

/// What is left of a text without the white space at its start is empty or
/// begins with a character that is not white space, and is the end of the
/// text.
pub proof fn lemma_trimmed_start(s: Seq<char>)
    ensures
        trimmed_start(s).len() > 0 ==> !is_whitespace(trimmed_start(s).first()),
        trimmed_start(s).len() <= s.len(),
        trimmed_start(s) == s.skip(s.len() - trimmed_start(s).len()),
    decreases s.len(),
{
    if s.len() > 0 && is_whitespace(s.first()) {
        lemma_trimmed_start(s.drop_first());
        let rest = trimmed_start(s.drop_first());
        assert(s.drop_first().skip(s.drop_first().len() - rest.len()) =~= s.skip(
            s.len() - rest.len(),
        ));
    } else {
        assert(s.skip(0) =~= s);
    }
}

/// What is left of a text without the white space at its end is empty or
/// ends with a character that is not white space, and is the start of the
/// text.
pub proof fn lemma_trimmed_end(s: Seq<char>)
    ensures
        trimmed_end(s).len() > 0 ==> !is_whitespace(trimmed_end(s).last()),
        trimmed_end(s).len() <= s.len(),
        trimmed_end(s) == s.take(trimmed_end(s).len() as int),
    decreases s.len(),
{
    if s.len() > 0 && is_whitespace(s.last()) {
        lemma_trimmed_end(s.drop_last());
        let rest = trimmed_end(s.drop_last());
        assert(s.drop_last().take(rest.len() as int) =~= s.take(rest.len() as int));
    } else {
        assert(s.take(s.len() as int) =~= s);
    }
}

/// A trimmed text is a piece of the text that neither begins nor ends with
/// white space, and trimming it again changes nothing.
pub proof fn lemma_trimmed(s: Seq<char>)
    ensures
        trimmed(s).len() <= s.len(),
        trimmed(s).len() > 0 ==> !is_whitespace(trimmed(s).first()) && !is_whitespace(
            trimmed(s).last(),
        ),
        exists|from: int|
            0 <= from <= s.len() - trimmed(s).len() && trimmed(s) == #[trigger] s.subrange(
                from,
                from + trimmed(s).len(),
            ),
        trimmed(trimmed(s)) == trimmed(s),
{
    let start = trimmed_start(s);
    let both = trimmed_end(start);
    lemma_trimmed_start(s);
    lemma_trimmed_end(start);
    if both.len() > 0 {
        assert(both.first() == start.first());
    }
    let from = s.len() - start.len();
    assert(both =~= s.subrange(from, from + both.len()));
    assert(trimmed_start(both) == both);
    assert(trimmed_end(both) == both);
}

/// `str::trim` returns the slice between the first and the last character
/// that is not white space, and the empty slice where there is none.
pub assume_specification[ str::trim ](s: &str) -> (rest: &str)
    ensures
        rest@ == trimmed(s@),
;

/// The lower-case form of a text, as `str::to_lowercase` gives it. It follows
/// Unicode's case mappings, so a character may become several, and the result
/// may be longer than the text.
pub uninterp spec fn lowercase(s: Seq<char>) -> Seq<char>;

/// `str::to_lowercase` returns the lower-case form of the slice as a new
/// `String`.
pub assume_specification[ str::to_lowercase ](s: &str) -> (lower: String)
    ensures
        lower@ == lowercase(s@),
;

/// Whether `c` is one of the ten ASCII digits.
pub open spec fn is_digit(c: char) -> bool {
    '0' <= c <= '9'
}

/// The number that a digit stands for.
pub open spec fn digit_value(c: char) -> int {
    c as int - '0' as int
}

/// The number that a run of digits stands for, read in base ten.
pub open spec fn digits_value(digits: Seq<char>) -> int
    decreases digits.len(),
{
    if digits.len() == 0 {
        0
    } else {
        digits_value(digits.drop_last()) * 10 + digit_value(digits.last())
    }
}

/// Whether every character of `s` is an ASCII digit.
pub open spec fn all_digits(s: Seq<char>) -> bool {
    forall|i: int| 0 <= i < s.len() ==> is_digit(#[trigger] s[i])
}

/// The part of a decimal number that follows its sign, if it has one.
pub open spec fn unsigned_part(s: Seq<char>) -> Seq<char> {
    if s.len() > 0 && (s[0] == '-' || s[0] == '+') {
        s.drop_first()
    } else {
        s
    }
}

/// The integer that a text denotes: an optional `+` or `-`, then one or more
/// ASCII digits and nothing else. `None` where the text has another shape or
/// the integer does not fit in an `i64`.
pub open spec fn decimal_i64(s: Seq<char>) -> Option<i64> {
    let digits = unsigned_part(s);
    let magnitude = digits_value(digits);
    let value = if s.len() > 0 && s[0] == '-' {
        -magnitude
    } else {
        magnitude
    };
    if digits.len() > 0 && all_digits(digits) && i64::MIN <= value <= i64::MAX {
        Some(value as i64)
    } else {
        None
    }
}

/// How many characters after the sign have been read once `index`
/// characters have been read.
pub open spec fn digits_read(index: int, signed: bool) -> int {
    if signed {
        index - 1
    } else {
        index
    }
}

/// Reads a decimal integer. Leading zeros are accepted; white space, a sign
/// alone and digits outside ASCII are not.
pub fn parse_i64(s: &str) -> (parsed: Option<i64>)
    ensures
        parsed == decimal_i64(s@),
{
    let mut negative = false;
    let mut signed = false;
    let mut any_digit = false;
    let mut magnitude: i128 = 0;
    let mut too_large = false;
    let limit: i128 = 0x8000_0000_0000_0000;
    let ghost digits = unsigned_part(s@);
    for c in it: s.chars()
        invariant
            limit == 0x8000_0000_0000_0000,
            digits == unsigned_part(s@),
            it.seq() == s@,
            signed <==> it.index() > 0 && (s@[0] == '-' || s@[0] == '+'),
            negative <==> it.index() > 0 && s@[0] == '-',
            any_digit <==> digits_read(it.index(), signed) > 0,
            it.index() > 0 ==> all_digits(digits.take(digits_read(it.index(), signed))),
            it.index() == 0 ==> magnitude == 0 && !too_large,
            0 <= magnitude <= limit,
            it.index() > 0 && !too_large ==> magnitude == digits_value(
                digits.take(digits_read(it.index(), signed)),
            ),
            too_large ==> digits_value(digits.take(digits_read(it.index(), signed))) > limit,
    {
        let ghost seen = digits_read(it.index(), signed);
        if !any_digit && !signed && (c == '-' || c == '+') {
            signed = true;
            negative = c == '-';
            proof {
                assert(digits.take(0) =~= Seq::<char>::empty());
            }
        } else {
            if !(c >= '0' && c <= '9') {
                proof {
                    assert(digits[seen] == c);
                    assert(!is_digit(digits[seen]));
                }
                return None;
            }
            let digit: i128 = (c as u32 - '0' as u32) as i128;
            proof {
                let before = digits.take(seen);
                let after = digits.take(seen + 1);
                assert(digits[seen] == c);
                assert(after.drop_last() =~= before);
                assert(after.last() == c);
                assert(before.len() == 0 ==> digits_value(before) == 0);
                assert(digits_value(after) == digits_value(before) * 10 + digit);
                assert(all_digits(after));
            }
            if too_large || magnitude * 10 + digit > limit {
                too_large = true;
            } else {
                magnitude = magnitude * 10 + digit;
            }
            any_digit = true;
        }
    }
    proof {
        assert(digits.take(digits.len() as int) =~= digits);
    }
    if !any_digit || too_large {
        return None;
    }
    if negative {
        Some((-magnitude) as i64)
    } else if magnitude == limit {
        None
    } else {
        Some(magnitude as i64)
    }
}

/// The digit that stands for a number below ten.
pub open spec fn digit_char(value: int) -> char {
    ('0' as u8 + value) as u8 as char
}

/// A natural number in base ten, without leading zeros.
pub open spec fn natural_text(n: nat) -> Seq<char>
    decreases n,
{
    if n < 10 {
        seq![digit_char(n as int)]
    } else {
        natural_text(n / 10).push(digit_char((n % 10) as int))
    }
}

/// An integer in base ten: a `-` where it is negative, then its magnitude
/// without leading zeros.
pub open spec fn decimal_text(n: int) -> Seq<char> {
    if n < 0 {
        seq!['-'] + natural_text((-n) as nat)
    } else {
        natural_text(n as nat)
    }
}

/// The text of a natural number is made of digits and reads back as the
/// number.
pub proof fn lemma_natural_text(n: nat)
    ensures
        natural_text(n).len() > 0,
        all_digits(natural_text(n)),
        digits_value(natural_text(n)) == n,
    decreases n,
{
    if n < 10 {
        let text = natural_text(n);
        assert(text.drop_last() =~= Seq::<char>::empty());
        assert(digits_value(text.drop_last()) == 0);
        assert(digit_value(text.last()) == n);
    } else {
        lemma_natural_text(n / 10);
        let text = natural_text(n);
        assert(text.drop_last() =~= natural_text(n / 10));
        assert(digit_value(text.last()) == n % 10);
    }
}

/// What is written as a decimal is read back as the same integer.
pub proof fn lemma_decimal_round_trip(n: i64)
    ensures
        decimal_i64(decimal_text(n as int)) == Some(n),
{
    let text = decimal_text(n as int);
    if n < 0 {
        lemma_natural_text((-n) as nat);
        assert(text.drop_first() =~= natural_text((-n) as nat));
        assert(text[0] == '-');
    } else {
        lemma_natural_text(n as nat);
        assert(is_digit(text[0]));
    }
}

/// The one-character text of a digit.
fn digit_text(value: u8) -> (text: &'static str)
    requires
        value < 10,
    ensures
        text@ == seq![digit_char(value as int)],
{
    proof {
        reveal_strlit("0");
        reveal_strlit("1");
        reveal_strlit("2");
        reveal_strlit("3");
        reveal_strlit("4");
        reveal_strlit("5");
        reveal_strlit("6");
        reveal_strlit("7");
        reveal_strlit("8");
        reveal_strlit("9");
    }
    let text = match value {
        0 => "0",
        1 => "1",
        2 => "2",
        3 => "3",
        4 => "4",
        5 => "5",
        6 => "6",
        7 => "7",
        8 => "8",
        _ => "9",
    };
    proof {
        assert(text@ =~= seq![digit_char(value as int)]);
    }
    text
}

/// Writes a natural number in base ten.
fn natural_to_text(n: u64) -> (text: String)
    ensures
        text@ == natural_text(n as nat),
    decreases n,
{
    if n < 10 {
        String::from_str(digit_text(n as u8))
    } else {
        let mut text = natural_to_text(n / 10);
        text.append(digit_text((n % 10) as u8));
        proof {
            assert(text@ =~= natural_text((n / 10) as nat).push(digit_char((n % 10) as int)));
        }
        text
    }
}

/// Writes an integer in base ten, as `parse_i64` reads it.
pub fn i64_to_text(n: i64) -> (text: String)
    ensures
        text@ == decimal_text(n as int),
        decimal_i64(text@) == Some(n),
{
    proof {
        lemma_decimal_round_trip(n);
    }
    if n < 0 {
        let magnitude: u64 = (-(n as i128)) as u64;
        let digits = natural_to_text(magnitude);
        let mut text = String::from_str("-");
        text.append(digits.as_str());
        proof {
            reveal_strlit("-");
            assert(text@ =~= seq!['-'] + natural_text((-n) as nat));
        }
        text
    } else {
        natural_to_text(n as u64)
    }
}

} // verus!
