//! Decoding of the fixed-width text fields that the transport fills.

use crate::error::QvOpenApiError;
use crate::pattern::to_chars;
use encoding::all::WINDOWS_949;
use encoding::{DecoderTrap, Encoding};
use vstd::prelude::*;
use vstd::string::StrSliceExecFns;

verus! {

/// The text that the bytes `bytes` stand for in the code page 949, with each
/// malformed sequence replaced by U+FFFD.
pub uninterp spec fn cp949_decoded(bytes: Seq<u8>) -> Seq<char>;

/// `encoding::all::WINDOWS_949.decode` with `DecoderTrap::Replace`: the
/// decoder of the `encoding` crate for the code page 949. With that trap the
/// decoder replaces what it cannot decode and goes on, so it always returns a
/// text, and the text depends on the bytes alone.
#[verifier::external_body]
fn decode_cp949(bytes: &Vec<u8>) -> (text: String)
    ensures
        text@ == cp949_decoded(bytes@),
{
    WINDOWS_949.decode(bytes.as_slice(), DecoderTrap::Replace).unwrap()
}

/// The bytes of a field up to its first NUL, or all of them if it has none.
pub open spec fn until_nul(field: Seq<u8>) -> Seq<u8>
    decreases field.len(),
{
    if field.len() == 0 || field[0] == 0 {
        Seq::empty()
    } else {
        seq![field[0]] + until_nul(field.drop_first())
    }
}

/// Whether `c` has the Unicode property White_Space.
pub open spec fn is_white_space(c: char) -> bool {
    let code = c as u32;
    ||| 0x09 <= code <= 0x0D
    ||| code == 0x20
    ||| code == 0x85
    ||| code == 0xA0
    ||| code == 0x1680
    ||| 0x2000 <= code <= 0x200A
    ||| code == 0x2028
    ||| code == 0x2029
    ||| code == 0x202F
    ||| code == 0x205F
    ||| code == 0x3000
}

/// The number of white-space characters at the start of `text`.
pub open spec fn leading_white_space(text: Seq<char>) -> nat
    decreases text.len(),
{
    if text.len() == 0 || !is_white_space(text[0]) {
        0
    } else {
        1 + leading_white_space(text.drop_first())
    }
}

/// The number of white-space characters at the end of `text`.
pub open spec fn trailing_white_space(text: Seq<char>) -> nat
    decreases text.len(),
{
    if text.len() == 0 || !is_white_space(text.last()) {
        0
    } else {
        1 + trailing_white_space(text.drop_last())
    }
}

/// `text` without the white space at its start and at its end.
pub open spec fn trimmed(text: Seq<char>) -> Seq<char> {
    let start = leading_white_space(text);
    if start == text.len() {
        Seq::empty()
    } else {
        text.subrange(start as int, text.len() - trailing_white_space(text))
    }
}

/// The text of a field: the bytes up to the first NUL, decoded from the code
/// page 949.
pub fn from_cp949(src: &[u8]) -> (text: String)
    ensures
        text@ == cp949_decoded(until_nul(src@)),
{
    let mut cloned: Vec<u8> = Vec::new();
    let mut i: usize = 0;
    proof {
        assert(src@.skip(0) == src@);
        assert(cloned@ + until_nul(src@) == until_nul(src@));
    }
    while i < src.len() && src[i] != 0
        invariant
            i <= src.len(),
            until_nul(src@) == cloned@ + until_nul(src@.skip(i as int)),
        decreases src.len() - i,
    {
        proof {
            let rest = src@.skip(i as int);
            assert(rest.drop_first() == src@.skip(i + 1));
            assert(cloned@.push(src@[i as int]) + until_nul(rest.drop_first()) == cloned@ + (
            seq![rest[0]] + until_nul(rest.drop_first())));
        }
        cloned.push(src[i]);
        i = i + 1;
    }
    proof {
        let rest = src@.skip(i as int);
        assert(until_nul(rest) == Seq::<u8>::empty());
        assert(cloned@ + Seq::<u8>::empty() == cloned@);
    }
    decode_cp949(&cloned)
}

fn is_white_space_char(c: char) -> (white: bool)
    ensures
        white == is_white_space(c),
{
    let code = c as u32;
    (0x09 <= code && code <= 0x0D) || code == 0x20 || code == 0x85 || code == 0xA0 || code
        == 0x1680 || (0x2000 <= code && code <= 0x200A) || code == 0x2028 || code == 0x2029
        || code == 0x202F || code == 0x205F || code == 0x3000
}

proof fn lemma_leading(text: Seq<char>, count: nat)
    requires
        count <= text.len(),
        forall|i: int| 0 <= i < count ==> is_white_space(text[i]),
        count == text.len() || !is_white_space(text[count as int]),
    ensures
        leading_white_space(text) == count,
    decreases count,
{
    if count > 0 {
        let rest = text.drop_first();
        assert forall|i: int| 0 <= i < count - 1 implies is_white_space(rest[i]) by {
            assert(rest[i] == text[i + 1]);
        }
        if count < text.len() {
            assert(rest[count - 1] == text[count as int]);
        }
        lemma_leading(rest, (count - 1) as nat);
    }
}

proof fn lemma_trailing(text: Seq<char>, count: nat)
    requires
        count <= text.len(),
        forall|i: int| text.len() - count <= i < text.len() ==> is_white_space(text[i]),
        count == text.len() || !is_white_space(text[text.len() - count - 1]),
    ensures
        trailing_white_space(text) == count,
    decreases count,
{
    if count > 0 {
        let rest = text.drop_last();
        assert forall|i: int| rest.len() - (count - 1) <= i < rest.len() implies is_white_space(
            rest[i],
        ) by {
            assert(rest[i] == text[i]);
        }
        if count < text.len() {
            assert(rest[rest.len() - (count - 1) - 1] == text[text.len() - count - 1]);
        }
        lemma_trailing(rest, (count - 1) as nat);
    }
}

/// `text` without the white space at its start and at its end.
pub fn trim(text: &str) -> (kept: &str)
    ensures
        kept@ == trimmed(text@),
{
    let chars = to_chars(text);
    let mut start: usize = 0;
    while start < chars.len() && is_white_space_char(chars[start])
        invariant
            start <= chars.len(),
            forall|i: int| 0 <= i < start ==> is_white_space(chars@[i]),
        decreases chars.len() - start,
    {
        start = start + 1;
    }
    proof {
        lemma_leading(chars@, start as nat);
    }
    if start == chars.len() {
        let kept = text.substring_char(0, 0);
        assert(kept@ =~= Seq::<char>::empty());
        return kept;
    }
    let mut end: usize = chars.len();
    while end > start && is_white_space_char(chars[end - 1])
        invariant
            start <= end <= chars.len(),
            start < chars.len(),
            !is_white_space(chars@[start as int]),
            forall|i: int| end <= i < chars.len() ==> is_white_space(chars@[i]),
        decreases end,
    {
        end = end - 1;
    }
    proof {
        lemma_trailing(chars@, (chars.len() - end) as nat);
    }
    text.substring_char(start, end)
}

/// The text of a field, without the padding around it.
pub fn parse_string(src: &[u8]) -> (text: Result<String, QvOpenApiError>)
    ensures
        text matches Ok(found) && found@ == trimmed(cp949_decoded(until_nul(src@))),
{
    let decoded = from_cp949(src);
    Ok(trim(decoded.as_str()).to_owned())
}

/// Whether `c` may stand before the digits of a number field: a zero or a
/// blank that pads the field, or the sign.
pub open spec fn is_padding(c: char) -> bool {
    c == '0' || c == ' ' || c == '-'
}

/// Whether `c` is one of the digits `0` to `9`.
pub open spec fn is_digit(c: char) -> bool {
    0x30 <= c as u32 <= 0x39
}

/// The length of the padding at the start of `text`.
pub open spec fn padding_len(text: Seq<char>) -> nat
    decreases text.len(),
{
    if text.len() == 0 || !is_padding(text[0]) {
        0
    } else {
        1 + padding_len(text.drop_first())
    }
}

/// The number of signs in `text`.
pub open spec fn minus_count(text: Seq<char>) -> nat
    decreases text.len(),
{
    if text.len() == 0 {
        0
    } else {
        minus_count(text.drop_last()) + if text.last() == '-' {
            1nat
        } else {
            0nat
        }
    }
}

/// Whether `text` consists of digits.
pub open spec fn all_digits(text: Seq<char>) -> bool {
    forall|i: int| 0 <= i < text.len() ==> is_digit(#[trigger] text[i])
}

/// The number that the digits `text` write in base ten; no digits write zero.
pub open spec fn digits_value(text: Seq<char>) -> nat
    decreases text.len(),
{
    if text.len() == 0 {
        0
    } else {
        digits_value(text.drop_last()) * 10 + digit_of(text.last())
    }
}

/// The value of the digit `c`.
pub open spec fn digit_of(c: char) -> nat {
    if is_digit(c) {
        (c as u32 - 0x30) as nat
    } else {
        0
    }
}

/// What a number field that reads `text` holds: nothing where it is empty,
/// and else the number that its digits write, negated where a sign stands in
/// the padding before them. The outer `None` marks a field that is no
/// number: one with a second sign, with anything but digits behind the
/// padding, or with a number beyond `i64::MAX`.
pub open spec fn number_of(text: Seq<char>) -> Option<Option<int>> {
    if text.len() == 0 {
        Some(None)
    } else {
        let head = text.take(padding_len(text) as int);
        let digits = text.skip(padding_len(text) as int);
        if minus_count(head) <= 1 && all_digits(digits) && digits_value(digits) <= i64::MAX {
            Some(
                Some(
                    if minus_count(head) == 1 {
                        -(digits_value(digits) as int)
                    } else {
                        digits_value(digits) as int
                    },
                ),
            )
        } else {
            None
        }
    }
}

proof fn lemma_padding(text: Seq<char>, count: nat)
    requires
        count <= text.len(),
        forall|i: int| 0 <= i < count ==> is_padding(text[i]),
    ensures
        padding_len(text) >= count,
        (count == text.len() || !is_padding(text[count as int])) ==> padding_len(text) == count,
    decreases count,
{
    if count > 0 {
        let rest = text.drop_first();
        assert forall|i: int| 0 <= i < count - 1 implies is_padding(rest[i]) by {
            assert(rest[i] == text[i + 1]);
        }
        if count < text.len() {
            assert(rest[count - 1] == text[count as int]);
        }
        lemma_padding(rest, (count - 1) as nat);
    }
}

proof fn lemma_minus_count_grows(text: Seq<char>, shorter: int, longer: int)
    requires
        0 <= shorter <= longer <= text.len(),
    ensures
        minus_count(text.take(shorter)) <= minus_count(text.take(longer)),
    decreases longer - shorter,
{
    if shorter < longer {
        assert(text.take(longer).drop_last() == text.take(longer - 1));
        lemma_minus_count_grows(text, shorter, longer - 1);
    }
}

proof fn lemma_digits_value_grows(text: Seq<char>, shorter: int)
    requires
        0 <= shorter <= text.len(),
    ensures
        digits_value(text.take(shorter)) <= digits_value(text),
    decreases text.len() - shorter,
{
    if shorter < text.len() {
        assert(text.drop_last().take(shorter) == text.take(shorter));
        lemma_digits_value_grows(text.drop_last(), shorter);
    } else {
        assert(text.take(shorter) == text);
    }
}

proof fn lemma_padding_bound(text: Seq<char>)
    ensures
        padding_len(text) <= text.len(),
    decreases text.len(),
{
    if text.len() > 0 && is_padding(text[0]) {
        lemma_padding_bound(text.drop_first());
    }
}

fn number_error(input: &str) -> (error: QvOpenApiError)
    ensures
        error matches QvOpenApiError::ParseNumberError { input: text } && text@ == input@,
{
    QvOpenApiError::ParseNumberError { input: input.to_owned() }
}

/// Reads the text of a number field, already freed of the padding around it.
///
/// An empty field holds nothing. Else blanks, zeros and one sign may stand
/// before the digits; what follows them must be digits to the end and write
/// a number up to `i64::MAX`. Any other text is a `ParseNumberError` that
/// carries the text.
pub fn parse_number_text(input: &str) -> (parsed: Result<Option<i64>, QvOpenApiError>)
    ensures
        match number_of(input@) {
            Some(Some(number)) => parsed == Ok::<Option<i64>, QvOpenApiError>(
                Some(number as i64),
            ) && i64::MIN <= number <= i64::MAX,
            Some(None) => parsed == Ok::<Option<i64>, QvOpenApiError>(None),
            None => parsed matches Err(QvOpenApiError::ParseNumberError { input: text }) && text@
                == input@,
        },
{
    let chars = to_chars(input);
    if chars.len() == 0 {
        return Ok(None);
    }
    let ghost text = chars@;
    let mut is_minus = false;
    let mut started = false;
    let mut value: i64 = 0;
    let mut i: usize = 0;
    let ghost mut first: int = 0;
    while i < chars.len()
        invariant
            chars@ == text,
            text == input@,
            text.len() > 0,
            i <= chars.len(),
            0 <= value,
            !started ==> first == i && value == 0,
            0 <= first <= i,
            forall|j: int| 0 <= j < first ==> is_padding(text[j]),
            minus_count(text.take(first)) == if is_minus {
                1nat
            } else {
                0nat
            },
            started ==> first < i && !is_padding(text[first]),
            forall|j: int| first <= j < i ==> is_digit(text[j]),
            value == digits_value(text.subrange(first, i as int)),
        decreases chars.len() - i,
    {
        let c = chars[i];
        let ghost next: int = i + 1;
        if c == '-' {
            if !started && !is_minus {
                is_minus = true;
                proof {
                    assert(text.take(next).drop_last() == text.take(i as int));
                    assert(text.subrange(next, next) == Seq::<char>::empty());
                    first = next;
                }
                i = i + 1;
                continue ;
            } else {
                proof {
                    if started {
                        lemma_padding(text, first as nat);
                        let digits = text.skip(first);
                        assert(digits[i - first] == text[i as int]);
                        assert(!is_digit(digits[i - first]));
                    } else {
                        assert(text.take(next).drop_last() == text.take(i as int));
                        assert(minus_count(text.take(next)) == 2);
                        assert forall|j: int| 0 <= j < next implies is_padding(text[j]) by {}
                        lemma_padding(text, next as nat);
                        lemma_padding_bound(text);
                        lemma_minus_count_grows(text, next, padding_len(text) as int);
                    }
                }
                return Err(number_error(input));
            }
        }
        if (c == '0' || c == ' ') && !started {
            proof {
                assert(text.take(next).drop_last() == text.take(i as int));
                assert(text.subrange(next, next) == Seq::<char>::empty());
                first = next;
            }
            i = i + 1;
            continue ;
        }
        let code = c as u32;
        if code < 0x30 || code > 0x39 {
            proof {
                lemma_padding(text, first as nat);
                let digits = text.skip(first);
                assert(digits[i - first] == text[i as int]);
                assert(!is_digit(digits[i - first]));
            }
            return Err(number_error(input));
        }
        let digit: i64 = (code - 0x30) as i64;
        proof {
            lemma_padding(text, first as nat);
            assert(text.subrange(first, next).drop_last() == text.subrange(first, i as int));
        }
        if value > (i64::MAX - digit) / 10 {
            proof {
                let digits = text.skip(first);
                assert(digits.take(next - first) == text.subrange(first, next));
                lemma_digits_value_grows(digits, next - first);
                assert(digits_value(text.subrange(first, next)) > i64::MAX);
            }
            return Err(number_error(input));
        }
        value = value * 10 + digit;
        started = true;
        i = i + 1;
    }
    proof {
        lemma_padding(text, first as nat);
        if !started {
            assert(first == text.len());
        }
        assert(text.skip(first) == text.subrange(first, text.len() as int));
        assert(text.take(padding_len(text) as int) == text.take(first));
    }
    if is_minus {
        Ok(Some(-value))
    } else {
        Ok(Some(value))
    }
}

/// Reads a number field of the transport.
pub fn parse_number(src: &[u8]) -> (parsed: Result<Option<i64>, QvOpenApiError>)
    ensures
        match number_of(trimmed(cp949_decoded(until_nul(src@)))) {
            Some(Some(number)) => parsed == Ok::<Option<i64>, QvOpenApiError>(
                Some(number as i64),
            ),
            Some(None) => parsed == Ok::<Option<i64>, QvOpenApiError>(None),
            None => parsed matches Err(QvOpenApiError::ParseNumberError { input: text }) && text@
                == trimmed(cp949_decoded(until_nul(src@))),
        },
{
    let decoded = from_cp949(src);
    parse_number_text(trim(decoded.as_str()))
}

/// The digits of a count: the text without the plus sign that may stand
/// before them.
pub open spec fn count_digits(text: Seq<char>) -> Seq<char> {
    if text.len() > 0 && text[0] == '+' {
        text.drop_first()
    } else {
        text
    }
}

/// The count that `text` writes as a plain decimal number: one digit or
/// more, with nothing before them but an optional plus sign and nothing
/// behind them, that write a number up to `usize::MAX`. `None` where `text`
/// writes no such number.
pub open spec fn count_of(text: Seq<char>) -> Option<nat> {
    let digits = count_digits(text);
    if digits.len() > 0 && all_digits(digits) && digits_value(digits) <= usize::MAX {
        Some(digits_value(digits))
    } else {
        None
    }
}

/// Reads a count written as a plain decimal number. A text that writes no
/// such number is a `ParseNumberError` that carries it.
pub fn parse_count_text(input: &str) -> (parsed: Result<usize, QvOpenApiError>)
    ensures
        match count_of(input@) {
            Some(count) => parsed == Ok::<usize, QvOpenApiError>(count as usize) && count
                <= usize::MAX,
            None => parsed matches Err(QvOpenApiError::ParseNumberError { input: text }) && text@
                == input@,
        },
{
    let chars = to_chars(input);
    let ghost text = chars@;
    let start: usize = if chars.len() > 0 && chars[0] == '+' {
        1
    } else {
        0
    };
    let ghost digits = count_digits(text);
    proof {
        assert(digits == text.skip(start as int));
    }
    if start == chars.len() {
        return Err(number_error(input));
    }
    let mut value: usize = 0;
    let mut i: usize = start;
    while i < chars.len()
        invariant
            chars@ == text,
            text == input@,
            digits == text.skip(start as int),
            digits == count_digits(text),
            start <= i <= chars.len(),
            start < chars.len(),
            forall|j: int| start <= j < i ==> is_digit(text[j]),
            value == digits_value(text.subrange(start as int, i as int)),
        decreases chars.len() - i,
    {
        let code = chars[i] as u32;
        let ghost next: int = i + 1;
        if code < 0x30 || code > 0x39 {
            proof {
                assert(digits[i - start] == text[i as int]);
                assert(!is_digit(digits[i - start]));
            }
            return Err(number_error(input));
        }
        let digit: usize = (code - 0x30) as usize;
        proof {
            assert(text.subrange(start as int, next).drop_last() == text.subrange(
                start as int,
                i as int,
            ));
        }
        if value > (usize::MAX - digit) / 10 {
            proof {
                assert(digits.take(next - start) == text.subrange(start as int, next));
                lemma_digits_value_grows(digits, next - start);
                assert(digits_value(text.subrange(start as int, next)) > usize::MAX);
            }
            return Err(number_error(input));
        }
        value = value * 10 + digit;
        i = i + 1;
    }
    proof {
        assert(digits == text.subrange(start as int, text.len() as int));
        assert forall|j: int| 0 <= j < digits.len() implies is_digit(#[trigger] digits[j]) by {
            assert(digits[j] == text[j + start]);
        }
    }
    Ok(value)
}

/// Reads a ratio field that the transport writes in hundredths, as the
/// number of hundredths: a field that reads `1226` holds the ratio 12.26.
pub fn parse_ratio(src: &[u8]) -> (parsed: Result<Option<i64>, QvOpenApiError>)
    ensures
        match number_of(trimmed(cp949_decoded(until_nul(src@)))) {
            Some(Some(number)) => parsed == Ok::<Option<i64>, QvOpenApiError>(
                Some(number as i64),
            ),
            Some(None) => parsed == Ok::<Option<i64>, QvOpenApiError>(None),
            None => parsed matches Err(QvOpenApiError::ParseNumberError { input: text }) && text@
                == trimmed(cp949_decoded(until_nul(src@))),
        },
{
    parse_number(src)
}

/// What a ratio field that reads `text` as a percentage holds: nothing where
/// it is empty, and else the text before the percent sign that ends it. The
/// outer `None` marks a field that does not end in a percent sign.
pub open spec fn percent_of(text: Seq<char>) -> Option<Option<Seq<char>>> {
    if text.len() == 0 {
        Some(None)
    } else if text.last() == '%' {
        Some(Some(text.drop_last()))
    } else {
        None
    }
}

/// Reads the text of a ratio field that is written as a percentage, already
/// freed of the padding around it, and returns the text of the number. A
/// text that does not end in a percent sign is a `ParseRatioError` that
/// carries it.
pub fn parse_ratio_text(input: &str) -> (parsed: Result<Option<String>, QvOpenApiError>)
    ensures
        match percent_of(input@) {
            Some(Some(number)) => parsed matches Ok(Some(text)) && text@ == number,
            Some(None) => parsed == Ok::<Option<String>, QvOpenApiError>(None),
            None => parsed matches Err(QvOpenApiError::ParseRatioError { input: text }) && text@
                == input@,
        },
{
    let length = input.unicode_len();
    if length == 0 {
        return Ok(None);
    }
    if input.get_char(length - 1) == '%' {
        let number = input.substring_char(0, length - 1);
        assert(number@ == input@.drop_last());
        Ok(Some(number.to_owned()))
    } else {
        Err(QvOpenApiError::ParseRatioError { input: input.to_owned() })
    }
}

/// Reads a ratio field that the transport writes as a percentage, and
/// returns the text of the number before the percent sign.
pub fn parse_ratio_str(src: &[u8]) -> (parsed: Result<Option<String>, QvOpenApiError>)
    ensures
        match percent_of(trimmed(cp949_decoded(until_nul(src@)))) {
            Some(Some(number)) => parsed matches Ok(Some(text)) && text@ == number,
            Some(None) => parsed == Ok::<Option<String>, QvOpenApiError>(None),
            None => parsed matches Err(QvOpenApiError::ParseRatioError { input: text }) && text@
                == trimmed(cp949_decoded(until_nul(src@))),
        },
{
    let decoded = from_cp949(src);
    parse_ratio_text(trim(decoded.as_str()))
}

} // verus!
