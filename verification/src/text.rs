//! Text helpers: owned copies, concatenation and decimal numerals.
use vstd::prelude::*;
use vstd::string::StringExecFns;

verus! {

/// The character of a decimal digit.
pub open spec fn digit_char(digit: nat) -> char
    recommends
        digit < 10,
{
    ('0' as nat + digit) as char
}

/// The decimal numeral of a natural number, without leading zeros.
pub open spec fn decimal(value: nat) -> Seq<char>
    decreases value,
{
    if value < 10 {
        seq![digit_char(value)]
    } else {
        decimal(value / 10).push(digit_char(value % 10))
    }
}

/// Calls `u64::to_string` of the standard library. The contract claims that the text is the
/// decimal numeral of the number, without sign and without leading zeros.
#[verifier::external_body]
pub(crate) fn decimal_text(value: u64) -> (result: String)
    ensures
        result@ == decimal(value as nat),
{
    value.to_string()
}

/// An owned copy of a string slice.
pub(crate) fn owned(value: &str) -> (result: String)
    ensures
        result@ == value@,
{
    value.to_owned()
}

/// The two texts one after the other.
pub(crate) fn joined(first: &str, second: &str) -> (result: String)
    ensures
        result@ == first@ + second@,
{
    let mut result = first.to_owned();
    result.append(second);
    result
}

/// A text followed by the decimal numeral of a number.
pub(crate) fn with_number(prefix: &str, value: u64) -> (result: String)
    ensures
        result@ == prefix@ + decimal(value as nat),
{
    let digits = decimal_text(value);
    joined(prefix, digits.as_str())
}

/// `String::push` of the standard library. The contract claims that the character is appended.
pub assume_specification[ String::push ](s: &mut String, ch: char)
    ensures
        final(s)@ == old(s)@.push(ch),
;

/// The characters of a text.
pub(crate) fn chars_of(text: &str) -> (chars: Vec<char>)
    ensures
        chars@ == text@,
{
    let mut chars: Vec<char> = Vec::new();
    for c in iter: text.chars()
        invariant
            iter.seq() == text@,
            chars@ == text@.take(iter.index()),
    {
        chars.push(c);
        assert(text@.take(iter.index() + 1) =~= text@.take(iter.index()).push(c));
    }
    assert(text@.take(text@.len() as int) =~= text@);
    chars
}

/// The characters from `start` up to `end` as a text.
pub(crate) fn text_between(chars: &[char], start: usize, end: usize) -> (text: String)
    requires
        start <= end <= chars@.len(),
    ensures
        text@ == chars@.subrange(start as int, end as int),
{
    let mut text = String::new();
    let mut at: usize = start;
    while at < end
        invariant
            start <= at <= end <= chars@.len(),
            text@ == chars@.subrange(start as int, at as int),
        decreases end - at,
    {
        text.push(chars[at]);
        at = at + 1;
        assert(chars@.subrange(start as int, at as int) =~= chars@.subrange(
            start as int,
            at - 1,
        ).push(chars@[at - 1]));
    }
    text
}

/// Whether two texts are equal.
pub(crate) fn same_text(first: &str, second: &str) -> (same: bool)
    ensures
        same == (first@ == second@),
{
    let a = chars_of(first);
    let b = chars_of(second);
    if a.len() != b.len() {
        return false;
    }
    let mut index: usize = 0;
    while index < a.len()
        invariant
            a@ == first@,
            b@ == second@,
            a@.len() == b@.len(),
            index <= a@.len(),
            forall|i: int| 0 <= i < index ==> a@[i] == b@[i],
        decreases a@.len() - index,
    {
        if a[index] != b[index] {
            return false;
        }
        index = index + 1;
    }
    assert(a@ =~= b@);
    true
}

/// The number that a sequence of decimal digits stands for.
pub open spec fn decimal_value(digits: Seq<char>) -> nat
    decreases digits.len(),
{
    if digits.len() == 0 {
        0
    } else {
        decimal_value(digits.drop_last()) * 10 + (digits.last() as nat - '0' as nat) as nat
    }
}

/// Whether a text is a sequence of decimal digits, at least one.
pub open spec fn all_digits(text: Seq<char>) -> bool {
    text.len() > 0 && forall|i: int| 0 <= i < text.len() ==> '0' <= #[trigger] text[i] <= '9'
}

/// The digits of a numeral: what follows an optional plus sign.
pub open spec fn digits_of(text: Seq<char>) -> Seq<char> {
    if text.len() > 0 && text[0] == '+' {
        text.drop_first()
    } else {
        text
    }
}

/// The number that a numeral stands for, if it is one and not above the limit.
pub open spec fn parsed_number(text: Seq<char>, limit: nat) -> Option<nat> {
    let digits = digits_of(text);
    if all_digits(digits) && decimal_value(digits) <= limit {
        Some(decimal_value(digits))
    } else {
        None
    }
}

proof fn lemma_more_digits(digits: Seq<char>, few: int, many: int)
    requires
        0 <= few <= many <= digits.len(),
    ensures
        decimal_value(digits.take(few)) <= decimal_value(digits.take(many)),
    decreases many - few,
{
    if few < many {
        lemma_more_digits(digits, few, many - 1);
        assert(digits.take(many).drop_last() =~= digits.take(many - 1));
    }
}

/// The number that a numeral stands for, if it is one and not above the limit.
pub(crate) fn parse_number(text: &str, limit: u64) -> (number: Option<u64>)
    ensures
        match number {
            Some(value) => parsed_number(text@, limit as nat) == Some(value as nat),
            None => parsed_number(text@, limit as nat) is None,
        },
{
    let chars = chars_of(text);
    let start: usize = if chars.len() > 0 && chars[0] == '+' {
        1
    } else {
        0
    };
    let ghost digits = digits_of(text@);
    assert(digits =~= chars@.subrange(start as int, chars@.len() as int));
    if start == chars.len() {
        return None;
    }
    let mut value: u64 = 0;
    let mut at: usize = start;
    assert(digits.take(0) =~= Seq::empty());
    while at < chars.len()
        invariant
            start <= at <= chars@.len(),
            digits == digits_of(text@),
            digits == chars@.subrange(start as int, chars@.len() as int),
            value <= limit,
            value == decimal_value(digits.take(at - start)),
            forall|i: int| 0 <= i < at - start ==> '0' <= #[trigger] digits[i] <= '9',
        decreases chars@.len() - at,
    {
        let c: char = chars[at];
        assert(digits[at - start] == c);
        if c < '0' || c > '9' {
            return None;
        }
        let digit: u64 = c as u64 - 48;
        assert(digits.take(at - start + 1).drop_last() =~= digits.take(at - start));
        let wide: u128 = value as u128 * 10 + digit as u128;
        assert(wide == decimal_value(digits.take(at - start + 1)));
        if wide > limit as u128 {
            proof {
                lemma_more_digits(digits, at - start + 1, digits.len() as int);
                assert(digits.take(digits.len() as int) =~= digits);
            }
            return None;
        }
        value = wide as u64;
        at = at + 1;
    }
    assert(digits.take(at - start) =~= digits);
    Some(value)
}

/// A number is told digit by digit, and read back from its digits, behind a plus sign too. A number
/// above the limit is not read, nor what holds anything but digits.
pub proof fn law_numbers_are_told_and_read(value: nat, limit: nat, text: Seq<char>)
    ensures
        decimal_value(decimal(value)) == value,
        all_digits(decimal(value)),
        value < 10 ==> decimal(value).len() == 1 && decimal(value)[0] as int == 48 + value,
        value >= 10 ==> decimal(value) == decimal(value / 10) + decimal(value % 10),
        parsed_number(decimal(value), limit) == (if value <= limit {
            Some(value)
        } else {
            None
        }),
        parsed_number(seq!['+'] + decimal(value), limit) == parsed_number(decimal(value), limit),
        parsed_number(Seq::empty(), limit) is None,
        (exists|i: int|
            0 < i < text.len() && !('0' <= #[trigger] text[i] && text[i] <= '9')) ==> parsed_number(
            text,
            limit,
        ) is None,
    decreases value,
{
    lemma_decimal(value);
    if value >= 10 {
        assert(decimal(value) =~= decimal(value / 10) + decimal(value % 10));
    }
    assert(decimal(value)[0] != '+');
    let signed = seq!['+'] + decimal(value);
    assert(signed.drop_first() =~= decimal(value));
    if exists|i: int| 0 < i < text.len() && !('0' <= #[trigger] text[i] && text[i] <= '9') {
        let i = choose|i: int| 0 < i < text.len() && !('0' <= #[trigger] text[i] && text[i] <= '9');
        if text[0] == '+' {
            assert(text.drop_first()[i - 1] == text[i]);
        }
    }
}

proof fn lemma_decimal(value: nat)
    ensures
        decimal_value(decimal(value)) == value,
        all_digits(decimal(value)),
    decreases value,
{
    reveal_with_fuel(decimal_value, 2);
    if value >= 10 {
        lemma_decimal(value / 10);
        assert(decimal(value).drop_last() =~= decimal(value / 10));
        assert forall|i: int| 0 <= i < decimal(value).len() implies '0' <= #[trigger] decimal(
            value,
        )[i] <= '9' by {
            if i < decimal(value / 10).len() {
                assert(decimal(value)[i] == decimal(value / 10)[i]);
            }
        }
    } else {
        assert(decimal(value).drop_last() =~= Seq::empty());
    }
}

} // verus!
