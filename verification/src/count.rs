//! The treat count that a message carries, as decimal text.

use vstd::prelude::*;

verus! {

/// Why a payload holds no treat count.
#[derive(Debug, Clone, Copy, PartialEq, Eq, Structural)]
pub enum PayloadError {
    /// The bytes are not UTF-8 text.
    NotUtf8,
    /// The text is not a decimal number that fits in 32 bits.
    NotACount,
}

/// `b'0'`, the first of the ten ASCII digits.
pub const ZERO: u8 = 0x30;

/// `b'9'`, the last of the ten ASCII digits.
pub const NINE: u8 = 0x39;

/// `b'+'`, the sign that may stand before the digits.
pub const PLUS: u8 = 0x2b;

pub open spec fn is_digit(byte: u8) -> bool {
    ZERO <= byte <= NINE
}

/// The number that a row of digits stands for, most significant digit first.
pub open spec fn digits_value(digits: Seq<u8>) -> nat
    decreases digits.len(),
{
    if digits.len() == 0 {
        0
    } else {
        10 * digits_value(digits.drop_last()) + (digits.last() - ZERO) as nat
    }
}

/// What is left of the text without the one plus sign that may open it.
pub open spec fn unsigned(text: Seq<u8>) -> Seq<u8> {
    if text.len() > 0 && text[0] == PLUS {
        text.drop_first()
    } else {
        text
    }
}

/// Digits, at least one of them, after an optional plus sign, for a number that fits
/// in 32 bits.
pub open spec fn is_count(text: Seq<u8>) -> bool {
    let digits = unsigned(text);
    &&& digits.len() > 0
    &&& forall|i: int| 0 <= i < digits.len() ==> is_digit(#[trigger] digits[i])
    &&& digits_value(digits) <= u32::MAX
}

/// The count that a payload carries, or why it carries none.
pub open spec fn count_of(payload: Seq<u8>) -> Result<u32, PayloadError> {
    if !vstd::utf8::valid_utf8(payload) {
        Err(PayloadError::NotUtf8)
    } else if !is_count(payload) {
        Err(PayloadError::NotACount)
    } else {
        Ok(digits_value(unsigned(payload)) as u32)
    }
}

/// The error of `core::str::from_utf8`, carried and never looked into.
#[verifier::external_type_specification]
#[verifier::external_body]
pub struct ExUtf8Error(core::str::Utf8Error);

/// `core::str::from_utf8` succeeds exactly on valid UTF-8, and the text that it gives
/// is made of the very bytes that it was given.
pub assume_specification<'a>[ core::str::from_utf8 ](v: &'a [u8]) -> (res: Result<
    &'a str,
    core::str::Utf8Error,
>)
    ensures
        res is Ok <==> vstd::utf8::valid_utf8(v@),
        res matches Ok(text) ==> vstd::utf8::encode_utf8(text@) == v@,
;

/// Adding digits at the end never makes a number smaller.
proof fn lemma_prefix_value(digits: Seq<u8>, n: int)
    requires
        0 <= n <= digits.len(),
        forall|i: int| 0 <= i < digits.len() ==> is_digit(#[trigger] digits[i]),
    ensures
        digits_value(digits.take(n)) <= digits_value(digits),
    decreases digits.len() - n,
{
    if n == digits.len() {
        assert(digits.take(n) =~= digits);
    } else {
        lemma_prefix_value(digits, n + 1);
        assert(digits.take(n + 1).drop_last() =~= digits.take(n));
    }
}

/// Reads decimal text: `Some` with the number exactly where the text is a count.
fn parse_decimal(text: &[u8]) -> (count: Option<u32>)
    ensures
        count is Some <==> is_count(text@),
        count matches Some(n) ==> n == digits_value(unsigned(text@)),
{
    let start: usize = if text.len() > 0 && text[0] == PLUS {
        1
    } else {
        0
    };
    let ghost digits = unsigned(text@);
    assert(digits =~= text@.skip(start as int));
    if start == text.len() {
        return None;
    }
    let mut value: u64 = 0;
    let mut i: usize = start;
    while i < text.len()
        invariant
            start <= i <= text.len(),
            digits == unsigned(text@),
            digits == text@.skip(start as int),
            forall|j: int| 0 <= j < i - start ==> is_digit(#[trigger] digits[j]),
            value == digits_value(digits.take(i - start)),
            value <= u32::MAX,
        decreases text.len() - i,
    {
        let byte = text[i];
        assert(byte == digits[i - start]);
        if byte < ZERO || byte > NINE {
            assert(!is_digit(digits[i - start]));
            return None;
        }
        value = value * 10 + (byte - ZERO) as u64;
        assert(digits.take(i + 1 - start).drop_last() =~= digits.take(i - start));
        i = i + 1;
        if value > u32::MAX as u64 {
            proof {
                if is_count(text@) {
                    lemma_prefix_value(digits, i - start);
                }
            }
            return None;
        }
    }
    assert(digits.take(i - start) =~= digits);
    Some(value as u32)
}

/// The treat count in a message's payload.
pub fn parse_count(payload: &[u8]) -> (count: Result<u32, PayloadError>)
    ensures
        count == count_of(payload@),
{
    match core::str::from_utf8(payload) {
        Err(_) => Err(PayloadError::NotUtf8),
        Ok(text) => match parse_decimal(text.as_bytes()) {
            None => Err(PayloadError::NotACount),
            Some(count) => Ok(count),
        },
    }
}

/// The decimal digits of a number, without leading zeros.
pub open spec fn decimal(n: nat) -> Seq<u8>
    decreases n,
{
    if n < 10 {
        seq![(ZERO + n) as u8]
    } else {
        decimal(n / 10).push((ZERO + n % 10) as u8)
    }
}

/// The digits of a number are digits, at least one, and stand for that number.
proof fn lemma_decimal(n: nat)
    ensures
        decimal(n).len() > 0,
        forall|i: int| 0 <= i < decimal(n).len() ==> is_digit(#[trigger] decimal(n)[i]),
        digits_value(decimal(n)) == n,
    decreases n,
{
    reveal_with_fuel(digits_value, 2);
    if n < 10 {
        assert(decimal(n).drop_last() =~= Seq::<u8>::empty());
    } else {
        lemma_decimal(n / 10);
        assert(decimal(n).drop_last() =~= decimal(n / 10));
    }
}

/// Digits are ASCII, and so UTF-8.
proof fn lemma_digits_are_utf8(digits: Seq<u8>)
    requires
        forall|i: int| 0 <= i < digits.len() ==> is_digit(#[trigger] digits[i]),
    ensures
        vstd::utf8::valid_utf8(digits),
{
    assert forall|i: int| 0 <= i < digits.len() implies vstd::utf8::is_leading_byte_width_1(
        #[trigger] digits[i],
    ) by {
        assert(is_digit(digits[i]));
    }
    assert(digits.subrange(0, 0) =~= Seq::<u8>::empty());
    assert(vstd::utf8::partial_valid_utf8(digits, 0));
    vstd::utf8::partial_valid_utf8_extend_ascii_block(digits, 0, digits.len() as int);
    assert(digits.subrange(0, digits.len() as int) =~= digits);
}

/// A count that is written in decimal is read back as it was.
pub proof fn law_decimal_reads_back(count: u32)
    ensures
        count_of(decimal(count as nat)) == Ok::<u32, PayloadError>(count),
{
    let digits = decimal(count as nat);
    lemma_decimal(count as nat);
    lemma_digits_are_utf8(digits);
    assert(is_digit(digits[0]));
    assert(unsigned(digits) == digits);
}

/// A plus sign before a row of digits changes nothing, whatever the row holds and however
/// long it is: alone it is no count either.
pub proof fn law_plus_sign_changes_nothing(digits: Seq<u8>)
    requires
        forall|i: int| 0 <= i < digits.len() ==> 0x30 <= #[trigger] digits[i] <= 0x39,
    ensures
        count_of(seq![0x2bu8] + digits) == count_of(digits),
{
    let signed = seq![0x2bu8] + digits;
    assert forall|i: int| 0 <= i < digits.len() implies is_digit(#[trigger] digits[i]) by {}
    lemma_digits_are_utf8(digits);
    assert(signed.drop_first() =~= digits);
    assert(unsigned(digits) == digits);
    assert(vstd::utf8::valid_utf8(seq![0x2bu8])) by {
        let plus = seq![0x2bu8];
        assert(vstd::utf8::is_leading_byte_width_1(plus[0]));
        assert(plus.subrange(0, 0) =~= Seq::<u8>::empty());
        assert(vstd::utf8::partial_valid_utf8(plus, 0));
        vstd::utf8::partial_valid_utf8_extend_ascii_block(plus, 0, 1);
        assert(plus.subrange(0, 1) =~= plus);
    }
    vstd::utf8::valid_utf8_concat(seq![0x2bu8], digits);
}

/// A count that is written in decimal after a plus sign is read back as it was.
pub proof fn law_plus_sign_is_optional(count: u32)
    ensures
        count_of(seq![PLUS] + decimal(count as nat)) == Ok::<u32, PayloadError>(count),
{
    let digits = decimal(count as nat);
    lemma_decimal(count as nat);
    assert forall|i: int| 0 <= i < digits.len() implies 0x30 <= #[trigger] digits[i] <= 0x39 by {
        assert(is_digit(digits[i]));
    }
    law_plus_sign_changes_nothing(digits);
    law_decimal_reads_back(count);
}

/// Bytes that are not UTF-8 text, and no others, are turned down as such.
pub proof fn law_only_text_is_text(payload: Seq<u8>)
    ensures
        count_of(payload) == Err::<u32, PayloadError>(PayloadError::NotUtf8)
            <==> !vstd::utf8::valid_utf8(payload),
{
}

/// Text with anything but digits in it is no count, but for a plus sign that opens it.
pub proof fn law_other_bytes_are_no_count(payload: Seq<u8>, i: int)
    requires
        vstd::utf8::valid_utf8(payload),
        0 <= i < payload.len(),
        payload[i] < 0x30 || payload[i] > 0x39,
        i > 0 || payload[0] != 0x2b,
    ensures
        count_of(payload) == Err::<u32, PayloadError>(PayloadError::NotACount),
{
    let digits = unsigned(payload);
    if digits.len() == payload.len() {
        assert(!is_digit(digits[i]));
    } else {
        assert(digits[i - 1] == payload[i]);
        assert(!is_digit(digits[i - 1]));
    }
}

/// No text is no count, and one digit is the count that it says. One more digit makes a
/// count ten times what it was, and the digit; where that is past 32 bits, or was before,
/// there is no count. So a count may be of any length and may open with zeros.
pub proof fn law_one_more_digit(digits: Seq<u8>, digit: u8)
    requires
        forall|i: int| 0 <= i < digits.len() ==> 0x30 <= #[trigger] digits[i] <= 0x39,
        0x30 <= digit <= 0x39,
    ensures
        count_of(Seq::empty()) == Err::<u32, PayloadError>(PayloadError::NotACount),
        digits.len() == 0 ==> count_of(digits.push(digit)) == Ok::<u32, PayloadError>(
            (digit - 0x30) as u32,
        ),
        digits.len() > 0 ==> match count_of(digits) {
            Ok(count) => count_of(digits.push(digit)) == if 10 * count + (digit - 0x30)
                <= u32::MAX {
                Ok::<u32, PayloadError>((10 * count + (digit - 0x30)) as u32)
            } else {
                Err(PayloadError::NotACount)
            },
            Err(_) => count_of(digits.push(digit)) == Err::<u32, PayloadError>(
                PayloadError::NotACount,
            ),
        },
{
    let longer = digits.push(digit);
    assert forall|i: int| 0 <= i < digits.len() implies is_digit(#[trigger] digits[i]) by {}
    assert forall|i: int| 0 <= i < longer.len() implies is_digit(#[trigger] longer[i]) by {
        if i < digits.len() {
            assert(longer[i] == digits[i]);
        }
    }
    lemma_digits_are_utf8(Seq::empty());
    lemma_digits_are_utf8(digits);
    lemma_digits_are_utf8(longer);
    assert(longer.drop_last() =~= digits);
    assert(is_digit(longer[0]));
    assert(unsigned(longer) == longer);
    assert(unsigned(digits) == digits);
}

} // verus!
