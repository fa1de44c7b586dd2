//! The scale argument and the name of the output file.

use crate::error::ScaleError;
use vstd::prelude::*;
use vstd::string::StringExecFns;
use vstd::string::StringSliceAdditionalSpecFns;

verus! {

/// The byte is an ASCII decimal digit.
pub open spec fn is_digit(b: u8) -> bool {
    48 <= b <= 57
}

/// Every byte is an ASCII decimal digit.
pub open spec fn all_digits(s: Seq<u8>) -> bool {
    forall|i: int| 0 <= i < s.len() ==> is_digit(#[trigger] s[i])
}

/// The value of a digit; 0 for any other byte.
pub open spec fn digit_value(b: u8) -> nat {
    if is_digit(b) {
        (b - 48) as nat
    } else {
        0
    }
}

/// The number that the digits write in base ten.
pub open spec fn decimal_value(digits: Seq<u8>) -> nat
    decreases digits.len(),
{
    if digits.len() == 0 {
        0
    } else {
        10 * decimal_value(digits.drop_last()) + digit_value(digits.last())
    }
}

/// The text without a leading plus sign.
pub open spec fn unsigned_part(text: Seq<u8>) -> Seq<u8> {
    if text.len() > 0 && text[0] == 43 {
        text.skip(1)
    } else {
        text
    }
}

/// The scale factor that a text stands for: a positive decimal integer that
/// fits in 32 bits, written with at least one digit after an optional plus
/// sign and nothing else.
pub open spec fn scale_of_text(text: Seq<u8>) -> Option<u32> {
    let digits = unsigned_part(text);
    if digits.len() > 0 && all_digits(digits) && 1 <= decimal_value(digits) <= u32::MAX {
        Some(decimal_value(digits) as u32)
    } else {
        None
    }
}

/// More digits never write a smaller number.
pub proof fn lemma_decimal_value_grows(digits: Seq<u8>, k: int)
    requires
        0 <= k <= digits.len(),
    ensures
        decimal_value(digits.take(k)) <= decimal_value(digits),
    decreases digits.len(),
{
    if k == digits.len() {
        assert(digits.take(k) =~= digits);
    } else {
        let init = digits.drop_last();
        lemma_decimal_value_grows(init, k);
        assert(init.take(k) =~= digits.take(k));
    }
}

/// The scale factor that the text of a command-line argument stands for.
/// Anything but a positive decimal integer of 32 bits is refused.
pub fn parse_scale(text: &str) -> (r: Result<u32, ScaleError>)
    ensures
        match r {
            Ok(scale) => scale_of_text(text.spec_bytes()) == Some(scale),
            Err(e) => e == ScaleError::InvalidArguments && scale_of_text(text.spec_bytes()) is None,
        },
{
    let bytes = text.as_bytes();
    let n: usize = bytes.len();
    let start: usize = if n > 0 && bytes[0] == 43 {
        1
    } else {
        0
    };
    let ghost digits = unsigned_part(bytes@);
    let mut value: u64 = 0;
    let mut i: usize = start;
    while i < n
        invariant
            start <= i <= n,
            n == bytes@.len(),
            bytes@ == text.spec_bytes(),
            digits == unsigned_part(bytes@),
            digits == bytes@.skip(start as int),
            all_digits(digits.take(i - start)),
            value == decimal_value(digits.take(i - start)),
            value <= u32::MAX,
        decreases n - i,
    {
        let b: u8 = bytes[i];
        proof {
            assert(digits.take(i + 1 - start).drop_last() =~= digits.take(i - start));
            lemma_decimal_value_grows(digits, i + 1 - start);
        }
        if b < 48 || b > 57 {
            return Err(ScaleError::InvalidArguments);
        }
        value = value * 10 + (b - 48) as u64;
        if value > u32::MAX as u64 {
            return Err(ScaleError::InvalidArguments);
        }
        i += 1;
    }
    assert(digits.take(n - start) =~= digits);
    if i == start || value == 0 {
        Err(ScaleError::InvalidArguments)
    } else {
        Ok(value as u32)
    }
}

/// The name of the file that the scaled image is written to: the stem of
/// the source file's name followed by `_resized.png`.
pub fn output_file_name(stem: &str) -> (name: String)
    ensures
        name@ == stem@ + "_resized.png"@,
{
    stem.to_owned().concat("_resized.png")
}

} // verus!
