use vstd::prelude::*;
use vstd::string::{is_ascii, StringSliceAdditionalSpecFns};
use crate::config::{CharWidth, FlowControl, StopBits};

verus! {

broadcast use vstd::string::is_ascii_spec_bytes;

/// Why an option's text was refused.
#[derive(Clone, Copy, Debug, PartialEq, Eq, Structural)]
pub enum ParseError {
    /// The text is not a decimal number.
    InvalidNumber,
    /// The number is too large.
    OutOfRange,
    /// The text names none of the accepted values.
    UnknownValue,
}

/// Byte of the digit zero.
pub const DIGIT_ZERO: u8 = 48;

/// Byte of the digit nine.
pub const DIGIT_NINE: u8 = 57;

pub open spec fn is_digit(b: u8) -> bool {
    DIGIT_ZERO <= b <= DIGIT_NINE
}

pub open spec fn all_digits(bs: Seq<u8>) -> bool {
    forall|i: int| 0 <= i < bs.len() ==> is_digit(#[trigger] bs[i])
}

/// The number that the decimal digits `bs` write.
pub open spec fn digits_value(bs: Seq<u8>) -> int
    decreases bs.len(),
{
    if bs.len() == 0 {
        0
    } else {
        digits_value(bs.drop_last()) * 10 + (bs.last() - DIGIT_ZERO)
    }
}

/// What a decimal option gives for the text `bs`, with `max` the largest
/// value it may hold.
pub open spec fn decimal_result(bs: Seq<u8>, max: int) -> Result<int, ParseError> {
    if bs.len() == 0 || !all_digits(bs) {
        Err(ParseError::InvalidNumber)
    } else if digits_value(bs) > max {
        Err(ParseError::OutOfRange)
    } else {
        Ok(digits_value(bs))
    }
}

proof fn lemma_value_grows(bs: Seq<u8>, k: int)
    requires
        0 <= k <= bs.len(),
        all_digits(bs),
    ensures
        digits_value(bs.subrange(0, k)) <= digits_value(bs),
        0 <= digits_value(bs.subrange(0, k)),
    decreases bs.len(),
{
    if k < bs.len() {
        assert(bs.drop_last().subrange(0, k) =~= bs.subrange(0, k));
        lemma_value_grows(bs.drop_last(), k);
        assert(is_digit(bs[bs.len() - 1]));
    } else {
        assert(bs.subrange(0, k) =~= bs);
        if bs.len() > 0 {
            lemma_value_grows(bs.drop_last(), bs.len() - 1);
            assert(bs.drop_last().subrange(0, bs.len() - 1) =~= bs.drop_last());
            assert(is_digit(bs[bs.len() - 1]));
        }
    }
}

/// Reads a decimal number of at most `max`.
fn parse_decimal(s: &str, max: u64) -> (r: Result<u64, ParseError>)
    requires
        max >= 9,
    ensures
        match decimal_result(s.spec_bytes(), max as int) {
            Ok(v) => r == Ok::<u64, ParseError>(v as u64),
            Err(e) => r == Err::<u64, ParseError>(e),
        },
{
    let bs = s.as_bytes();
    let ghost b = s.spec_bytes();
    if bs.len() == 0 {
        return Err(ParseError::InvalidNumber);
    }
    let mut i: usize = 0;
    while i < bs.len()
        invariant
            bs@ == b,
            b == s.spec_bytes(),
            0 <= i <= bs.len(),
            forall|j: int| 0 <= j < i ==> is_digit(#[trigger] b[j]),
        decreases bs.len() - i,
    {
        if !(DIGIT_ZERO <= bs[i] && bs[i] <= DIGIT_NINE) {
            proof {
                assert(!is_digit(b[i as int]));
            }
            return Err(ParseError::InvalidNumber);
        }
        i = i + 1;
    }
    let mut v: u64 = 0;
    let mut k: usize = 0;
    while k < bs.len()
        invariant
            bs@ == b,
            b == s.spec_bytes(),
            max >= 9,
            all_digits(b),
            0 <= k <= bs.len(),
            v as int == digits_value(b.subrange(0, k as int)),
            v <= max,
        decreases bs.len() - k,
    {
        let d = (bs[k] - DIGIT_ZERO) as u64;
        proof {
            assert(b.subrange(0, k as int + 1).drop_last() =~= b.subrange(0, k as int));
            assert(is_digit(b[k as int]));
        }
        if v > (max - d) / 10 {
            proof {
                assert(v * 10 + d > max) by (nonlinear_arith)
                    requires v > (max - d) / 10, d <= max || d > max;
                lemma_value_grows(b, k as int + 1);
                assert(digits_value(b.subrange(0, k as int + 1)) == v * 10 + d);
            }
            return Err(ParseError::OutOfRange);
        }
        proof {
            assert(digits_value(b.subrange(0, k as int + 1)) == v * 10 + d);
            assert(v * 10 + d <= max) by (nonlinear_arith)
                requires v <= (max - d) / 10, d <= 9, v >= 0;
        }
        v = v * 10 + d;
        k = k + 1;
    }
    proof {
        assert(b.subrange(0, b.len() as int) =~= b);
    }
    Ok(v)
}

/// Whether two byte strings are equal.
fn same_bytes(a: &[u8], b: &[u8]) -> (r: bool)
    ensures
        r == (a@ == b@),
{
    if a.len() != b.len() {
        return false;
    }
    let mut i: usize = 0;
    while i < a.len()
        invariant
            a@.len() == b@.len(),
            0 <= i <= a.len(),
            forall|j: int| 0 <= j < i ==> a@[j] == b@[j],
        decreases a.len() - i,
    {
        if a[i] != b[i] {
            return false;
        }
        i = i + 1;
    }
    proof {
        assert(a@ =~= b@);
    }
    true
}

/// Whether the text `s` is exactly the word `w`.
pub open spec fn is_word(s: &str, w: &str) -> bool {
    s.spec_bytes() == w.spec_bytes()
}

/// Reads a baud rate: a decimal number of bits per second.
pub fn parse_baud_rate(s: &str) -> (r: Result<usize, ParseError>)
    ensures
        match decimal_result(s.spec_bytes(), usize::MAX as int) {
            Ok(v) => r == Ok::<usize, ParseError>(v as usize),
            Err(e) => r == Err::<usize, ParseError>(e),
        },
{
    proof {
        assert(usize::MAX <= u64::MAX);
        assert((usize::MAX as u64) as int == usize::MAX as int);
    }
    match parse_decimal(s, usize::MAX as u64) {
        Ok(v) => {
            proof {
                let b = s.spec_bytes();
                assert(decimal_result(b, usize::MAX as int) is Ok);
                lemma_value_grows(b, b.len() as int);
                assert(b.subrange(0, b.len() as int) =~= b);
                assert(v as int == digits_value(b));
            }
            Ok(v as usize)
        },
        Err(e) => Err(e),
    }
}

/// Reads a timeout: a decimal number of seconds.
pub fn parse_timeout(s: &str) -> (r: Result<u64, ParseError>)
    ensures
        match decimal_result(s.spec_bytes(), u64::MAX as int) {
            Ok(v) => r == Ok::<u64, ParseError>(v as u64),
            Err(e) => r == Err::<u64, ParseError>(e),
        },
{
    parse_decimal(s, u64::MAX)
}

/// Reads a character width: `5`, `6`, `7` or `8`.
pub fn parse_width(s: &str) -> (r: Result<CharWidth, ParseError>)
    ensures
        is_word(s, "5") ==> r == Ok::<CharWidth, ParseError>(CharWidth::Bits5),
        is_word(s, "6") ==> r == Ok::<CharWidth, ParseError>(CharWidth::Bits6),
        is_word(s, "7") ==> r == Ok::<CharWidth, ParseError>(CharWidth::Bits7),
        is_word(s, "8") ==> r == Ok::<CharWidth, ParseError>(CharWidth::Bits8),
        !is_word(s, "5") && !is_word(s, "6") && !is_word(s, "7") && !is_word(s, "8")
            ==> r == Err::<CharWidth, ParseError>(ParseError::UnknownValue),
{
    proof {
        reveal_strlit("5");
        reveal_strlit("6");
        reveal_strlit("7");
        reveal_strlit("8");
        assert(is_ascii("5") && is_ascii("6") && is_ascii("7") && is_ascii("8"));
        assert("5".spec_bytes()[0] != "6".spec_bytes()[0]);
    }
    let b = s.as_bytes();
    if same_bytes(b, "5".as_bytes()) {
        Ok(CharWidth::Bits5)
    } else if same_bytes(b, "6".as_bytes()) {
        Ok(CharWidth::Bits6)
    } else if same_bytes(b, "7".as_bytes()) {
        Ok(CharWidth::Bits7)
    } else if same_bytes(b, "8".as_bytes()) {
        Ok(CharWidth::Bits8)
    } else {
        Err(ParseError::UnknownValue)
    }
}

/// Reads a number of stop bits: `1` or `2`.
pub fn parse_stop_bits(s: &str) -> (r: Result<StopBits, ParseError>)
    ensures
        is_word(s, "1") ==> r == Ok::<StopBits, ParseError>(StopBits::Stop1),
        is_word(s, "2") ==> r == Ok::<StopBits, ParseError>(StopBits::Stop2),
        !is_word(s, "1") && !is_word(s, "2")
            ==> r == Err::<StopBits, ParseError>(ParseError::UnknownValue),
{
    proof {
        reveal_strlit("1");
        reveal_strlit("2");
        assert(is_ascii("1") && is_ascii("2"));
        assert("1".spec_bytes()[0] != "2".spec_bytes()[0]);
    }
    let b = s.as_bytes();
    if same_bytes(b, "1".as_bytes()) {
        Ok(StopBits::Stop1)
    } else if same_bytes(b, "2".as_bytes()) {
        Ok(StopBits::Stop2)
    } else {
        Err(ParseError::UnknownValue)
    }
}

/// Reads a flow control: `none`, `software` or `hardware`.
pub fn parse_flow_control(s: &str) -> (r: Result<FlowControl, ParseError>)
    ensures
        is_word(s, "none") ==> r == Ok::<FlowControl, ParseError>(FlowControl::FlowNone),
        is_word(s, "software") ==> r == Ok::<FlowControl, ParseError>(FlowControl::FlowSoftware),
        is_word(s, "hardware") ==> r == Ok::<FlowControl, ParseError>(FlowControl::FlowHardware),
        !is_word(s, "none") && !is_word(s, "software") && !is_word(s, "hardware")
            ==> r == Err::<FlowControl, ParseError>(ParseError::UnknownValue),
{
    proof {
        reveal_strlit("none");
        reveal_strlit("software");
        reveal_strlit("hardware");
        assert(is_ascii("none") && is_ascii("software") && is_ascii("hardware"));
        assert("none".spec_bytes().len() != "software".spec_bytes().len());
        assert("none".spec_bytes().len() != "hardware".spec_bytes().len());
        assert("software".spec_bytes()[0] != "hardware".spec_bytes()[0]);
    }
    let b = s.as_bytes();
    if same_bytes(b, "none".as_bytes()) {
        Ok(FlowControl::FlowNone)
    } else if same_bytes(b, "software".as_bytes()) {
        Ok(FlowControl::FlowSoftware)
    } else if same_bytes(b, "hardware".as_bytes()) {
        Ok(FlowControl::FlowHardware)
    } else {
        Err(ParseError::UnknownValue)
    }
}

} // verus!
