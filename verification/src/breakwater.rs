use vstd::prelude::*;
use std::num::IntErrorKind;

verus! {

/// The request that the breakwater client sends: who it is, how many requests it
/// has and how many credits it holds.
#[derive(Debug, Clone, Copy, PartialEq, Eq)]
pub struct BreakwaterRequest {
    pub id: i32,
    pub requests: i32,
    pub credits: i32,
}

/// Why a text is not a number of type `i32`.
#[derive(Debug, Clone, Copy, PartialEq, Eq, Structural)]
pub enum NumberError {
    /// The text is empty.
    Empty,
    /// The text holds something other than an optional sign followed by digits.
    InvalidDigit,
    /// The number is above `i32::MAX`.
    PosOverflow,
    /// The number is below `i32::MIN`.
    NegOverflow,
    /// Any other reason that the standard library may give.
    Other,
}

/// `c` is one of `0` to `9`.
pub open spec fn is_decimal_digit(c: char) -> bool {
    '0' as int <= c as int <= '9' as int
}

/// The value of a string of decimal digits, most significant first.
pub open spec fn digits_value(digits: Seq<char>) -> int
    decreases digits.len(),
{
    if digits.len() == 0 {
        0
    } else {
        10 * digits_value(digits.drop_last()) + (digits.last() as int - '0' as int)
    }
}

/// The integer that `text` writes in decimal, with an optional leading `+` or `-`
/// and at least one digit; `None` where `text` is not of that form.
pub open spec fn decimal_value(text: Seq<char>) -> Option<int> {
    if text.len() == 0 {
        None
    } else {
        let negative = text[0] == '-';
        let digits = if text[0] == '-' || text[0] == '+' {
            text.drop_first()
        } else {
            text
        };
        if digits.len() > 0 && forall|i: int| 0 <= i < digits.len() ==> is_decimal_digit(digits[i]) {
            Some(
                if negative {
                    -digits_value(digits)
                } else {
                    digits_value(digits)
                },
            )
        } else {
            None
        }
    }
}

/// `text` writes a number that fits in an `i32`.
pub open spec fn fits_i32(text: Seq<char>) -> bool {
    decimal_value(text) matches Some(v) && i32::MIN <= v <= i32::MAX
}

/// Calls `str::parse::<i32>`. Its documentation gives the accepted texts (an optional
/// `+` or `-`, then decimal digits only, of a value that fits) and says that an
/// empty text is refused as empty; the contract states that. Which of the other kinds
/// an error carries is left unsaid.
#[verifier::external_body]
fn parse_i32(text: &str) -> (parsed: Result<i32, NumberError>)
    ensures
        parsed.is_ok() == fits_i32(text@),
        parsed matches Ok(v) ==> decimal_value(text@) == Some(v as int),
        (parsed == Err::<i32, NumberError>(NumberError::Empty)) == (text@.len() == 0),
{
    match text.parse::<i32>() {
        Ok(v) => Ok(v),
        Err(e) => Err(
            match e.kind() {
                IntErrorKind::Empty => NumberError::Empty,
                IntErrorKind::InvalidDigit => NumberError::InvalidDigit,
                IntErrorKind::PosOverflow => NumberError::PosOverflow,
                IntErrorKind::NegOverflow => NumberError::NegOverflow,
                _ => NumberError::Other,
            },
        ),
    }
}

/// Builds the breakwater request from the three numbers as they were typed, in the
/// order client id, requests, credits. The first text that is not an `i32` decides
/// the error.
pub fn breakwater_request(id: &str, requests: &str, credits: &str) -> (request: Result<
    BreakwaterRequest,
    NumberError,
>)
    ensures
        request is Ok <==> fits_i32(id@) && fits_i32(requests@) && fits_i32(credits@),
        request matches Ok(r) ==> decimal_value(id@) == Some(r.id as int) && decimal_value(
            requests@,
        ) == Some(r.requests as int) && decimal_value(credits@) == Some(r.credits as int),
        !fits_i32(id@) ==> (request == Err::<BreakwaterRequest, NumberError>(NumberError::Empty)
            <==> id@.len() == 0),
        fits_i32(id@) && !fits_i32(requests@) ==> (request == Err::<
            BreakwaterRequest,
            NumberError,
        >(NumberError::Empty) <==> requests@.len() == 0),
        fits_i32(id@) && fits_i32(requests@) && !fits_i32(credits@) ==> (request == Err::<
            BreakwaterRequest,
            NumberError,
        >(NumberError::Empty) <==> credits@.len() == 0),
{
    let id = match parse_i32(id) {
        Ok(v) => v,
        Err(e) => return Err(e),
    };
    let requests = match parse_i32(requests) {
        Ok(v) => v,
        Err(e) => return Err(e),
    };
    let credits = match parse_i32(credits) {
        Ok(v) => v,
        Err(e) => return Err(e),
    };
    Ok(BreakwaterRequest { id, requests, credits })
}

} // verus!
