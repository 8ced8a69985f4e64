use vstd::prelude::*;

verus! {

/// A reading of the UTC clock: whole seconds since the Unix epoch and the nanoseconds
/// past them.
#[derive(Debug, Clone, Copy, PartialEq, Eq, Structural)]
pub struct ClockReading {
    pub secs: i64,
    pub nanos: u32,
}

/// The last `width` decimal digits of `n`, zero-padded on the left.
pub open spec fn decimal_digits(n: int, width: nat) -> Seq<char>
    decreases width,
{
    if width == 0 {
        Seq::empty()
    } else {
        decimal_digits(n / 10, (width - 1) as nat).push(((n % 10) + '0' as int) as char)
    }
}

/// How a reading is printed: the second within its minute in two digits (60 during a
/// leap second), a dot, and the microseconds in six digits, as in `07.250031`.
pub open spec fn stamp_text(secs: int, nanos: int) -> Seq<char> {
    decimal_digits(secs % 60 + nanos / 1_000_000_000, 2) + seq!['.'] + decimal_digits(
        (nanos / 1000) % 1_000_000,
        6,
    )
}

/// Calls `DateTime::<Utc>::from_timestamp(secs, nanos)` and formats the result with
/// `"%S%.6f"`. Per chrono's source, `%S` writes the second plus `nanos / 10^9` in two
/// zero-padded digits and `%.6f` a dot and `nanos / 1000 % 10^6` in six; a timestamp is
/// refused only when its day is out of chrono's range (far beyond 2^37 seconds) or when
/// `nanos` is not below 10^9 outside a leap second.
#[verifier::external_body]
fn format_utc_stamp(secs: i64, nanos: u32) -> (text: Option<String>)
    ensures
        text matches Some(t) ==> t@ == stamp_text(secs as int, nanos as int),
        0 <= secs < 0x20_0000_0000 && nanos < 1_000_000_000 ==> text.is_some(),
{
    match chrono::DateTime::from_timestamp(secs, nanos) {
        Some(time) => Some(time.format("%S%.6f").to_string()),
        None => None,
    }
}

impl ClockReading {
    /// The reading as the khudib programs print it, such as `07.250031`; `None` for a
    /// reading that chrono cannot place in time.
    pub fn stamp(&self) -> (text: Option<String>)
        ensures
            text matches Some(t) ==> t@ == stamp_text(self.secs as int, self.nanos as int),
            0 <= self.secs < 0x20_0000_0000 && self.nanos < 1_000_000_000 ==> text.is_some(),
    {
        format_utc_stamp(self.secs, self.nanos)
    }
}

} // verus!
