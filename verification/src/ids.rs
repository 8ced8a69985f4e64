use vstd::prelude::*;
use ulid_generator_rs::{ULIDGenerator, ULID};
use crate::binary::pow2;

verus! {

/// `ulid_generator_rs::ULIDGenerator`, a source of fresh ULIDs, carried through as it is.
#[verifier::external_type_specification]
#[verifier::external_body]
pub struct ExULIDGenerator(ULIDGenerator);

/// A request identifier: a 128-bit ULID, kept as its upper and lower 64 bits.
#[derive(Debug, Clone, Copy, PartialEq, Eq, Structural)]
pub struct RequestId {
    pub high: u64,
    pub low: u64,
}

/// Why no identifier could be made.
#[derive(Debug, Clone, Copy, PartialEq, Eq, Structural)]
pub enum IdError {
    /// The generator refused: the clock in milliseconds does not fit in 48 bits.
    ClockOutOfRange,
}

/// The 128-bit number that `id` stands for.
pub open spec fn id_value(id: RequestId) -> int {
    id.high as int * pow2(64) as int + id.low as int
}

/// The digits of Crockford's base 32, in order of value.
pub open spec fn crockford_digit(d: int) -> char {
    seq![
        '0', '1', '2', '3', '4', '5', '6', '7', '8', '9', 'A', 'B', 'C', 'D', 'E', 'F',
        'G', 'H', 'J', 'K', 'M', 'N', 'P', 'Q', 'R', 'S', 'T', 'V', 'W', 'X', 'Y', 'Z',
    ][d]
}

/// The text of an identifier: its 128-bit value as 26 digits of Crockford's base 32,
/// most significant first (the first digit holds the top 3 bits, each other one 5 bits).
pub open spec fn id_text(id: RequestId) -> Seq<char> {
    Seq::new(26, |i: int| crockford_digit((id_value(id) / pow2((125 - 5 * i) as nat) as int) % 32))
}

/// Calls `ULID::to_string` on the ULID made of `high` and `low`. In the crate's source
/// it writes the value in 26 digits of Crockford's base 32, the first from the top 3 bits
/// and each next one from the next 5, which is what the contract states.
#[verifier::external_body]
fn ulid_to_text(high: u64, low: u64) -> (text: String)
    ensures
        text@ == id_text(RequestId { high, low }),
{
    ULID::from((high, low)).to_string()
}

/// Calls `ULIDGenerator::generate`, which reads the clock and the generator's random
/// source, and hands back the new ULID's upper and lower 64 bits. Per the crate's source
/// it fails only when the time in milliseconds does not fit in 48 bits. What identifier
/// comes back depends on the time and on chance: the contract promises nothing of it.
/// The random source reseeds itself from the operating system now and then, and panics
/// if that source fails; this depends on the machine, not on the arguments.
#[verifier::external_body]
pub(crate) fn generate_ulid(generator: &mut ULIDGenerator) -> (id: Result<RequestId, IdError>) {
    match generator.generate() {
        Ok(ulid) => Ok(
            RequestId { high: ulid.most_significant_bits(), low: ulid.least_significant_bits() },
        ),
        Err(_) => Err(IdError::ClockOutOfRange),
    }
}

impl RequestId {
    /// The identifier's text, as it travels in requests and is printed.
    pub fn text(&self) -> (text: String)
        ensures
            text@ == id_text(*self),
    {
        ulid_to_text(self.high, self.low)
    }
}

} // verus!
