//! The UUIDs that identify assets: drawing a random one and writing one as text.
use vstd::arithmetic::power::pow;
use vstd::prelude::*;

verus! {

/// The lower-case hexadecimal digit of `n` (0 to 15).
pub open spec fn hex_digit(n: int) -> char {
    if n < 10 {
        (48 + n) as char
    } else {
        (87 + n) as char
    }
}

/// The 32 lower-case hexadecimal digits of `id`, most significant first.
pub open spec fn uuid_hex(id: u128) -> Seq<char> {
    Seq::new(32, |i: int| hex_digit((id as int / pow(16, (31 - i) as nat)) % 16))
}

/// The hyphenated text of a UUID: its hexadecimal digits in groups of 8, 4, 4,
/// 4 and 12, separated by `-`.
pub open spec fn uuid_hyphenated(id: u128) -> Seq<char> {
    let h = uuid_hex(id);
    h.subrange(0, 8) + seq!['-'] + h.subrange(8, 12) + seq!['-'] + h.subrange(12, 16) + seq!['-']
        + h.subrange(16, 20) + seq!['-'] + h.subrange(20, 32)
}

/// `uuid::Uuid::new_v4`, as a 128-bit number (`Uuid::as_u128`). The value is
/// random, so nothing is promised about it.
#[verifier::external_body]
pub(crate) fn new_uuid_v4() -> (id: u128) {
    uuid::Uuid::new_v4().as_u128()
}

/// `Uuid::to_string` of `Uuid::from_u128(id)`. The uuid crate formats a UUID
/// through `Display` as its hyphenated lower-case form, whose digits are the
/// big-endian bytes of the 128-bit number; the contract claims that text.
#[verifier::external_body]
pub(crate) fn uuid_to_string(id: u128) -> (text: String)
    ensures
        text@ == uuid_hyphenated(id),
{
    uuid::Uuid::from_u128(id).to_string()
}

} // verus!
