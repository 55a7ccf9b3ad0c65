use vstd::prelude::*;
use rand::Rng;

verus! {

/// A lower-case hexadecimal digit.
pub open spec fn lower_hex_digit(c: char) -> bool {
    ('0' <= c && c <= '9') || ('a' <= c && c <= 'f')
}

/// The hyphenated lower-case text of a UUID: 36 characters, hyphens at 8, 13,
/// 18 and 23, hexadecimal digits elsewhere.
pub open spec fn uuid_text(s: Seq<char>) -> bool {
    &&& s.len() == 36
    &&& forall|i: int| #![trigger s[i]] 0 <= i < 36 ==> if i == 8 || i == 13 || i == 18 || i == 23 {
        s[i] == '-'
    } else {
        lower_hex_digit(s[i])
    }
}

/// Calls `uuid::Uuid::new_v4` and writes the UUID with `to_string`. Claimed:
/// the text is a hyphenated lower-case UUID, as the `Display` impl of `Uuid`
/// writes it. Which UUID comes back is random and not stated.
#[verifier::external_body]
pub(crate) fn new_uuid_text() -> (r: String)
    ensures
        uuid_text(r@),
{
    uuid::Uuid::new_v4().to_string()
}

/// Calls `rand::thread_rng().gen_range(low..high)`. Claimed: the number lies in
/// the range; which one comes back is random and not stated. The range must
/// not be empty, where `gen_range` panics.
#[verifier::external_body]
pub(crate) fn random_below(low: u32, high: u32) -> (r: u32)
    requires
        low < high,
    ensures
        low <= r < high,
{
    rand::thread_rng().gen_range(low..high)
}

} // verus!
