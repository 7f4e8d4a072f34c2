//! Identifiers of messages: UUIDs and message SIDs.

use rand::Rng;
use vstd::prelude::*;

use crate::text;

verus! {

/// The version and variant bits of `id` are those of a random (version 4) UUID.
pub open spec fn is_random_uuid(id: u128) -> bool {
    (id >> 76) & 0xf == 4 && (id >> 62) & 0x3 == 2
}

/// Calls `uuid::Uuid::new_v4` and gives the identifier as a number. Which one it is depends on
/// chance; each has the version and variant bits of a random UUID. It panics where the operating
/// system has no randomness to give.
#[verifier::external_body]
pub(crate) fn new_uuid() -> (id: u128)
    ensures
        is_random_uuid(id),
{
    uuid::Uuid::new_v4().as_u128()
}

/// The hexadecimal digit of `id` at place `k`, where place 0 is the most significant of 32.
pub open spec fn uuid_digit(id: u128, k: int) -> char {
    text::hex_digit((id as int / vstd::arithmetic::power::pow(16, (31 - k) as nat)) % 16)
}

/// `id` as a UUID is written: 32 hexadecimal digits in groups of 8, 4, 4, 4 and 12.
pub open spec fn hyphenated(id: u128) -> Seq<char> {
    let digits = |from: int, to: int|
        Seq::new((to - from) as nat, |k: int| uuid_digit(id, from + k));
    digits(0, 8) + "-"@ + digits(8, 12) + "-"@ + digits(12, 16) + "-"@ + digits(16, 20) + "-"@
        + digits(20, 32)
}

/// Calls `uuid::Uuid`'s `Display` on the UUID with the number `id`: its lower-case hyphenated form.
#[verifier::external_body]
pub(crate) fn uuid_text(id: u128) -> (out: String)
    ensures
        out@ == hyphenated(id),
{
    uuid::Uuid::from_u128(id).to_string()
}

/// The thread-local random number generator of `rand`.
#[verifier::external_type_specification]
#[verifier::external_body]
pub struct ExThreadRng(rand::rngs::ThreadRng);

/// `rand::rng` hands out the generator of the current thread. Nothing is claimed of it. It panics
/// where the operating system has no randomness to seed it with.
pub assume_specification[ rand::rng ]() -> (rng: rand::rngs::ThreadRng)
;

/// Calls `Rng::random_range` on the range from 0 to `bound`, which must not be empty. Which number
/// comes depends on chance; each lies in the range.
#[verifier::external_body]
fn random_below(rng: &mut rand::rngs::ThreadRng, bound: u32) -> (n: u32)
    requires
        0 < bound,
    ensures
        n < bound,
{
    rng.random_range(0..bound)
}

/// How many random digits a SID has.
pub const SID_DIGITS: usize = 32;

/// The SID with the given hexadecimal digits: `SM`, then the digits in lower case.
pub open spec fn sid_with(digits: Seq<u32>) -> Seq<char> {
    "SM"@ + digits.map_values(|d: u32| text::hex_digit(d as int))
}

/// A Twilio-style SID: `SM` + 32 lowercase hex.
pub open spec fn is_sid(s: Seq<char>) -> bool {
    exists|digits: Seq<u32>|
        digits.len() == SID_DIGITS && (forall|i: int|
            0 <= i < digits.len() ==> #[trigger] digits[i] < 16) && s == #[trigger] sid_with(digits)
}

/// Writes the SID with the given digits.
pub fn sid_of(digits: &Vec<u32>) -> (sid: String)
    requires
        forall|i: int| 0 <= i < digits.len() ==> #[trigger] digits[i] < 16,
    ensures
        sid@ == sid_with(digits@),
{
    let mut sid = "SM".to_string();
    for k in 0..digits.len()
        invariant
            forall|i: int| 0 <= i < digits.len() ==> #[trigger] digits[i] < 16,
            sid@ == sid_with(digits@.take(k as int)),
    {
        sid.push(text::hex_char(digits[k]));
        assert(sid@ =~= sid_with(digits@.take(k + 1)));
    }
    assert(digits@.take(digits.len() as int) =~= digits@);
    sid
}

/// Twilio-style SID: `SM` + 32 lowercase hex.
pub fn new_sid() -> (sid: String)
    ensures
        is_sid(sid@),
{
    let mut rng = rand::rng();
    let mut digits: Vec<u32> = Vec::new();
    for k in 0..SID_DIGITS
        invariant
            digits.len() == k,
            forall|i: int| 0 <= i < digits.len() ==> #[trigger] digits[i] < 16,
    {
        digits.push(random_below(&mut rng, 16));
    }
    sid_of(&digits)
}

/// A SID has 34 characters: `SM`, then 32 lower-case hexadecimal digits.
pub proof fn sid_shape(s: Seq<char>)
    requires
        is_sid(s),
    ensures
        s.len() == 34,
        s[0] == 'S',
        s[1] == 'M',
        forall|i: int|
            2 <= i < 34 ==> '0' <= #[trigger] s[i] <= '9' || 'a' <= s[i] <= 'f',
{
    reveal_strlit("SM");
    reveal_strlit("0123456789abcdef");
}

/// A SID spells its digits out one by one, in their order, each by its own hexadecimal digit.
pub proof fn sid_spells_its_digits(digits: Seq<u32>, i: int)
    requires
        0 <= i < digits.len(),
        digits[i] < 16,
    ensures
        sid_with(digits).len() == digits.len() + 2,
        sid_with(digits)[0] == 'S',
        sid_with(digits)[1] == 'M',
        sid_with(digits)[i + 2] as int == if digits[i] < 10 {
            48 + digits[i]
        } else {
            87 + digits[i]
        },
{
    reveal_strlit("SM");
    text::hex_digit_code_points(digits[i] as int);
}

/// A UUID is written in 36 characters: hyphens in the four places that part the groups, and
/// lower-case hexadecimal digits in the others.
pub proof fn uuid_shape(id: u128, i: int)
    requires
        0 <= i < 36,
    ensures
        hyphenated(id).len() == 36,
        i == 8 || i == 13 || i == 18 || i == 23 ==> hyphenated(id)[i] == '-',
        !(i == 8 || i == 13 || i == 18 || i == 23) ==> '0' <= hyphenated(id)[i] <= '9' || 'a'
            <= hyphenated(id)[i] <= 'f',
{
    reveal_strlit("-");
    reveal_strlit("0123456789abcdef");
}

} // verus!
