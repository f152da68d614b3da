//! Identifiers and clock readings that come from outside the library.

use vstd::prelude::*;

verus! {

/// A fresh time-ordered identifier: calls `uuid::Uuid::now_v7` and returns
/// its 128-bit value. The value depends on the clock and on random bits;
/// it is never the nil id, since a version-7 id carries its version bits.
#[verifier::external_body]
pub(crate) fn fresh_id() -> (id: u128)
    ensures
        id != 0,
{
    uuid::Uuid::now_v7().as_u128()
}

/// The lower-case hexadecimal digit for `n` (0 to 15).
pub open spec fn hex_digit(n: u128) -> char {
    seq!['0', '1', '2', '3', '4', '5', '6', '7', '8', '9', 'a', 'b', 'c', 'd', 'e', 'f'][n as int]
}

/// The `k`-th hexadecimal digit of `id` (0 to 31), most significant first.
pub open spec fn id_nibble(id: u128, k: int) -> u128 {
    (id >> ((124 - 4 * k) as u128)) & 15
}

/// Which of the 32 digits stands at position `p` of the hyphenated text.
pub open spec fn digit_at(p: int) -> int {
    if p < 8 {
        p
    } else if p < 13 {
        p - 1
    } else if p < 18 {
        p - 2
    } else if p < 23 {
        p - 3
    } else {
        p - 4
    }
}

/// The canonical hyphenated lower-case text of an identifier: its 32
/// hexadecimal digits, most significant first, in groups of 8-4-4-4-12
/// joined by hyphens.
#[verifier::opaque]
pub open spec fn id_text_of(id: u128) -> Seq<char> {
    Seq::new(
        36,
        |p: int|
            if p == 8 || p == 13 || p == 18 || p == 23 {
                '-'
            } else {
                hex_digit(id_nibble(id, digit_at(p)))
            },
    )
}

/// Calls `uuid::Uuid::from_u128(id).hyphenated().to_string()`, which reads
/// the id's bytes big-endian and writes them as `id_text_of(id)` says.
#[verifier::external_body]
pub(crate) fn id_text(id: u128) -> (s: String)
    ensures
        s@ == id_text_of(id),
{
    uuid::Uuid::from_u128(id).hyphenated().to_string()
}

/// The current time in milliseconds since the Unix epoch: calls
/// `chrono::Utc::now().timestamp_millis()`. The value is the machine's
/// clock; it is never before the epoch (`Utc::now` refuses such a clock).
#[verifier::external_body]
pub(crate) fn now_millis() -> (t: i64)
    ensures
        t >= 0,
{
    chrono::Utc::now().timestamp_millis()
}

} // verus!
