//! The current local time.

use vstd::prelude::*;

verus! {

/// A digit `0`–`9`.
pub open spec fn is_digit(c: char) -> bool {
    '0' <= c && c <= '9'
}

/// The shape of the end of a timestamp, `-MM-DDTHH:MM:SS.000Z`, with `9` standing for a
/// digit.
pub open spec fn timestamp_tail() -> Seq<char> {
    "-99-99T99:99:99.000Z"@
}

/// `c` fits the shape character `p`: a digit where `p` is `9`, else `p` itself.
pub open spec fn fits(c: char, p: char) -> bool {
    if p == '9' {
        is_digit(c)
    } else {
        c == p
    }
}

/// A text written by the format `%Y-%m-%dT%H:%M:%S.000Z`: a year of at least four
/// characters, digits with possibly a sign first (chrono writes one outside 0 to 9999),
/// then the tail of `timestamp_tail`.
pub open spec fn is_timestamp(s: Seq<char>) -> bool {
    &&& s.len() >= 24
    &&& forall|i: int| 0 <= i < 20 ==> fits(#[trigger] s[s.len() - 20 + i], timestamp_tail()[i])
    &&& forall|i: int|
        0 <= i < s.len() - 20 ==> is_digit(#[trigger] s[i]) || (i == 0 && (s[i] == '+' || s[i] == '-'))
}

/// `chrono::Local::now()` formatted as `%Y-%m-%dT%H:%M:%S.000Z`. Which instant it
/// shows depends on the clock and the time zone of the machine; the contract states
/// only the shape that chrono's formatting gives every date (the year zero-padded to
/// four digits, with a sign outside 0 to 9999, the other fields as two digits).
#[verifier::external_body]
pub(crate) fn now_iso() -> (r: String)
    ensures
        is_timestamp(r@),
{
    chrono::Local::now().format("%Y-%m-%dT%H:%M:%S.000Z").to_string()
}

} // verus!
