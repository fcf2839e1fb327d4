use vstd::prelude::*;

verus! {

/// A decimal digit character.
pub open spec fn is_digit(c: char) -> bool {
    '0' <= c && c <= '9'
}

/// A wall-clock stamp of the form `HH:MM:SS`: eight characters, colons at
/// positions 2 and 5, digits elsewhere.
pub open spec fn is_clock_stamp(s: Seq<char>) -> bool {
    &&& s.len() == 8
    &&& s[2] == ':'
    &&& s[5] == ':'
    &&& is_digit(s[0]) && is_digit(s[1])
    &&& is_digit(s[3]) && is_digit(s[4])
    &&& is_digit(s[6]) && is_digit(s[7])
}

/// Reads the local wall clock: calls `chrono::Local::now`, then
/// `chrono::DateTime::format` with the pattern `%H:%M:%S`, and renders the
/// result to a `String`.
///
/// Claimed: the text is eight characters, two zero-padded digits each for
/// hour, minute and second, separated by colons (chrono writes each of these
/// fields through `write_two` with zero padding, and the three values are
/// below 100). Which digits come out depends on the system clock and time
/// zone and is not stated.
///
/// chrono panics here only when the environment is broken, whatever the
/// call: when the system clock reads before 1970 (`Utc::now`), or when the
/// local time-zone offset cannot be represented (`Local`'s offset lookup).
/// No argument could rule that out.
#[verifier::external_body]
pub(crate) fn clock_stamp() -> (s: String)
    ensures
        is_clock_stamp(s@),
{
    chrono::Local::now().format("%H:%M:%S").to_string()
}

} // verus!
