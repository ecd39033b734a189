//! The local wall-clock time, as the monitor stamps each report.

use vstd::prelude::*;

verus! {

pub open spec fn is_ascii_digit(c: char) -> bool {
    '0' <= c && c <= '9'
}

/// A time of day written `HH:MM:SS`: eight characters, two digits each for
/// hour, minute and second, separated by colons.
pub open spec fn is_clock_text(s: Seq<char>) -> bool {
    &&& s.len() == 8
    &&& s[2] == ':' && s[5] == ':'
    &&& is_ascii_digit(s[0]) && is_ascii_digit(s[1])
    &&& is_ascii_digit(s[3]) && is_ascii_digit(s[4])
    &&& is_ascii_digit(s[6]) && is_ascii_digit(s[7])
}

/// `chrono::Local::now()` formatted with `"%H:%M:%S"`. What time it is is not
/// stated, only the shape of the text: chrono writes each of the three fields
/// as two zero-padded digits. chrono panics where the system clock reads a
/// time before 1970 and where the local time zone cannot be looked up for
/// the current instant. Both depend on the machine, not on anything a
/// caller passes, so no `requires` can rule them out; nothing here states
/// when they happen.
#[verifier::external_body]
pub(crate) fn local_clock_text() -> (r: String)
    ensures
        is_clock_text(r@),
{
    chrono::Local::now().format("%H:%M:%S").to_string()
}

} // verus!
