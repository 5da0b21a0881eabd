use vstd::prelude::*;

verus! {

/// A character that a numeric `chrono` date or time field, or the literal
/// separators of the formats used here, can produce.
pub open spec fn is_time_char(c: char) -> bool {
    ('0' <= c && c <= '9') || c == '-' || c == '+' || c == ' ' || c == ':' || c == '_'
}

/// Text made of `is_time_char` characters only.
pub open spec fn is_time_text(s: Seq<char>) -> bool {
    forall|i: int| 0 <= i < s.len() ==> is_time_char(#[trigger] s[i])
}

/// A character that stands where pattern character `p` does: `#` stands
/// for a decimal digit, `~` for a sign, any other character for itself.
pub open spec fn slot_fits(p: char, c: char) -> bool {
    if p == '#' {
        '0' <= c && c <= '9'
    } else if p == '~' {
        c == '+' || c == '-'
    } else {
        c == p
    }
}

/// `s` ends in the shape of `pat` (see `slot_fits`).
pub open spec fn ends_like(s: Seq<char>, pat: Seq<char>) -> bool {
    s.len() >= pat.len() && forall|i: int|
        0 <= i < pat.len() ==> slot_fits(#[trigger] pat[i], s[s.len() - pat.len() + i])
}

/// `chrono::Local::now()` formatted with `"%Y-%m-%d %H:%M"`. The value
/// depends on the clock and the time zone, so only its shape is claimed:
/// numeric fields and the separators of the format; the year takes at least
/// four characters (a sign and more digits outside 0..=9999), every other
/// field exactly two digits.
#[verifier::external_body]
pub(crate) fn local_minute_text() -> (r: String)
    ensures
        is_time_text(r@),
        r@.len() >= 16,
        ends_like(r@, "-##-## ##:##"@),
{
    chrono::Local::now().format("%Y-%m-%d %H:%M").to_string()
}

/// `chrono::Local::now()` formatted with `"%Y-%m-%d"`: today's date. Only
/// its shape is claimed, as for `local_minute_text`.
#[verifier::external_body]
pub(crate) fn local_date_text() -> (r: String)
    ensures
        is_time_text(r@),
        r@.len() >= 10,
        ends_like(r@, "-##-##"@),
{
    chrono::Local::now().format("%Y-%m-%d").to_string()
}

/// `chrono::Local::now()` formatted with `"%Y-%m-%d_%H-%M-%S"`, a name for
/// a session. Only its shape is claimed, as for `local_minute_text`.
#[verifier::external_body]
pub(crate) fn local_session_stamp() -> (r: String)
    ensures
        is_time_text(r@),
        r@.len() >= 19,
        ends_like(r@, "-##-##_##-##-##"@),
{
    chrono::Local::now().format("%Y-%m-%d_%H-%M-%S").to_string()
}

/// `chrono::Local::now().to_rfc3339()`: the current time with its offset.
/// Only its shape is claimed: at least a four-digit year, month, day,
/// `T`, hours, minutes and seconds (with a fraction when the nanoseconds
/// are not zero), and an offset in hours and minutes at the end.
#[verifier::external_body]
pub(crate) fn local_rfc3339() -> (r: String)
    ensures
        r@.len() >= 25,
        ends_like(r@, "~##:##"@),
{
    chrono::Local::now().to_rfc3339()
}

} // verus!
