//! Timestamps of comments and threads, shown in local time.
use vstd::prelude::*;

verus! {

/// `chrono` reads `text` as an RFC 3339 date and time.
pub uninterp spec fn rfc3339_accepts(text: Seq<char>) -> bool;

/// One of the English month abbreviations `Jan` to `Dec`.
pub open spec fn month_abbrev(m: Seq<char>) -> bool {
    ||| m == "Jan"@
    ||| m == "Feb"@
    ||| m == "Mar"@
    ||| m == "Apr"@
    ||| m == "May"@
    ||| m == "Jun"@
    ||| m == "Jul"@
    ||| m == "Aug"@
    ||| m == "Sep"@
    ||| m == "Oct"@
    ||| m == "Nov"@
    ||| m == "Dec"@
}

/// The number of the two ASCII digits `s[i]`, `s[i + 1]`, where they are
/// digits.
pub open spec fn two_digits(s: Seq<char>, i: int) -> Option<int> {
    if '0' <= s[i] <= '9' && '0' <= s[i + 1] <= '9' {
        Some((s[i] as int - '0' as int) * 10 + (s[i + 1] as int - '0' as int))
    } else {
        None
    }
}

/// `s` has the shape `Mmm DD, HH:MM`: a month abbreviation, a day from 01 to
/// 31, an hour from 00 to 23 and a minute from 00 to 59.
pub open spec fn month_day_time(s: Seq<char>) -> bool {
    &&& s.len() == 13
    &&& month_abbrev(s.subrange(0, 3))
    &&& s[3] == ' '
    &&& two_digits(s, 4) matches Some(d) && 1 <= d <= 31
    &&& s[6] == ','
    &&& s[7] == ' '
    &&& two_digits(s, 8) matches Some(h) && 0 <= h <= 23
    &&& s[10] == ':'
    &&& two_digits(s, 11) matches Some(m) && 0 <= m <= 59
}

/// `chrono::DateTime::parse_from_rfc3339`, and where it succeeds the value in
/// `chrono::Local` time formatted with `pattern`, which must be
/// `%b %d, %H:%M` (chrono's `to_string` panics on a pattern it cannot
/// format). A label comes back exactly where the text is accepted, as
/// `rfc3339_accepts` names it, and has the shape that chrono documents for
/// those fields (`month_day_time`); which month, day and time it shows
/// depends on the machine's time zone and is left unsaid.
#[verifier::external_body]
fn local_timestamp_label(text: &str, pattern: &str) -> (r: Option<String>)
    requires
        pattern@ == "%b %d, %H:%M"@,
    ensures
        r is Some <==> rfc3339_accepts(text@),
        match r {
            Some(l) => month_day_time(l@),
            None => true,
        },
{
    match chrono::DateTime::parse_from_rfc3339(text) {
        Ok(dt) => Some(dt.with_timezone(&chrono::Local).format(pattern).to_string()),
        Err(_) => None,
    }
}

/// The text shown for a timestamp: its local-time label where there is one,
/// else the stored text itself.
pub fn timestamp_or_raw(value: &str, local_label: Option<String>) -> (r: String)
    ensures
        match local_label {
            Some(l) => r@ == l@,
            None => r@ == value@,
        },
{
    match local_label {
        Some(l) => l,
        None => value.to_owned(),
    }
}

/// A stored RFC 3339 timestamp as `Mon DD, HH:MM` in local time; text that is
/// not RFC 3339 is shown as it is.
pub fn format_timestamp(value: &str) -> (r: String)
    ensures
        rfc3339_accepts(value@) ==> month_day_time(r@),
        !rfc3339_accepts(value@) ==> r@ == value@,
{
    let label = local_timestamp_label(value, "%b %d, %H:%M");
    timestamp_or_raw(value, label)
}

} // verus!
