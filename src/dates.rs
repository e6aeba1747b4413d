//! Showing timestamps as text.
use vstd::prelude::*;

verus! {

/// The RFC 3339 text of the instant `secs` seconds after the Unix epoch, in
/// UTC; `None` where that instant lies outside the range chrono represents.
pub uninterp spec fn rfc3339_of(secs: i64) -> Option<Seq<char>>;

/// Relies on chrono's `DateTime::<Utc>::from_timestamp`, which gives `None`
/// out of its range, and on `DateTime::to_rfc3339`, which writes the instant.
#[verifier::external_body]
fn rfc3339_text(secs: i64) -> (r: Option<String>)
    ensures
        r is None <==> rfc3339_of(secs) is None,
        r is Some ==> r->0@ == rfc3339_of(secs)->0,
{
    match chrono::DateTime::<chrono::Utc>::from_timestamp(secs, 0) {
        Some(d) => Some(d.to_rfc3339()),
        None => None,
    }
}

pub open spec fn date_text(date: Option<i64>) -> Seq<char> {
    match date {
        None => "never"@,
        Some(secs) => formatted_text(rfc3339_of(secs)),
    }
}

pub open spec fn formatted_text(formatted: Option<Seq<char>>) -> Seq<char> {
    match formatted {
        Some(t) => t,
        None => "out of range"@,
    }
}

/// The text shown for a formatted instant, or for one that could not be
/// formatted.
pub fn formatted_or_out_of_range(formatted: Option<String>) -> (r: String)
    ensures
        formatted is Some ==> r@ == formatted->0@,
        formatted is None ==> r@ == "out of range"@,
{
    match formatted {
        Some(t) => t,
        None => String::from_str("out of range"),
    }
}

/// A timestamp as shown to users: `never` when absent, else its RFC 3339 text.
pub fn convert_date_to_string(date: Option<i64>) -> (r: String)
    ensures
        r@ == date_text(date),
{
    match date {
        None => String::from_str("never"),
        Some(secs) => formatted_or_out_of_range(rfc3339_text(secs)),
    }
}

} // verus!
