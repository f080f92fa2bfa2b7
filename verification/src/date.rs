//! Validation of the last-activity date of a search.
use vstd::prelude::*;
use vstd::string::*;

use crate::model::SearchCriteria;

verus! {

/// Whether chrono reads `s` as a calendar date (`YYYY-MM-DD`, the
/// `FromStr` of `chrono::NaiveDate`).
pub uninterp spec fn parses_as_naive_date(s: Seq<char>) -> bool;

/// Whether chrono reads `s` as a date and time with an offset (relaxed
/// RFC 3339, the `FromStr` of `chrono::DateTime<chrono::Utc>`).
pub uninterp spec fn parses_as_utc_datetime(s: Seq<char>) -> bool;

/// Calls `str::parse::<chrono::NaiveDate>` (chrono's `FromStr for
/// NaiveDate`) and reports whether it succeeded. Trusted: the contract only
/// names the outcome as a function of the text; what chrono accepts is not
/// restated.
#[verifier::external_body]
fn naive_date_parses(s: &str) -> (r: bool)
    ensures
        r == parses_as_naive_date(s@),
{
    s.parse::<chrono::NaiveDate>().is_ok()
}

/// Calls `str::parse::<chrono::DateTime<chrono::Utc>>` (chrono's `FromStr
/// for DateTime<Utc>`) and reports whether it succeeded. Trusted: the
/// contract only names the outcome as a function of the text; what chrono
/// accepts is not restated.
#[verifier::external_body]
fn utc_datetime_parses(s: &str) -> (r: bool)
    ensures
        r == parses_as_utc_datetime(s@),
{
    s.parse::<chrono::DateTime<chrono::Utc>>().is_ok()
}

/// The message of a date that is neither a date nor a date and time.
pub open spec fn invalid_date_message(date: Seq<char>) -> Seq<char> {
    "invalid date format: "@ + date + " (expected YYYY-MM-DD)"@
}

/// The verdict on a date, given whether it reads as a date and whether it
/// reads as a date and time: the empty text is accepted, any other text
/// must read as one of the two.
pub fn date_verdict(date: &str, as_date: bool, as_datetime: bool) -> (r: Result<(), String>)
    ensures
        date@.len() == 0 ==> r is Ok,
        date@.len() > 0 ==> (r is Ok <==> (as_date || as_datetime)),
        r matches Err(m) ==> m@ == invalid_date_message(date@),
{
    if date.is_empty() || as_date || as_datetime {
        Ok(())
    } else {
        let mut msg = String::from_str("invalid date format: ");
        msg.append(date);
        msg.append(" (expected YYYY-MM-DD)");
        Err(msg)
    }
}

/// Accepts the empty text, a date or a date and time; refuses anything
/// else with a message that quotes it.
pub fn validate_date(date: &str) -> (r: Result<(), String>)
    ensures
        date@.len() == 0 ==> r is Ok,
        date@.len() > 0 ==> (r is Ok <==> (parses_as_naive_date(date@) || parses_as_utc_datetime(
            date@,
        ))),
        r matches Err(m) ==> m@ == invalid_date_message(date@),
{
    if date.is_empty() {
        return Ok(());
    }
    let as_date = naive_date_parses(date);
    let as_datetime = if as_date {
        false
    } else {
        utc_datetime_parses(date)
    };
    date_verdict(date, as_date, as_datetime)
}

/// Checks the criteria of a search before it runs: the last-activity date,
/// when given, must be valid.
pub fn check_search_criteria(criteria: &SearchCriteria) -> (r: Result<(), String>)
    ensures
        match criteria.last_activity_after {
            None => r is Ok,
            Some(d) => {
                &&& d@.len() == 0 ==> r is Ok
                &&& d@.len() > 0 ==> (r is Ok <==> (parses_as_naive_date(d@)
                    || parses_as_utc_datetime(d@)))
                &&& r matches Err(m) ==> m@ == invalid_date_message(d@)
            },
        },
{
    match &criteria.last_activity_after {
        Some(d) => validate_date(d.as_str()),
        None => Ok(()),
    }
}

} // verus!
