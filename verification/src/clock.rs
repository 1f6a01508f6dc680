//! Source of the current calendar date.

use vstd::prelude::*;
use chrono::Datelike;
use crate::models::Date;

verus! {

/// Relies on `chrono::Utc::now`, narrowed to a date with
/// `DateTime::date_naive` and read out with `Datelike::num_days_from_ce`:
/// the current UTC calendar date as a day count from the common era.
/// The value depends on the clock, so only the range of the `i32` day
/// count it is read from is promised.
#[verifier::external_body]
pub(crate) fn current_date() -> (d: Date)
    ensures
        -2147483648 <= d.day <= 2147483647,
{
    Date { day: chrono::Utc::now().date_naive().num_days_from_ce() as i64 }
}

} // verus!
