use vstd::prelude::*;

verus! {

/// Calls `Local::now` of chrono and `DateTime::timestamp_millis` on what it
/// returns: the time of the call in milliseconds since the epoch. The
/// contract claims nothing of the number.
#[verifier::external_body]
pub(crate) fn now_millis() -> (r: i64) {
    chrono::Local::now().timestamp_millis()
}

} // verus!

verus! {

/// Calls `DateTime::from_timestamp_millis` of chrono, which is `None` for a
/// time out of its range, then `with_timezone` with `Local` and
/// `to_string`: the time as the local time zone writes it. The text depends
/// on the time zone of the machine, so the contract claims nothing of it.
#[verifier::external_body]
pub(crate) fn local_time_text(millis: i64) -> (r: Option<String>) {
    match chrono::DateTime::from_timestamp_millis(millis) {
        Some(t) => Some(t.with_timezone(&chrono::Local).to_string()),
        None => None,
    }
}

/// The time that is `secs` seconds after the epoch, as chrono writes it
/// for the time zone UTC: year, month and day, a blank, hours, minutes and
/// seconds; `None` for a time out of chrono's range.
pub uninterp spec fn utc_time(secs: i64) -> Option<Seq<char>>;

/// Calls `DateTime::from_timestamp` of chrono, which is `None` for a time
/// out of its range, then `naive_utc` and `to_string`; the contract gives
/// the outcome its name and claims nothing more of it.
#[verifier::external_body]
pub(crate) fn utc_time_text(secs: i64) -> (r: Option<String>)
    ensures
        crate::model::todo::text_of(r) == utc_time(secs),
{
    match chrono::DateTime::from_timestamp(secs, 0) {
        Some(t) => Some(t.naive_utc().to_string()),
        None => None,
    }
}

} // verus!
