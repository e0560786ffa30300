//! The wall clock, read through chrono.
use vstd::prelude::*;

verus! {

/// Relies on chrono's `Utc::now` and `DateTime::timestamp_millis`: the
/// current time in milliseconds since the Unix epoch. Nothing is known of the
/// value, which changes from call to call.
#[verifier::external_body]
pub(crate) fn now_millis() -> (r: i64) {
    chrono::Utc::now().timestamp_millis()
}

/// Relies on chrono's `Local::now` and `DateTime::format`: the local date and
/// time spelled `DDMMYYYY_HHMMSS`. Nothing is known of the value, which
/// depends on the time and on the machine's time zone.
#[verifier::external_body]
pub(crate) fn local_stamp() -> (r: String) {
    chrono::Local::now().format("%d%m%Y_%H%M%S").to_string()
}

} // verus!
