//! What the library has from the `chrono` crate: the reading of the clock
//! and the text of an instant.
use vstd::prelude::*;

verus! {

/// The text that `chrono` writes for the UTC date and time that lies
/// `millis` milliseconds after the Unix epoch, such as
/// `2015-05-15 00:00:00 UTC`; `None` where `chrono`'s calendar does not
/// reach that far.
pub uninterp spec fn instant_text(millis: int) -> Option<Seq<char>>;

/// The label of an instant: its text, or nothing where it has none.
pub open spec fn date_label(millis: int) -> Seq<char> {
    match instant_text(millis) {
        Some(text) => text,
        None => Seq::empty(),
    }
}

/// Calls `chrono::DateTime::<Utc>::from_timestamp_millis` and, where that
/// gives a date and time, its `to_string`. The contract only gives the
/// outcome its name: the text depends on `millis` alone, since the zone is
/// always UTC.
#[verifier::external_body]
pub(crate) fn format_instant(millis: i64) -> (text: Option<String>)
    ensures
        text is Some <==> instant_text(millis as int) is Some,
        text matches Some(s) ==> instant_text(millis as int) == Some(s@),
{
    match chrono::DateTime::<chrono::Utc>::from_timestamp_millis(millis) {
        Some(at) => Some(at.to_string()),
        None => None,
    }
}

/// Calls `chrono::Utc::now` and gives the instant in milliseconds since the
/// Unix epoch. Nothing is claimed of the value: it is whatever the system
/// clock says. `chrono` stops the program if the clock stands before 1970.
#[verifier::external_body]
pub(crate) fn current_time() -> (millis: i64) {
    chrono::Utc::now().timestamp_millis()
}

/// The label made of the text of an instant: the text itself, or nothing
/// where there is none.
pub fn label_from(text: Option<String>) -> (label: String)
    ensures
        label@ == match text {
            Some(s) => s@,
            None => Seq::<char>::empty(),
        },
{
    match text {
        Some(s) => s,
        None => String::new(),
    }
}

/// The label of an instant.
pub fn label_of(millis: i64) -> (label: String)
    ensures
        label@ == date_label(millis as int),
{
    label_from(format_instant(millis))
}

} // verus!
