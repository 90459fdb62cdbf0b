//! Clock readings and their textual forms.

use vstd::prelude::*;

verus! {

/// The current time in Unix milliseconds (`chrono::Utc::now`); a clock reading, so nothing
/// is promised of it.
#[verifier::external_body]
pub(crate) fn now_millis() -> i64 {
    chrono::Utc::now().timestamp_millis()
}

/// The current time in Unix seconds (`chrono::Utc::now`).
#[verifier::external_body]
pub(crate) fn now_seconds() -> i64 {
    chrono::Utc::now().timestamp()
}

/// The RFC 3339 form, in UTC with millisecond precision and a `Z`, of an instant given in
/// Unix milliseconds; `None` outside the range chrono represents.
pub uninterp spec fn rfc3339_of(millis: int) -> Option<Seq<char>>;

/// `DateTime::from_timestamp_millis` followed by `to_rfc3339_opts(SecondsFormat::Millis, true)`.
#[verifier::external_body]
pub(crate) fn rfc3339_millis(millis: i64) -> (r: Option<String>)
    ensures
        match r {
            Some(s) => rfc3339_of(millis as int) == Some(s@),
            None => rfc3339_of(millis as int) is None,
        },
{
    match chrono::DateTime::from_timestamp_millis(millis) {
        Some(time) => Some(time.to_rfc3339_opts(chrono::SecondsFormat::Millis, true)),
        None => None,
    }
}

/// The `%Y%m%d-%H%M%S-%3f` form, in UTC, of an instant given in Unix milliseconds.
pub uninterp spec fn compact_stamp_of(millis: int) -> Option<Seq<char>>;

/// `DateTime::from_timestamp_millis` followed by `format("%Y%m%d-%H%M%S-%3f")`.
#[verifier::external_body]
pub(crate) fn compact_stamp(millis: i64) -> (r: Option<String>)
    ensures
        match r {
            Some(s) => compact_stamp_of(millis as int) == Some(s@),
            None => compact_stamp_of(millis as int) is None,
        },
{
    match chrono::DateTime::from_timestamp_millis(millis) {
        Some(time) => Some(time.format("%Y%m%d-%H%M%S-%3f").to_string()),
        None => None,
    }
}

/// An instant as `%Y-%m-%d %H:%M` in the machine's time zone, which depends on the
/// machine, so nothing is promised of it.
#[verifier::external_body]
pub(crate) fn local_minutes(millis: i64) -> Option<String> {
    match chrono::DateTime::from_timestamp_millis(millis) {
        Some(time) => Some(time.with_timezone(&chrono::Local).format("%Y-%m-%d %H:%M").to_string()),
        None => None,
    }
}

/// Whether a text parses as an RFC 3339 timestamp (`DateTime::parse_from_rfc3339`).
pub uninterp spec fn parses_as_rfc3339(stamp: Seq<char>) -> bool;

/// An RFC 3339 timestamp as `%Y-%m-%d %H:%M` in the machine's time zone
/// (`DateTime::parse_from_rfc3339`, `with_timezone(&Local)`, `format`): `Some` exactly when
/// the text parses. The zone is the machine's, so nothing is promised of the text itself.
#[verifier::external_body]
pub(crate) fn local_minutes_of_rfc3339(stamp: &str) -> (r: Option<String>)
    ensures
        r is Some <==> parses_as_rfc3339(stamp@),
{
    match chrono::DateTime::parse_from_rfc3339(stamp) {
        Ok(time) => Some(time.with_timezone(&chrono::Local).format("%Y-%m-%d %H:%M").to_string()),
        Err(_) => None,
    }
}

/// The RFC 3339 text of an instant in Unix milliseconds, empty where there is none.
pub open spec fn rfc3339_or_empty(millis: int) -> Seq<char> {
    match rfc3339_of(millis) {
        Some(s) => s,
        None => Seq::empty(),
    }
}

/// The current time in RFC 3339 form, UTC, milliseconds, `Z`: the text of whatever
/// instant the clock reads.
pub(crate) fn now_rfc3339() -> (r: String)
    ensures
        exists|millis: i64| r@ == #[trigger] rfc3339_or_empty(millis as int),
{
    let now = now_millis();
    let r = match rfc3339_millis(now) {
        Some(stamp) => stamp,
        None => String::new(),
    };
    assert(r@ == rfc3339_or_empty(now as int));
    r
}

} // verus!
