use chrono::TimeZone;
use vstd::prelude::*;
use crate::record::{decimal_value, encode_heartbeat, encode_spec, lemma_record_round_trip, parse_decimal};

verus! {

/// A heartbeat younger than this many seconds at startup means the host
/// restarted implausibly soon after the last run.
pub const THRESHOLD_SECS: u64 = 100;

/// The earliest second count that chrono's `Utc` accepts: the start of
/// `DateTime::<Utc>::MIN_UTC`, January 1 of year -262143.
pub const UTC_MIN_SECS: i64 = -8334601228800;

/// The latest second count that chrono's `Utc` accepts: the last second of
/// `DateTime::<Utc>::MAX_UTC`, December 31 of year 262142.
pub const UTC_MAX_SECS: i64 = 8210266876799;

/// Whether a count of seconds since the Unix epoch names a date-time within
/// chrono's supported range.
pub open spec fn utc_representable(secs: int) -> bool {
    UTC_MIN_SECS <= secs && secs <= UTC_MAX_SECS
}

/// Relies on chrono's `TimeZone::timestamp_opt` for `Utc` (through
/// `DateTime::from_timestamp`): a single date-time exactly when the second
/// count lies in chrono's supported range, and never a panic.
#[verifier::external_body]
fn utc_accepts(secs: i64) -> (r: bool)
    ensures
        r == utc_representable(secs as int),
{
    chrono::Utc.timestamp_opt(secs, 0).single().is_some()
}

/// Relies on chrono's `From<SystemTime> for DateTime<Utc>` and
/// `DateTime::timestamp`: the current time in whole seconds since the Unix
/// epoch (earlier times count down, without a panic), always a date-time
/// that chrono can hold.
#[verifier::external_body]
fn now_secs() -> (r: i64)
    ensures
        utc_representable(r as int),
{
    chrono::DateTime::<chrono::Utc>::from(std::time::SystemTime::now()).timestamp()
}

/// Why a heartbeat record yields no timestamp.
#[derive(Debug, Clone, Copy, PartialEq, Eq, Structural)]
pub enum RecordError {
    /// The record is not a decimal `i64` (empty, or corrupt).
    Malformed,
    /// The record is a number, but no date-time has that many seconds.
    OutOfRange,
}

/// The outcome of the startup restart check.
#[derive(Debug, Clone, Copy, PartialEq, Eq, Structural)]
pub enum Detection {
    /// The last heartbeat is `age` seconds away from now, under the threshold.
    RecentHeartbeat { age: u64 },
    /// No evidence of an unexpected restart.
    NoSignal,
}

/// The timestamp held by a record, or why there is none.
pub open spec fn heartbeat_of(text: Seq<u8>) -> Result<i64, RecordError> {
    match decimal_value(text) {
        None => Err(RecordError::Malformed),
        Some(v) => if utc_representable(v as int) {
            Ok(v)
        } else {
            Err(RecordError::OutOfRange)
        },
    }
}

/// `|now - heartbeat|`.
pub open spec fn age_spec(now: i64, heartbeat: i64) -> int {
    if now >= heartbeat {
        now - heartbeat
    } else {
        heartbeat - now
    }
}

/// The restart check on a heartbeat that may have failed to read.
pub open spec fn detection_spec(now: i64, heartbeat: Result<i64, RecordError>) -> Detection {
    match heartbeat {
        Err(_) => Detection::NoSignal,
        Ok(h) => if age_spec(now, h) < THRESHOLD_SECS {
            Detection::RecentHeartbeat { age: age_spec(now, h) as u64 }
        } else {
            Detection::NoSignal
        },
    }
}

/// Decodes a heartbeat record into its timestamp.
pub fn read_last_updated(text: &[u8]) -> (r: Result<i64, RecordError>)
    ensures
        r == heartbeat_of(text@),
{
    match parse_decimal(text) {
        None => Err(RecordError::Malformed),
        Some(v) => if utc_accepts(v) {
            Ok(v)
        } else {
            Err(RecordError::OutOfRange)
        },
    }
}

/// The distance in seconds between `now` and `heartbeat`, in either direction.
pub fn heartbeat_age(now: i64, heartbeat: i64) -> (r: u64)
    ensures
        r as int == age_spec(now, heartbeat),
{
    let d: i128 = now as i128 - heartbeat as i128;
    if d >= 0 {
        d as u64
    } else {
        (0 - d) as u64
    }
}

/// Seconds between `now` and the heartbeat in `text`, or why the record holds none.
pub fn duration_since_shutdown(now: i64, text: &[u8]) -> (r: Result<u64, RecordError>)
    ensures
        match heartbeat_of(text@) {
            Ok(h) => r == Ok::<u64, RecordError>(age_spec(now, h) as u64),
            Err(e) => r == Err::<u64, RecordError>(e),
        },
{
    match read_last_updated(text) {
        Ok(h) => Ok(heartbeat_age(now, h)),
        Err(e) => Err(e),
    }
}

/// The restart check: a heartbeat strictly closer to `now` than the threshold
/// reports its age; anything else, including a record that failed to read,
/// reports no signal.
pub fn check(now: i64, heartbeat: Result<i64, RecordError>) -> (r: Detection)
    ensures
        r == detection_spec(now, heartbeat),
{
    match heartbeat {
        Err(_) => Detection::NoSignal,
        Ok(h) => {
            let age = heartbeat_age(now, h);
            if age < THRESHOLD_SECS {
                Detection::RecentHeartbeat { age }
            } else {
                Detection::NoSignal
            }
        },
    }
}

/// The restart check at time `now` on the stored record `text`.
pub fn detect_restart(now: i64, text: &[u8]) -> (r: Detection)
    ensures
        r == detection_spec(now, heartbeat_of(text@)),
{
    check(now, read_last_updated(text))
}

/// The restart check against the current time: the clock reading it used,
/// and the check's outcome at that time.
pub fn detect_restart_now(text: &[u8]) -> (r: (i64, Detection))
    ensures
        utc_representable(r.0 as int),
        r.1 == detection_spec(r.0, heartbeat_of(text@)),
{
    let now = now_secs();
    (now, detect_restart(now, text))
}

/// A heartbeat for the current time: the clock reading, and the record
/// that holds it.
pub fn heartbeat_record_now() -> (r: (i64, Vec<u8>))
    ensures
        utc_representable(r.0 as int),
        r.1@ == encode_spec(r.0),
{
    let now = now_secs();
    (now, encode_heartbeat(now))
}

/// The restart check reports a recent heartbeat exactly when the heartbeat
/// lies strictly less than the threshold away from the startup time, in
/// either direction; at exactly the threshold it reports no signal.
pub proof fn lemma_recent_iff_within_threshold(now: i64, heartbeat: i64)
    ensures
        (detection_spec(now, Ok(heartbeat)) is RecentHeartbeat) <==> age_spec(now, heartbeat) < THRESHOLD_SECS,
        age_spec(now, heartbeat) == THRESHOLD_SECS ==> detection_spec(now, Ok(heartbeat)) == Detection::NoSignal,
        (detection_spec(now, Ok(heartbeat)) is RecentHeartbeat) ==> detection_spec(now, Ok(heartbeat))->age == age_spec(now, heartbeat),
{
}

/// A heartbeat written at any time that chrono can hold reads back as that
/// same time.
pub proof fn lemma_written_record_reads_back(t: i64)
    requires
        utc_representable(t as int),
    ensures
        heartbeat_of(encode_spec(t)) == Ok::<i64, RecordError>(t),
{
    lemma_record_round_trip(t);
}

/// A record that cannot be read never reports a restart.
pub proof fn lemma_unreadable_record_fails_open(now: i64, text: Seq<u8>)
    requires
        heartbeat_of(text) is Err,
    ensures
        detection_spec(now, heartbeat_of(text)) == Detection::NoSignal,
{
}

} // verus!
