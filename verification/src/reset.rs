//! Reset times and their three encodings.

use vstd::prelude::*;
use vstd::utf8::{decode_utf8, valid_utf8};
use vstd::string::StringSliceAdditionalSpecFns;
use crate::convert::{count_of, to_usize};
use crate::error::Error;
use crate::types::ResetTimeKind;

verus! {

/// The format of an HTTP date, in the notation of the `time` crate.
pub const IMF_FIXDATE: &'static str =
    "[weekday repr:short], [day] [month repr:short] [year] [hour]:[minute]:[second] GMT";

/// When a rate limit is lifted.
#[derive(Clone, Copy, Debug, PartialEq, Eq, Structural)]
pub enum ResetTime {
    /// So many seconds from now.
    Seconds(u64),
    /// At this instant, given in seconds since the Unix epoch, UTC.
    DateTime(i64),
}

/// Whether `time` can represent the instant that lies `timestamp` seconds
/// after the Unix epoch: what `OffsetDateTime::from_unix_timestamp` accepts.
pub uninterp spec fn representable_unix_timestamp(timestamp: i64) -> bool;

/// The instant that `time` reads from `text` under the format description
/// `format`, in seconds since the Unix epoch, the date taken as UTC; `None`
/// where the description or the text is rejected.
pub uninterp spec fn parsed_date_time(text: Seq<char>, format: Seq<char>) -> Option<i64>;

/// Asks `time::OffsetDateTime::from_unix_timestamp` whether it accepts
/// `timestamp`. Trusted: the answer depends on the timestamp alone.
#[verifier::external_body]
fn is_representable_unix_timestamp(timestamp: i64) -> (r: bool)
    ensures
        r == representable_unix_timestamp(timestamp),
{
    time::OffsetDateTime::from_unix_timestamp(timestamp).is_ok()
}

/// Parses `format` with `time::format_description::parse_borrowed` and then
/// `text` with `time::PrimitiveDateTime::parse`, takes the date as UTC and
/// returns its Unix timestamp. Trusted: the result depends on the two texts
/// alone.
#[verifier::external_body]
fn parse_date_time(text: &str, format: &str) -> (r: Option<i64>)
    ensures
        r == parsed_date_time(text@, format@),
{
    let description = time::format_description::parse_borrowed::<2>(format).ok()?;
    let date_time = time::PrimitiveDateTime::parse(text, &description).ok()?;
    Some(date_time.assume_utc().unix_timestamp())
}

/// `core::str::from_utf8`: the text that `bytes` encode, if they are valid
/// UTF-8. Trusted: the standard library checks the encoding.
#[verifier::external_body]
fn utf8_text(bytes: &[u8]) -> (r: Option<&str>)
    ensures
        r is Some <==> valid_utf8(bytes@),
        r matches Some(s) ==> s.spec_bytes() == bytes@ && s@ == decode_utf8(bytes@),
{
    core::str::from_utf8(bytes).ok()
}

/// The reset that a Unix timestamp stands for, given whether the instant can
/// be represented.
pub open spec fn timestamp_reset(timestamp: i64, representable: bool) -> Result<ResetTime, Error> {
    if representable {
        Ok(ResetTime::DateTime(timestamp))
    } else {
        Err(Error::InvalidTimestamp)
    }
}

/// The reset that a parsed date stands for.
pub open spec fn date_reset(parsed: Option<i64>) -> Result<ResetTime, Error> {
    match parsed {
        Some(timestamp) => Ok(ResetTime::DateTime(timestamp)),
        None => Err(Error::InvalidDate),
    }
}

/// The reset time that a header value denotes under an encoding.
pub open spec fn reset_time_of(value: Seq<u8>, kind: ResetTimeKind) -> Result<ResetTime, Error> {
    match kind {
        ResetTimeKind::Seconds => match count_of(value) {
            Ok(seconds) => Ok(ResetTime::Seconds(seconds as u64)),
            Err(e) => Err(e),
        },
        ResetTimeKind::Timestamp => match count_of(value) {
            Ok(seconds) => if seconds <= i64::MAX {
                timestamp_reset(seconds as i64, representable_unix_timestamp(seconds as i64))
            } else {
                Err(Error::InvalidTimestamp)
            },
            Err(e) => Err(e),
        },
        ResetTimeKind::ImfFixdate => if valid_utf8(value) {
            date_reset(parsed_date_time(decode_utf8(value), IMF_FIXDATE@))
        } else {
            Err(Error::InvalidDate)
        },
    }
}

impl ResetTime {
    /// A reset that lies `seconds` ahead.
    pub fn from_seconds(seconds: u64) -> (r: ResetTime)
        ensures
            r == ResetTime::Seconds(seconds),
    {
        ResetTime::Seconds(seconds)
    }

    /// The reset at a Unix timestamp; `representable` says whether the
    /// instant can be represented.
    pub fn from_timestamp(timestamp: i64, representable: bool) -> (r: Result<ResetTime, Error>)
        ensures
            r == timestamp_reset(timestamp, representable),
    {
        if representable {
            Ok(ResetTime::DateTime(timestamp))
        } else {
            Err(Error::InvalidTimestamp)
        }
    }

    /// The reset at a parsed date; `None` stands for a date that could not
    /// be read.
    pub fn from_parsed_date(parsed: Option<i64>) -> (r: Result<ResetTime, Error>)
        ensures
            r == date_reset(parsed),
    {
        match parsed {
            Some(timestamp) => Ok(ResetTime::DateTime(timestamp)),
            None => Err(Error::InvalidDate),
        }
    }

    /// Reads a reset time from a header value in the given encoding.
    pub fn new(value: &[u8], kind: ResetTimeKind) -> (r: Result<ResetTime, Error>)
        ensures
            r == reset_time_of(value@, kind),
    {
        match kind {
            ResetTimeKind::Seconds => match to_usize(value) {
                Ok(seconds) => Ok(ResetTime::from_seconds(seconds as u64)),
                Err(e) => Err(e),
            },
            ResetTimeKind::Timestamp => match to_usize(value) {
                Ok(seconds) => {
                    if seconds as u64 > 0x7fff_ffff_ffff_ffff {
                        Err(Error::InvalidTimestamp)
                    } else {
                        let timestamp: i64 = seconds as i64;
                        ResetTime::from_timestamp(
                            timestamp,
                            is_representable_unix_timestamp(timestamp),
                        )
                    }
                },
                Err(e) => Err(e),
            },
            ResetTimeKind::ImfFixdate => match utf8_text(value) {
                Some(text) => ResetTime::from_parsed_date(parse_date_time(text, IMF_FIXDATE)),
                None => Err(Error::InvalidDate),
            },
        }
    }
}

} // verus!
