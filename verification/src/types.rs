//! The vocabulary of rate limits: conventions, fields, counts.

use vstd::prelude::*;
use vstd::string::StringSliceAdditionalSpecFns;
use crate::convert::{count_of, to_usize};
use crate::error::Error;

verus! {

/// The convention that a set of rate-limit headers follows.
#[derive(Clone, Copy, Debug, PartialEq, Eq, Structural)]
pub enum Vendor {
    /// The headers of the IETF draft.
    Standard,
    /// Limits that hold for an hour, with a Unix timestamp as reset.
    Github,
    /// Limits that hold for fifteen minutes, with a Unix timestamp as reset.
    Twitter,
    /// Limits that hold for a minute, with an HTTP date as reset.
    Vimeo,
}

/// How a reset header encodes its time.
#[derive(Clone, Copy, Debug, PartialEq, Eq, Structural)]
pub enum ResetTimeKind {
    /// The number of seconds until the reset.
    Seconds,
    /// The reset as seconds since the Unix epoch.
    Timestamp,
    /// The reset as an HTTP date, such as `Tue, 15 Nov 1994 08:12:31 GMT`.
    ImfFixdate,
}

/// The fields that a convention may name a header for.
#[derive(Clone, Copy, Debug, PartialEq, Eq, Structural)]
pub enum HeaderField {
    /// The number of requests allowed.
    Limit,
    /// The number of requests made.
    Used,
    /// The number of requests left.
    Remaining,
    /// The time of the reset.
    Reset,
}

/// The span of time that a limit applies to, in whole seconds.
#[derive(Clone, Copy, Debug, PartialEq, Eq, Structural)]
pub struct Window {
    pub seconds: u64,
}

/// One convention: its header names, the window that its documentation
/// fixes, and the encoding of its reset header.
#[derive(Clone, Copy, Debug, PartialEq, Eq)]
pub struct RateLimitVariant {
    /// Who uses the convention.
    pub vendor: Vendor,
    /// The window, where the convention fixes one.
    pub duration: Option<Window>,
    /// The header with the allowed number of requests, if there is one.
    pub limit_header: Option<&'static str>,
    /// The header with the number of requests made, if there is one.
    pub used_header: Option<&'static str>,
    /// The header with the number of requests left.
    pub remaining_header: &'static str,
    /// The header with the reset time.
    pub reset_header: &'static str,
    /// The encoding of the reset time.
    pub reset_kind: ResetTimeKind,
}

impl RateLimitVariant {
    /// The name under which this convention sends `field`, if it sends it.
    pub open spec fn header_name(self, field: HeaderField) -> Option<&'static str> {
        match field {
            HeaderField::Limit => self.limit_header,
            HeaderField::Used => self.used_header,
            HeaderField::Remaining => Some(self.remaining_header),
            HeaderField::Reset => Some(self.reset_header),
        }
    }

    /// A convention with the given parts.
    pub fn new(
        vendor: Vendor,
        duration: Option<Window>,
        limit_header: Option<&'static str>,
        used_header: Option<&'static str>,
        remaining_header: &'static str,
        reset_header: &'static str,
        reset_kind: ResetTimeKind,
    ) -> (r: RateLimitVariant)
        ensures
            r == (RateLimitVariant {
                vendor,
                duration,
                limit_header,
                used_header,
                remaining_header,
                reset_header,
                reset_kind,
            }),
    {
        RateLimitVariant {
            vendor,
            duration,
            limit_header,
            used_header,
            remaining_header,
            reset_header,
            reset_kind,
        }
    }

    /// The name under which this convention sends `field`, if it sends it.
    pub fn header(&self, field: HeaderField) -> (r: Option<&'static str>)
        ensures
            r == self.header_name(field),
    {
        match field {
            HeaderField::Limit => self.limit_header,
            HeaderField::Used => self.used_header,
            HeaderField::Remaining => Some(self.remaining_header),
            HeaderField::Reset => Some(self.reset_header),
        }
    }
}

/// The number of requests allowed in a window.
#[derive(Clone, Copy, Debug, PartialEq, Eq, Structural)]
pub struct Limit {
    pub count: usize,
}

/// The number of requests left in a window.
#[derive(Clone, Copy, Debug, PartialEq, Eq, Structural)]
pub struct Remaining {
    pub count: usize,
}

/// The number of requests made in a window.
#[derive(Clone, Copy, Debug, PartialEq, Eq, Structural)]
pub struct Used {
    pub count: usize,
}

impl Limit {
    /// Reads a limit from a header value.
    pub fn new(value: &str) -> (r: Result<Limit, Error>)
        ensures
            r == match count_of(value.spec_bytes()) {
                Ok(count) => Ok(Limit { count }),
                Err(e) => Err(e),
            },
    {
        match to_usize(value.as_bytes()) {
            Ok(count) => Ok(Limit { count }),
            Err(e) => Err(e),
        }
    }
}

impl From<usize> for Limit {
    /// The limit of `count` requests.
    fn from(count: usize) -> (r: Limit) {
        Limit { count }
    }
}

impl vstd::std_specs::convert::FromSpecImpl<usize> for Limit {
    open spec fn obeys_from_spec() -> bool {
        true
    }

    open spec fn from_spec(count: usize) -> Limit {
        Limit { count }
    }
}

impl Remaining {
    /// Reads a remaining count from a header value.
    pub fn new(value: &str) -> (r: Result<Remaining, Error>)
        ensures
            r == match count_of(value.spec_bytes()) {
                Ok(count) => Ok(Remaining { count }),
                Err(e) => Err(e),
            },
    {
        match to_usize(value.as_bytes()) {
            Ok(count) => Ok(Remaining { count }),
            Err(e) => Err(e),
        }
    }
}

impl Used {
    /// Reads a used count from a header value.
    pub fn new(value: &str) -> (r: Result<Used, Error>)
        ensures
            r == match count_of(value.spec_bytes()) {
                Ok(count) => Ok(Used { count }),
                Err(e) => Err(e),
            },
    {
        match to_usize(value.as_bytes()) {
            Ok(count) => Ok(Used { count }),
            Err(e) => Err(e),
        }
    }
}

} // verus!
