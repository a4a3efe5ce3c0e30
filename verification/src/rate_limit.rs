//! The rate limit of a response, worked out from its headers.

use vstd::prelude::*;
use vstd::string::StringSliceAdditionalSpecFns;
use crate::convert::{count_of, to_usize};
use crate::error::Error;
use crate::reset::{reset_time_of, ResetTime};
use crate::store::{headers_of, lookup, HeaderStore};
use crate::types::{HeaderField, RateLimitVariant, ResetTimeKind, Vendor, Window};
use crate::variants::{find_header, first_match, rate_limit_variants, registry};

verus! {

/// The header that overrides every reset header.
pub const RETRY_AFTER: &'static str = "Retry-After";

/// The rate limit of a response.
#[derive(Clone, Copy, Debug, PartialEq, Eq)]
pub struct RateLimit {
    /// The number of requests allowed in the window.
    pub limit: usize,
    /// The number of requests left in the window.
    pub remaining: usize,
    /// When the limit is lifted.
    pub reset: ResetTime,
    /// The window that the numbers apply to, where the convention fixes it.
    pub window: Option<Window>,
    /// The convention that the limit was read under.
    pub vendor: Vendor,
}

/// The limit of a response and the convention it was found under: the value
/// of the first limit header if there is one; else the value of the first
/// used header plus what remains; the sum must fit a `usize`.
pub open spec fn limit_of(
    headers: Seq<(Seq<u8>, Seq<u8>)>,
    variants: Seq<RateLimitVariant>,
    remaining: usize,
) -> Result<(usize, RateLimitVariant), Error> {
    match first_match(headers, variants, HeaderField::Limit) {
        Some((variant, value)) => match count_of(value) {
            Ok(limit) => Ok((limit, variant)),
            Err(e) => Err(e),
        },
        None => match first_match(headers, variants, HeaderField::Used) {
            Some((variant, value)) => match count_of(value) {
                Ok(used) => if used + remaining <= usize::MAX {
                    Ok(((used + remaining) as usize, variant))
                } else {
                    Err(Error::InvalidCount)
                },
                Err(e) => Err(e),
            },
            None => Err(Error::MissingUsed),
        },
    }
}

/// The reset of a response: `Retry-After` in seconds if it is present; else
/// the first reset header, in the encoding of its convention.
pub open spec fn reset_of(
    headers: Seq<(Seq<u8>, Seq<u8>)>,
    variants: Seq<RateLimitVariant>,
) -> Result<ResetTime, Error> {
    match lookup(headers, RETRY_AFTER.spec_bytes()) {
        Some(value) => reset_time_of(value, ResetTimeKind::Seconds),
        None => match first_match(headers, variants, HeaderField::Reset) {
            Some((variant, value)) => reset_time_of(value, variant.reset_kind),
            None => Err(Error::MissingRemaining),
        },
    }
}

/// The rate limit that a set of headers denotes under a list of
/// conventions. The remaining count is read first, then the limit, then
/// the reset; the first of them that fails gives the error. Window and
/// vendor are those of the convention that gave the limit.
pub open spec fn rate_limit_of(
    headers: Seq<(Seq<u8>, Seq<u8>)>,
    variants: Seq<RateLimitVariant>,
) -> Result<RateLimit, Error> {
    match first_match(headers, variants, HeaderField::Remaining) {
        None => Err(Error::MissingRemaining),
        Some((_, value)) => match count_of(value) {
            Err(e) => Err(e),
            Ok(remaining) => match limit_of(headers, variants, remaining) {
                Err(e) => Err(e),
                Ok((limit, variant)) => match reset_of(headers, variants) {
                    Err(e) => Err(e),
                    Ok(reset) => Ok(
                        RateLimit {
                            limit,
                            remaining,
                            reset,
                            window: variant.duration,
                            vendor: variant.vendor,
                        },
                    ),
                },
            },
        },
    }
}

/// The rate limit that raw header text denotes.
pub open spec fn rate_limit_of_text(text: Seq<u8>) -> Result<RateLimit, Error> {
    match headers_of(text) {
        Ok(headers) => rate_limit_of(headers, registry()),
        Err(e) => Err(e),
    }
}

/// Where a limit header is present, the limit is its value, whether or not
/// a used header is present too.
pub proof fn lemma_limit_header_preferred(
    headers: Seq<(Seq<u8>, Seq<u8>)>,
    variants: Seq<RateLimitVariant>,
    remaining: usize,
    variant: RateLimitVariant,
    value: Seq<u8>,
)
    requires
        first_match(headers, variants, HeaderField::Limit) == Some((variant, value)),
    ensures
        limit_of(headers, variants, remaining) == match count_of(value) {
            Ok(limit) => Ok::<_, Error>((limit, variant)),
            Err(e) => Err(e),
        },
        rate_limit_of(headers, variants) matches Ok(rate) ==> count_of(value) == Ok::<_, Error>(
            rate.limit,
        ) && rate.vendor == variant.vendor && rate.window == variant.duration,
{
}

/// Where no limit header is present but a used header is, the limit is what
/// was used plus what remains, under the convention of the used header.
pub proof fn lemma_limit_derived_from_used(
    headers: Seq<(Seq<u8>, Seq<u8>)>,
    variants: Seq<RateLimitVariant>,
    remaining: usize,
    variant: RateLimitVariant,
    value: Seq<u8>,
    used: usize,
)
    requires
        first_match(headers, variants, HeaderField::Limit) is None,
        first_match(headers, variants, HeaderField::Used) == Some((variant, value)),
        count_of(value) == Ok::<_, Error>(used),
        used + remaining <= usize::MAX,
    ensures
        limit_of(headers, variants, remaining) == Ok::<_, Error>(
            ((used + remaining) as usize, variant),
        ),
        rate_limit_of(headers, variants) matches Ok(rate) ==> rate.limit == used + rate.remaining
            && rate.vendor == variant.vendor && rate.window == variant.duration,
{
}

/// Where `Retry-After` is present, the reset is its value in seconds,
/// whatever the reset headers say.
pub proof fn lemma_retry_after_overrides(
    headers: Seq<(Seq<u8>, Seq<u8>)>,
    variants: Seq<RateLimitVariant>,
    value: Seq<u8>,
)
    requires
        lookup(headers, RETRY_AFTER.spec_bytes()) == Some(value),
    ensures
        reset_of(headers, variants) == reset_time_of(value, ResetTimeKind::Seconds),
        rate_limit_of(headers, variants) matches Ok(rate) ==> reset_time_of(
            value,
            ResetTimeKind::Seconds,
        ) == Ok::<_, Error>(rate.reset),
{
}

impl RateLimit {
    /// Works out the rate limit from the headers of a response.
    pub fn new(headers: HeaderStore) -> (r: Result<RateLimit, Error>)
        ensures
            r == rate_limit_of(headers@, registry()),
    {
        let variants = rate_limit_variants();
        RateLimit::with_variants(&headers, &variants)
    }

    /// Works out the rate limit from the headers of a response under the
    /// given conventions, which are tried in their order.
    pub fn with_variants(headers: &HeaderStore, variants: &Vec<RateLimitVariant>) -> (r: Result<
        RateLimit,
        Error,
    >)
        ensures
            r == rate_limit_of(headers@, variants@),
    {
        let remaining: usize = match find_header(headers, variants, HeaderField::Remaining) {
            None => {
                return Err(Error::MissingRemaining);
            },
            Some(found) => match to_usize(found.1) {
                Ok(count) => count,
                Err(e) => {
                    return Err(e);
                },
            },
        };
        let (limit, variant) = match RateLimit::resolve_limit(headers, variants, remaining) {
            Ok(pair) => pair,
            Err(e) => {
                return Err(e);
            },
        };
        let reset = match RateLimit::resolve_reset(headers, variants) {
            Ok(reset) => reset,
            Err(e) => {
                return Err(e);
            },
        };
        Ok(
            RateLimit {
                limit,
                remaining,
                reset,
                window: variant.duration,
                vendor: variant.vendor,
            },
        )
    }

    /// The limit and the convention it was found under.
    pub fn resolve_limit(
        headers: &HeaderStore,
        variants: &Vec<RateLimitVariant>,
        remaining: usize,
    ) -> (r: Result<(usize, RateLimitVariant), Error>)
        ensures
            r == limit_of(headers@, variants@, remaining),
    {
        match find_header(headers, variants, HeaderField::Limit) {
            Some(found) => match to_usize(found.1) {
                Ok(limit) => Ok((limit, found.0)),
                Err(e) => Err(e),
            },
            None => match find_header(headers, variants, HeaderField::Used) {
                Some(found) => match to_usize(found.1) {
                    Ok(used) => {
                        if used > usize::MAX - remaining {
                            Err(Error::InvalidCount)
                        } else {
                            Ok((used + remaining, found.0))
                        }
                    },
                    Err(e) => Err(e),
                },
                None => Err(Error::MissingUsed),
            },
        }
    }

    /// The reset time: `Retry-After` before any reset header.
    pub fn resolve_reset(headers: &HeaderStore, variants: &Vec<RateLimitVariant>) -> (r: Result<
        ResetTime,
        Error,
    >)
        ensures
            r == reset_of(headers@, variants@),
    {
        match RateLimit::get_retry_after_header(headers) {
            Some(seconds) => ResetTime::new(seconds, ResetTimeKind::Seconds),
            None => match find_header(headers, variants, HeaderField::Reset) {
                Some(found) => ResetTime::new(found.1, found.0.reset_kind),
                None => Err(Error::MissingRemaining),
            },
        }
    }

    /// The value of the first known limit header, and its convention.
    pub fn get_rate_limit_header<'a>(header_map: &'a HeaderStore) -> (r: Result<
        (&'a [u8], RateLimitVariant),
        Error,
    >)
        ensures
            match r {
                Ok(found) => first_match(header_map@, registry(), HeaderField::Limit) == Some(
                    (found.1, found.0@),
                ),
                Err(e) => e == Error::MissingLimit && first_match(
                    header_map@,
                    registry(),
                    HeaderField::Limit,
                ) is None,
            },
    {
        let variants = rate_limit_variants();
        match find_header(header_map, &variants, HeaderField::Limit) {
            Some(found) => Ok((found.1, found.0)),
            None => Err(Error::MissingLimit),
        }
    }

    /// The value of the first known used header, and its convention.
    pub fn get_used_header<'a>(header_map: &'a HeaderStore) -> (r: Result<
        (&'a [u8], RateLimitVariant),
        Error,
    >)
        ensures
            match r {
                Ok(found) => first_match(header_map@, registry(), HeaderField::Used) == Some(
                    (found.1, found.0@),
                ),
                Err(e) => e == Error::MissingUsed && first_match(
                    header_map@,
                    registry(),
                    HeaderField::Used,
                ) is None,
            },
    {
        let variants = rate_limit_variants();
        match find_header(header_map, &variants, HeaderField::Used) {
            Some(found) => Ok((found.1, found.0)),
            None => Err(Error::MissingUsed),
        }
    }

    /// The value of the first known remaining header.
    pub fn get_remaining_header<'a>(header_map: &'a HeaderStore) -> (r: Result<&'a [u8], Error>)
        ensures
            match r {
                Ok(value) => first_match(header_map@, registry(), HeaderField::Remaining) matches Some(
                    found,
                ) && found.1 == value@,
                Err(e) => e == Error::MissingRemaining && first_match(
                    header_map@,
                    registry(),
                    HeaderField::Remaining,
                ) is None,
            },
    {
        let variants = rate_limit_variants();
        match find_header(header_map, &variants, HeaderField::Remaining) {
            Some(found) => Ok(found.1),
            None => Err(Error::MissingRemaining),
        }
    }

    /// The value of the first known reset header, and its encoding.
    pub fn get_reset_header<'a>(header_map: &'a HeaderStore) -> (r: Result<
        (&'a [u8], ResetTimeKind),
        Error,
    >)
        ensures
            match r {
                Ok(found) => first_match(header_map@, registry(), HeaderField::Reset) matches Some(
                    first,
                ) && first.1 == found.0@ && first.0.reset_kind == found.1,
                Err(e) => e == Error::MissingRemaining && first_match(
                    header_map@,
                    registry(),
                    HeaderField::Reset,
                ) is None,
            },
    {
        let variants = rate_limit_variants();
        match find_header(header_map, &variants, HeaderField::Reset) {
            Some(found) => Ok((found.1, found.0.reset_kind)),
            None => Err(Error::MissingRemaining),
        }
    }

    /// The value of the `Retry-After` header.
    pub fn get_retry_after_header<'a>(header_map: &'a HeaderStore) -> (r: Option<&'a [u8]>)
        ensures
            r is Some <==> lookup(header_map@, RETRY_AFTER.spec_bytes()) is Some,
            r matches Some(v) ==> lookup(header_map@, RETRY_AFTER.spec_bytes()) == Some(v@),
    {
        header_map.get(RETRY_AFTER)
    }

    /// Works out the rate limit from raw header text, one header a line.
    pub fn from_str(map: &str) -> (r: Result<RateLimit, Error>)
        ensures
            r == rate_limit_of_text(map.spec_bytes()),
    {
        match HeaderStore::from_str(map) {
            Ok(headers) => RateLimit::new(headers),
            Err(e) => Err(e),
        }
    }

    /// The number of requests allowed in the window.
    pub fn limit(&self) -> (r: usize)
        ensures
            r == self.limit,
    {
        self.limit
    }

    /// The number of requests left in the window.
    pub fn remaining(&self) -> (r: usize)
        ensures
            r == self.remaining,
    {
        self.remaining
    }

    /// When the limit is lifted.
    pub fn reset(&self) -> (r: ResetTime)
        ensures
            r == self.reset,
    {
        self.reset
    }
}

} // verus!
