//! The known conventions, in the order in which they are tried, and the
//! search for the first one that a set of headers follows.

use vstd::prelude::*;
use vstd::string::StringSliceAdditionalSpecFns;
use crate::store::{lookup, HeaderStore};
use crate::types::{HeaderField, RateLimitVariant, ResetTimeKind, Vendor, Window};

verus! {

/// The known conventions. Where a response bears names of more than one of
/// them, the one that stands first here is taken.
pub open spec fn registry() -> Seq<RateLimitVariant> {
    seq![
        RateLimitVariant {
            vendor: Vendor::Standard,
            duration: None,
            limit_header: Some("RateLimit-Limit"),
            used_header: None,
            remaining_header: "Ratelimit-Remaining",
            reset_header: "Ratelimit-Reset",
            reset_kind: ResetTimeKind::Seconds,
        },
        RateLimitVariant {
            vendor: Vendor::Github,
            duration: Some(Window { seconds: 3600 }),
            limit_header: Some("x-ratelimit-limit"),
            used_header: Some("x-ratelimit-used"),
            remaining_header: "x-ratelimit-remaining",
            reset_header: "x-ratelimit-reset",
            reset_kind: ResetTimeKind::Timestamp,
        },
        RateLimitVariant {
            vendor: Vendor::Twitter,
            duration: Some(Window { seconds: 900 }),
            limit_header: Some("x-rate-limit-limit"),
            used_header: None,
            remaining_header: "x-rate-limit-remaining",
            reset_header: "x-rate-limit-reset",
            reset_kind: ResetTimeKind::Timestamp,
        },
        RateLimitVariant {
            vendor: Vendor::Vimeo,
            duration: Some(Window { seconds: 60 }),
            limit_header: Some("X-RateLimit-Limit"),
            used_header: None,
            remaining_header: "X-RateLimit-Remaining",
            reset_header: "X-RateLimit-Reset",
            reset_kind: ResetTimeKind::ImfFixdate,
        },
    ]
}

/// The known conventions, in the order in which they are tried.
pub fn rate_limit_variants() -> (r: Vec<RateLimitVariant>)
    ensures
        r@ == registry(),
{
    let mut variants: Vec<RateLimitVariant> = Vec::new();
    variants.push(
        RateLimitVariant::new(
            Vendor::Standard,
            None,
            Some("RateLimit-Limit"),
            None,
            "Ratelimit-Remaining",
            "Ratelimit-Reset",
            ResetTimeKind::Seconds,
        ),
    );
    variants.push(
        RateLimitVariant::new(
            Vendor::Github,
            Some(Window { seconds: 3600 }),
            Some("x-ratelimit-limit"),
            Some("x-ratelimit-used"),
            "x-ratelimit-remaining",
            "x-ratelimit-reset",
            ResetTimeKind::Timestamp,
        ),
    );
    variants.push(
        RateLimitVariant::new(
            Vendor::Twitter,
            Some(Window { seconds: 900 }),
            Some("x-rate-limit-limit"),
            None,
            "x-rate-limit-remaining",
            "x-rate-limit-reset",
            ResetTimeKind::Timestamp,
        ),
    );
    variants.push(
        RateLimitVariant::new(
            Vendor::Vimeo,
            Some(Window { seconds: 60 }),
            Some("X-RateLimit-Limit"),
            None,
            "X-RateLimit-Remaining",
            "X-RateLimit-Reset",
            ResetTimeKind::ImfFixdate,
        ),
    );
    assert(variants@ =~= registry());
    variants
}

/// The value that the headers hold for `field` under one convention.
pub open spec fn header_value(
    headers: Seq<(Seq<u8>, Seq<u8>)>,
    variant: RateLimitVariant,
    field: HeaderField,
) -> Option<Seq<u8>> {
    match variant.header_name(field) {
        Some(name) => lookup(headers, name.spec_bytes()),
        None => None,
    }
}

/// The first convention under which the headers hold a value for `field`,
/// with that value.
pub open spec fn first_match(
    headers: Seq<(Seq<u8>, Seq<u8>)>,
    variants: Seq<RateLimitVariant>,
    field: HeaderField,
) -> Option<(RateLimitVariant, Seq<u8>)>
    decreases variants.len(),
{
    if variants.len() == 0 {
        None
    } else {
        match header_value(headers, variants[0], field) {
            Some(value) => Some((variants[0], value)),
            None => first_match(headers, variants.skip(1), field),
        }
    }
}

/// A match is the earliest convention that has the field: it has it, and no
/// convention before it does.
pub proof fn lemma_first_match_is_first(
    headers: Seq<(Seq<u8>, Seq<u8>)>,
    variants: Seq<RateLimitVariant>,
    field: HeaderField,
)
    ensures
        match first_match(headers, variants, field) {
            Some((variant, value)) => exists|i: int|
                0 <= i < variants.len() && variants[i] == variant && header_value(
                    headers,
                    #[trigger] variants[i],
                    field,
                ) == Some(value) && forall|j: int|
                    0 <= j < i ==> header_value(headers, #[trigger] variants[j], field) is None,
            None => forall|j: int|
                0 <= j < variants.len() ==> header_value(headers, #[trigger] variants[j], field)
                    is None,
        },
    decreases variants.len(),
{
    if variants.len() == 0 {
    } else {
        let rest = variants.skip(1);
        match header_value(headers, variants[0], field) {
            Some(value) => {
                assert(header_value(headers, variants[0], field) == Some(value));
            },
            None => {
                lemma_first_match_is_first(headers, rest, field);
                match first_match(headers, rest, field) {
                    Some((variant, value)) => {
                        let i = choose|i: int|
                            0 <= i < rest.len() && rest[i] == variant && header_value(
                                headers,
                                #[trigger] rest[i],
                                field,
                            ) == Some(value) && forall|j: int|
                                0 <= j < i ==> header_value(headers, #[trigger] rest[j], field)
                                    is None;
                        assert(variants[i + 1] == rest[i]);
                        assert forall|j: int| 0 <= j < i + 1 implies header_value(
                            headers,
                            #[trigger] variants[j],
                            field,
                        ) is None by {
                            if j > 0 {
                                assert(variants[j] == rest[j - 1]);
                            }
                        }
                        assert(header_value(headers, variants[i + 1], field) == Some(value));
                    },
                    None => {
                        assert forall|j: int| 0 <= j < variants.len() implies header_value(
                            headers,
                            #[trigger] variants[j],
                            field,
                        ) is None by {
                            if j > 0 {
                                assert(variants[j] == rest[j - 1]);
                            }
                        }
                    },
                }
            },
        }
    }
}

/// Finds the first convention under which the headers hold a value for
/// `field`.
pub fn find_header<'a>(
    headers: &'a HeaderStore,
    variants: &Vec<RateLimitVariant>,
    field: HeaderField,
) -> (r: Option<(RateLimitVariant, &'a [u8])>)
    ensures
        r is Some <==> first_match(headers@, variants@, field) is Some,
        r matches Some(found) ==> first_match(headers@, variants@, field) == Some(
            (found.0, found.1@),
        ),
{
    let mut i: usize = 0;
    proof {
        assert(variants@.skip(0) =~= variants@);
    }
    while i < variants.len()
        invariant
            0 <= i <= variants@.len(),
            first_match(headers@, variants@, field) == first_match(
                headers@,
                variants@.skip(i as int),
                field,
            ),
        decreases variants.len() - i,
    {
        let ghost rest = variants@.skip(i as int);
        assert(rest[0] == variants@[i as int]);
        let variant: RateLimitVariant = variants[i];
        match variant.header(field) {
            Some(name) => match headers.get(name) {
                Some(value) => {
                    return Some((variant, value));
                },
                None => {},
            },
            None => {},
        }
        proof {
            assert(rest.skip(1) =~= variants@.skip(i + 1));
        }
        i += 1;
    }
    assert(variants@.skip(i as int).len() == 0);
    None
}

} // verus!
