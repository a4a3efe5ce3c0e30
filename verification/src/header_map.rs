//! Headers taken from the typed header map of the `headers` crate.

use vstd::prelude::*;
use crate::error::Error;
use crate::rate_limit::{rate_limit_of, RateLimit};
use crate::store::{distinct_names, first_wins, Header, HeaderStore};
use crate::text::copy_range;
use crate::variants::registry;

verus! {

/// `headers::HeaderMap`, the multimap of header names and values; nothing
/// is known of what is inside but through `header_map_pairs`.
#[verifier::external_type_specification]
#[verifier::external_body]
#[verifier::reject_recursive_types(T)]
pub struct ExHeaderMap<T>(headers::HeaderMap<T>);

/// `headers::HeaderValue`, the value type of the map.
#[verifier::external_type_specification]
#[verifier::external_body]
pub struct ExHeaderValue(headers::HeaderValue);

/// The names and values that a header map holds, in the order in which
/// `HeaderMap::iter` yields them: a name comes once for each of its values.
pub uninterp spec fn header_map_pairs(map: headers::HeaderMap<headers::HeaderValue>) -> Seq<
    (Seq<u8>, Seq<u8>),
>;

/// Walks the map with `HeaderMap::iter` and copies each name
/// (`HeaderName::as_str`) and value (`HeaderValue::as_bytes`) as bytes.
/// Trusted: the result lists what the map holds, in the order of the walk.
#[verifier::external_body]
fn header_map_entries(map: &headers::HeaderMap<headers::HeaderValue>) -> (r: Vec<Header>)
    ensures
        r@.len() == header_map_pairs(*map).len(),
        forall|i: int|
            0 <= i < r@.len() ==> (#[trigger] r@[i]).name@ == header_map_pairs(*map)[i].0
                && r@[i].value@ == header_map_pairs(*map)[i].1,
{
    map.iter().map(
        |(name, value)|
            Header { name: name.as_str().as_bytes().to_vec(), value: value.as_bytes().to_vec() },
    ).collect()
}

impl HeaderStore {
    /// The headers of a typed header map; of the values of one name the
    /// first is kept.
    pub fn from_header_map(map: &headers::HeaderMap<headers::HeaderValue>) -> (r: HeaderStore)
        ensures
            r@ == first_wins(header_map_pairs(*map)),
            distinct_names(r@),
    {
        let entries = header_map_entries(map);
        let ghost pairs = header_map_pairs(*map);
        let mut store = HeaderStore::new();
        let mut i: usize = 0;
        while i < entries.len()
            invariant
                0 <= i <= entries@.len() == pairs.len(),
                forall|k: int|
                    0 <= k < entries@.len() ==> (#[trigger] entries@[k]).name@ == pairs[k].0
                        && entries@[k].value@ == pairs[k].1,
                store@ == first_wins(pairs.subrange(0, i as int)),
                distinct_names(store@),
            decreases entries.len() - i,
        {
            let entry = &entries[i];
            let name = copy_range(entry.name.as_slice(), 0, entry.name.len());
            let value = copy_range(entry.value.as_slice(), 0, entry.value.len());
            proof {
                assert(name@ =~= pairs[i as int].0);
                assert(value@ =~= pairs[i as int].1);
                assert(pairs.subrange(0, i + 1).drop_last() =~= pairs.subrange(0, i as int));
                assert(pairs.subrange(0, i + 1).last() == pairs[i as int]);
            }
            store.insert(name, value);
            i += 1;
        }
        proof {
            assert(pairs.subrange(0, pairs.len() as int) =~= pairs);
        }
        store
    }
}

impl RateLimit {
    /// Works out the rate limit from a typed header map.
    pub fn from_headers(map: &headers::HeaderMap<headers::HeaderValue>) -> (r: Result<
        RateLimit,
        Error,
    >)
        ensures
            r == rate_limit_of(first_wins(header_map_pairs(*map)), registry()),
    {
        RateLimit::new(HeaderStore::from_header_map(map))
    }
}

} // verus!
