//! The header store: names and values in the order in which they were first
//! seen, looked up by name without regard to ASCII case.

use vstd::prelude::*;
use vstd::string::StringSliceAdditionalSpecFns;
use crate::error::Error;
use crate::text::{copy_range, eq_ignore_case, find_byte, first_index, lemma_first_index, lower, trim, trim_range};

verus! {

/// The value stored under `name`: that of the first entry whose name equals
/// `name` but for ASCII case.
pub open spec fn lookup(entries: Seq<(Seq<u8>, Seq<u8>)>, name: Seq<u8>) -> Option<Seq<u8>>
    decreases entries.len(),
{
    if entries.len() == 0 {
        None
    } else if lower(entries[0].0) == lower(name) {
        Some(entries[0].1)
    } else {
        lookup(entries.skip(1), name)
    }
}

/// The entries after `name` and `value` were offered: a name that is already
/// present, in whatever case, keeps its first value.
pub open spec fn push_first_wins(
    entries: Seq<(Seq<u8>, Seq<u8>)>,
    name: Seq<u8>,
    value: Seq<u8>,
) -> Seq<(Seq<u8>, Seq<u8>)> {
    if lookup(entries, name) is Some {
        entries
    } else {
        entries.push((name, value))
    }
}

/// The entries after the pairs were offered to `acc` one after the other.
pub open spec fn extend(
    acc: Seq<(Seq<u8>, Seq<u8>)>,
    pairs: Seq<(Seq<u8>, Seq<u8>)>,
) -> Seq<(Seq<u8>, Seq<u8>)>
    decreases pairs.len(),
{
    if pairs.len() == 0 {
        acc
    } else {
        push_first_wins(extend(acc, pairs.drop_last()), pairs.last().0, pairs.last().1)
    }
}

/// The entries that remain of a list of pairs when each name keeps its first
/// value.
pub open spec fn first_wins(pairs: Seq<(Seq<u8>, Seq<u8>)>) -> Seq<(Seq<u8>, Seq<u8>)> {
    extend(Seq::empty(), pairs)
}

/// No two entries have the same name, whatever the case.
pub open spec fn distinct_names(entries: Seq<(Seq<u8>, Seq<u8>)>) -> bool {
    forall|i: int, j: int|
        0 <= i < j < entries.len() ==> lower(#[trigger] entries[i].0) != lower(
            #[trigger] entries[j].0,
        )
}

/// What one line of raw header text holds: nothing if it is blank, else the
/// name before its first colon and the value after it, both without
/// surrounding whitespace.
pub open spec fn parse_line(line: Seq<u8>) -> Result<Option<(Seq<u8>, Seq<u8>)>, Error> {
    let colon = first_index(line, 58);
    if trim(line).len() == 0 {
        Ok(None)
    } else if colon == line.len() {
        Err(Error::MalformedHeader)
    } else {
        Ok(Some((trim(line.subrange(0, colon)), trim(line.subrange(colon + 1, line.len() as int)))))
    }
}

/// The names and values that raw header text holds, in the order of its
/// lines; the lines are separated by line feeds.
pub open spec fn line_pairs(text: Seq<u8>) -> Result<Seq<(Seq<u8>, Seq<u8>)>, Error>
    decreases text.len(),
    via line_pairs_decreases
{
    let end = first_index(text, 10);
    match parse_line(text.subrange(0, end)) {
        Err(e) => Err(e),
        Ok(item) => {
            let head = match item {
                None => Seq::empty(),
                Some(pair) => seq![pair],
            };
            if end == text.len() {
                Ok(head)
            } else {
                match line_pairs(text.subrange(end + 1, text.len() as int)) {
                    Ok(rest) => Ok(head + rest),
                    Err(e) => Err(e),
                }
            }
        },
    }
}

#[via_fn]
proof fn line_pairs_decreases(text: Seq<u8>) {
    lemma_first_index(text, 10);
}

/// The entries after the pairs were offered to `acc`, if there are pairs.
pub open spec fn extend_by(
    acc: Seq<(Seq<u8>, Seq<u8>)>,
    pairs: Result<Seq<(Seq<u8>, Seq<u8>)>, Error>,
) -> Result<Seq<(Seq<u8>, Seq<u8>)>, Error> {
    match pairs {
        Ok(pairs) => Ok(extend(acc, pairs)),
        Err(e) => Err(e),
    }
}

/// The headers that raw header text denotes: what its lines hold, each name
/// with its first value.
pub open spec fn headers_of(text: Seq<u8>) -> Result<Seq<(Seq<u8>, Seq<u8>)>, Error> {
    extend_by(Seq::empty(), line_pairs(text))
}

/// Offering two lists one after the other is offering them joined.
pub proof fn lemma_extend_concat(
    acc: Seq<(Seq<u8>, Seq<u8>)>,
    a: Seq<(Seq<u8>, Seq<u8>)>,
    b: Seq<(Seq<u8>, Seq<u8>)>,
)
    ensures
        extend(acc, a + b) == extend(extend(acc, a), b),
    decreases b.len(),
{
    if b.len() == 0 {
        assert(a + b =~= a);
    } else {
        lemma_extend_concat(acc, a, b.drop_last());
        assert((a + b).drop_last() =~= a + b.drop_last());
        assert((a + b).last() == b.last());
    }
}

/// Offering the pairs of a text is offering what its first line holds and
/// then the pairs of the rest.
pub proof fn lemma_read_line(text: Seq<u8>, acc: Seq<(Seq<u8>, Seq<u8>)>)
    ensures
        extend_by(acc, line_pairs(text)) == match parse_line(
            text.subrange(0, first_index(text, 10)),
        ) {
            Err(e) => Err(e),
            Ok(item) => {
                let next = match item {
                    None => acc,
                    Some(pair) => push_first_wins(acc, pair.0, pair.1),
                };
                if first_index(text, 10) == text.len() {
                    Ok(next)
                } else {
                    extend_by(
                        next,
                        line_pairs(text.subrange(first_index(text, 10) + 1, text.len() as int)),
                    )
                }
            },
        },
{
    let end = first_index(text, 10);
    match parse_line(text.subrange(0, end)) {
        Err(e) => {},
        Ok(item) => {
            let head: Seq<(Seq<u8>, Seq<u8>)> = match item {
                None => Seq::empty(),
                Some(pair) => seq![pair],
            };
            let next = match item {
                None => acc,
                Some(pair) => push_first_wins(acc, pair.0, pair.1),
            };
            assert(extend(acc, head) == next) by {
                if item is Some {
                    assert(head.drop_last() =~= Seq::<(Seq<u8>, Seq<u8>)>::empty());
                    assert(extend(acc, head.drop_last()) == acc);
                }
            }
            if end != text.len() {
                match line_pairs(text.subrange(end + 1, text.len() as int)) {
                    Ok(pairs) => {
                        lemma_extend_concat(acc, head, pairs);
                    },
                    Err(e) => {},
                }
            }
        },
    }
}

/// What a list with one more pair at its end holds for a name: what it held
/// before, else the value of the new pair if that bears the name.
pub proof fn lemma_lookup_push(
    entries: Seq<(Seq<u8>, Seq<u8>)>,
    name: Seq<u8>,
    value: Seq<u8>,
    query: Seq<u8>,
)
    ensures
        lookup(entries.push((name, value)), query) == if lookup(entries, query) is Some {
            lookup(entries, query)
        } else if lower(name) == lower(query) {
            Some(value)
        } else {
            None
        },
    decreases entries.len(),
{
    let pushed = entries.push((name, value));
    if entries.len() == 0 {
        assert(pushed[0] == (name, value));
        assert(pushed.skip(1).len() == 0);
        assert(lookup(pushed.skip(1), query) is None);
        assert(lookup(entries, query) is None);
    } else {
        assert(pushed[0] == entries[0]);
        assert(pushed.skip(1) =~= entries.skip(1).push((name, value)));
        lemma_lookup_push(entries.skip(1), name, value, query);
    }
}

/// The first value wins: a store made of a list of pairs holds for each
/// name the value of the first pair that bears it, whatever the case.
pub proof fn lemma_first_wins_lookup(pairs: Seq<(Seq<u8>, Seq<u8>)>, query: Seq<u8>)
    ensures
        lookup(first_wins(pairs), query) == lookup(pairs, query),
    decreases pairs.len(),
{
    if pairs.len() > 0 {
        let front = pairs.drop_last();
        let kept = first_wins(front);
        let name = pairs.last().0;
        let value = pairs.last().1;
        lemma_first_wins_lookup(front, query);
        lemma_first_wins_lookup(front, name);
        assert(pairs =~= front.push((name, value)));
        lemma_lookup_push(front, name, value, query);
        lemma_lookup_push(kept, name, value, query);
        if lower(name) == lower(query) {
            lemma_lookup_ignores_case(kept, name, query);
        }
    }
}

/// A store made of a list of pairs has no name twice.
pub proof fn lemma_first_wins_distinct(pairs: Seq<(Seq<u8>, Seq<u8>)>)
    ensures
        distinct_names(first_wins(pairs)),
    decreases pairs.len(),
{
    if pairs.len() > 0 {
        lemma_first_wins_distinct(pairs.drop_last());
        lemma_push_keeps_distinct(first_wins(pairs.drop_last()), pairs.last().0, pairs.last().1);
    }
}

/// A name has no value exactly if no entry bears it.
pub proof fn lemma_lookup_absent(entries: Seq<(Seq<u8>, Seq<u8>)>, name: Seq<u8>)
    ensures
        lookup(entries, name) is None <==> forall|i: int|
            0 <= i < entries.len() ==> lower(#[trigger] entries[i].0) != lower(name),
    decreases entries.len(),
{
    if entries.len() == 0 {
    } else if lower(entries[0].0) == lower(name) {
    } else {
        let rest = entries.skip(1);
        lemma_lookup_absent(rest, name);
        if lookup(rest, name) is None {
            assert forall|i: int| 0 <= i < entries.len() implies lower(#[trigger] entries[i].0)
                != lower(name) by {
                if i > 0 {
                    assert(entries[i] == rest[i - 1]);
                }
            }
        } else {
            let i = choose|i: int| 0 <= i < rest.len() && lower(#[trigger] rest[i].0) == lower(name);
            assert(entries[i + 1] == rest[i]);
        }
    }
}

/// Lookup does not tell apart two names that differ in ASCII case only.
pub proof fn lemma_lookup_ignores_case(entries: Seq<(Seq<u8>, Seq<u8>)>, a: Seq<u8>, b: Seq<u8>)
    requires
        lower(a) == lower(b),
    ensures
        lookup(entries, a) == lookup(entries, b),
    decreases entries.len(),
{
    if entries.len() > 0 {
        lemma_lookup_ignores_case(entries.skip(1), a, b);
    }
}

/// Offering a pair keeps the names distinct.
pub proof fn lemma_push_keeps_distinct(
    entries: Seq<(Seq<u8>, Seq<u8>)>,
    name: Seq<u8>,
    value: Seq<u8>,
)
    requires
        distinct_names(entries),
    ensures
        distinct_names(push_first_wins(entries, name, value)),
{
    lemma_lookup_absent(entries, name);
}

/// One header: its name as it was written, and its value.
#[derive(Clone, Debug)]
pub struct Header {
    /// The name, without surrounding whitespace.
    pub name: Vec<u8>,
    /// The value, without surrounding whitespace.
    pub value: Vec<u8>,
}

/// The headers of one response. A name is held once, with the value that
/// came first.
#[derive(Debug)]
pub struct HeaderStore {
    entries: Vec<Header>,
}

impl View for HeaderStore {
    type V = Seq<(Seq<u8>, Seq<u8>)>;

    closed spec fn view(&self) -> Seq<(Seq<u8>, Seq<u8>)> {
        pairs_of(self.entries@)
    }
}

/// The names and values of a list of headers.
pub open spec fn pairs_of(entries: Seq<Header>) -> Seq<(Seq<u8>, Seq<u8>)> {
    Seq::new(entries.len(), |i: int| (entries[i].name@, entries[i].value@))
}

impl HeaderStore {
    /// What every store satisfies: it holds no name twice.
    #[verifier::type_invariant]
    closed spec fn names_are_distinct(&self) -> bool {
        distinct_names(self@)
    }

    /// A store without headers.
    pub fn new() -> (r: HeaderStore)
        ensures
            r@ == Seq::<(Seq<u8>, Seq<u8>)>::empty(),
            distinct_names(r@),
    {
        let r = HeaderStore { entries: Vec::new() };
        assert(r@ =~= Seq::<(Seq<u8>, Seq<u8>)>::empty());
        r
    }

    /// The number of headers; no two of them have the same name.
    pub fn len(&self) -> (r: usize)
        ensures
            r == self@.len(),
            distinct_names(self@),
    {
        proof {
            use_type_invariant(self);
        }
        self.entries.len()
    }

    /// The value of the header `name`, whatever the case of its letters.
    pub fn get_bytes(&self, name: &[u8]) -> (r: Option<&[u8]>)
        ensures
            r is Some <==> lookup(self@, name@) is Some,
            r matches Some(v) ==> lookup(self@, name@) == Some(v@),
    {
        let mut i: usize = 0;
        proof {
            assert(self@.skip(0) =~= self@);
        }
        while i < self.entries.len()
            invariant
                0 <= i <= self.entries@.len(),
                lookup(self@, name@) == lookup(self@.skip(i as int), name@),
            decreases self.entries.len() - i,
        {
            let ghost rest = self@.skip(i as int);
            assert(rest[0] == (self.entries@[i as int].name@, self.entries@[i as int].value@));
            if eq_ignore_case(self.entries[i].name.as_slice(), name) {
                return Some(self.entries[i].value.as_slice());
            }
            proof {
                assert(rest.skip(1) =~= self@.skip(i + 1));
            }
            i += 1;
        }
        assert(self@.skip(i as int).len() == 0);
        None
    }

    /// The value of the header `name`, whatever the case of its letters.
    pub fn get(&self, name: &str) -> (r: Option<&[u8]>)
        ensures
            r is Some <==> lookup(self@, name.spec_bytes()) is Some,
            r matches Some(v) ==> lookup(self@, name.spec_bytes()) == Some(v@),
    {
        self.get_bytes(name.as_bytes())
    }

    /// Adds a header unless its name is present already, in whatever case.
    /// Returns whether it was added.
    pub fn insert(&mut self, name: Vec<u8>, value: Vec<u8>) -> (r: bool)
        ensures
            final(self)@ == push_first_wins(old(self)@, name@, value@),
            r == (lookup(old(self)@, name@) is None),
            distinct_names(final(self)@),
    {
        proof {
            use_type_invariant(&*self);
            lemma_push_keeps_distinct(self@, name@, value@);
        }
        if self.get_bytes(name.as_slice()).is_some() {
            return false;
        }
        let ghost before = self@;
        let ghost pair = (name@, value@);
        let mut entries: Vec<Header> = Vec::new();
        core::mem::swap(&mut self.entries, &mut entries);
        entries.push(Header { name, value });
        assert(pairs_of(entries@) =~= before.push(pair));
        core::mem::swap(&mut self.entries, &mut entries);
        true
    }

    /// Reads raw header text: one header a line, the name before the first
    /// colon, blank lines skipped. Fails on a line that is not blank and
    /// holds no colon.
    pub fn from_raw(text: &[u8]) -> (r: Result<HeaderStore, Error>)
        ensures
            match r {
                Ok(store) => headers_of(text@) == Ok::<_, Error>(store@) && distinct_names(store@),
                Err(e) => headers_of(text@) == Err::<Seq<(Seq<u8>, Seq<u8>)>, _>(e),
            },
    {
        let mut store = HeaderStore::new();
        let n: usize = text.len();
        let mut pos: usize = 0;
        proof {
            assert(text@.subrange(0, n as int) =~= text@);
        }
        loop
            invariant
                pos <= n == text@.len(),
                distinct_names(store@),
                headers_of(text@) == extend_by(
                    store@,
                    line_pairs(text@.subrange(pos as int, n as int)),
                ),
            decreases n - pos,
        {
            let ghost rest = text@.subrange(pos as int, n as int);
            let end = find_byte(text, pos, n, 10);
            proof {
                lemma_read_line(rest, store@);
                assert(rest.subrange(0, end - pos) =~= text@.subrange(pos as int, end as int));
                if end < n {
                    assert(rest.subrange(end - pos + 1, rest.len() as int) =~= text@.subrange(
                        end + 1,
                        n as int,
                    ));
                }
            }
            match parse_line_at(text, pos, end) {
                Err(e) => {
                    return Err(e);
                },
                Ok(None) => {},
                Ok(Some(header)) => {
                    store.insert(header.name, header.value);
                },
            }
            if end == n {
                return Ok(store);
            }
            pos = end + 1;
        }
    }

    /// Reads raw header text, as `from_raw` does.
    pub fn from_str(text: &str) -> (r: Result<HeaderStore, Error>)
        ensures
            match r {
                Ok(store) => headers_of(text.spec_bytes()) == Ok::<_, Error>(store@)
                    && distinct_names(store@),
                Err(e) => headers_of(text.spec_bytes()) == Err::<Seq<(Seq<u8>, Seq<u8>)>, _>(e),
            },
    {
        HeaderStore::from_raw(text.as_bytes())
    }
}

impl Clone for HeaderStore {
    /// A store with the same headers.
    fn clone(&self) -> (r: HeaderStore)
        ensures
            r@ == self@,
    {
        proof {
            use_type_invariant(self);
        }
        let mut entries: Vec<Header> = Vec::new();
        let mut i: usize = 0;
        while i < self.entries.len()
            invariant
                0 <= i <= self.entries@.len(),
                entries@.len() == i,
                forall|k: int|
                    0 <= k < i ==> (#[trigger] entries@[k]).name@ == self.entries@[k].name@
                        && entries@[k].value@ == self.entries@[k].value@,
            decreases self.entries.len() - i,
        {
            let entry = &self.entries[i];
            let name = copy_range(entry.name.as_slice(), 0, entry.name.len());
            let value = copy_range(entry.value.as_slice(), 0, entry.value.len());
            proof {
                assert(name@ =~= entry.name@);
                assert(value@ =~= entry.value@);
            }
            entries.push(Header { name, value });
            i += 1;
        }
        proof {
            assert(pairs_of(entries@) =~= pairs_of(self.entries@));
        }
        HeaderStore { entries }
    }
}

/// Reads the line `text[from..to]`.
pub fn parse_line_at(text: &[u8], from: usize, to: usize) -> (r: Result<Option<Header>, Error>)
    requires
        from <= to <= text@.len(),
    ensures
        match r {
            Ok(Some(h)) => parse_line(text@.subrange(from as int, to as int)) == Ok::<_, Error>(
                Some((h.name@, h.value@)),
            ),
            Ok(None) => parse_line(text@.subrange(from as int, to as int)) == Ok::<
                Option<(Seq<u8>, Seq<u8>)>,
                Error,
            >(None),
            Err(e) => parse_line(text@.subrange(from as int, to as int)) == Err::<
                Option<(Seq<u8>, Seq<u8>)>,
                _,
            >(e),
        },
{
    let ghost line = text@.subrange(from as int, to as int);
    let (a, b) = trim_range(text, from, to);
    if a == b {
        return Ok(None);
    }
    let colon = find_byte(text, from, to, 58);
    if colon == to {
        return Err(Error::MalformedHeader);
    }
    proof {
        assert(line.subrange(0, colon - from) =~= text@.subrange(from as int, colon as int));
        assert(line.subrange(colon - from + 1, line.len() as int) =~= text@.subrange(
            colon + 1,
            to as int,
        ));
    }
    let (na, nb) = trim_range(text, from, colon);
    let (va, vb) = trim_range(text, colon + 1, to);
    let name = copy_range(text, na, nb);
    let value = copy_range(text, va, vb);
    Ok(Some(Header { name, value }))
}

} // verus!
