//! The cache-aside batch resolver: read what is cached, fetch the rest in one request,
//! store what came back, and return both.
//!
//! The fetch itself is outside work, so the resolver is split at it: `Resolution::start`
//! takes what the cache read gave, `Resolution::request` says what to fetch (if anything),
//! and `Resolution::complete` takes what the fetch gave and says what to store and return.

use vstd::prelude::*;
use crate::query::{endpoint_uri_text, fetch_body_text, fetch_request, FetchError, FetchRequest};
use crate::store::{
    contains_key, copy_pairs, entries_of, is_lookup_of, keys_of, lemma_lookup_after_append, lookup,
    pairs_view, unique_keys, EntryView, MemoryCache,
};

verus! {

/// The requested ids that the cache did not answer, in request order, duplicates kept.
pub open spec fn misses_of(ids: Seq<u32>, cached: Seq<(u32, String)>) -> Seq<u32> {
    ids.filter(|id: u32| !keys_of(cached).contains(id))
}

/// An id is missing exactly when it was requested and the cache did not answer it.
pub proof fn lemma_misses_contains(ids: Seq<u32>, cached: Seq<(u32, String)>, id: u32)
    ensures
        misses_of(ids, cached).contains(id) <==> (ids.contains(id) && !keys_of(cached).contains(id)),
    decreases ids.len(),
{
    reveal(Seq::filter);
    if ids.len() > 0 {
        let init = ids.drop_last();
        lemma_misses_contains(init, cached, id);
        assert(misses_of(ids, cached) == if !keys_of(cached).contains(ids.last()) {
            misses_of(init, cached).push(ids.last())
        } else {
            misses_of(init, cached)
        });
        if ids.contains(id) {
            let k = choose|k: int| 0 <= k < ids.len() && ids[k] == id;
            if k < ids.len() - 1 {
                assert(init[k] == id);
            }
        }
        if init.contains(id) {
            let k = choose|k: int| 0 <= k < init.len() && init[k] == id;
            assert(ids[k] == id);
        }
        if misses_of(ids, cached).contains(id) && !keys_of(cached).contains(ids.last()) {
            let m = misses_of(init, cached);
            let k = choose|k: int| 0 <= k < m.len() + 1 && m.push(ids.last())[k] == id;
            if k < m.len() {
                assert(m[k] == id);
            }
        }
        if misses_of(init, cached).contains(id) && !keys_of(cached).contains(ids.last()) {
            let m = misses_of(init, cached);
            let k = choose|k: int| 0 <= k < m.len() && m[k] == id;
            assert(m.push(ids.last())[k] == id);
        }
    }
}

/// The state of one resolution once the cache has been read.
pub struct Resolution {
    /// The resource kind.
    pub endpoint: String,
    /// The records that the cache held, as `(id, payload)`.
    pub cached: Vec<(u32, String)>,
    /// The ids that still have to be fetched.
    pub misses: Vec<u32>,
}

/// What to do once the fetch is over.
pub enum Completion {
    /// Store `entries` under the resource kind, then answer `result`.
    Store { entries: Vec<(u32, String)>, result: Vec<(u32, String)> },
    /// Fail with this error, storing nothing.
    Fail(FetchError),
}

impl Resolution {
    /// Starts a resolution of `ids` of kind `endpoint` from what the cache answered.
    pub fn start(endpoint: &str, ids: &Vec<u32>, cached: Vec<(u32, String)>) -> (r: Self)
        ensures
            r.endpoint@ == endpoint@,
            r.cached@ == cached@,
            r.misses@ == misses_of(ids@, cached@),
    {
        let mut misses: Vec<u32> = Vec::new();
        let mut i: usize = 0;
        while i < ids.len()
            invariant
                i <= ids@.len(),
                misses@ == misses_of(ids@.subrange(0, i as int), cached@),
            decreases ids@.len() - i,
        {
            let id = ids[i];
            if !contains_key(&cached, id) {
                misses.push(id);
            }
            proof {
                reveal(Seq::filter);
                assert(ids@.subrange(0, i + 1).drop_last() =~= ids@.subrange(0, i as int));
            }
            i = i + 1;
        }
        assert(ids@.subrange(0, ids@.len() as int) =~= ids@);
        Resolution { endpoint: endpoint.to_owned(), cached, misses }
    }

    /// The one bulk request to make, or none when the cache answered every id.
    pub fn request(&self, fields: &str) -> (r: Option<FetchRequest>)
        ensures
            r is None <==> self.misses@.len() == 0,
            r matches Some(q) ==> q.endpoint@ == self.endpoint@ && q.uri@ == endpoint_uri_text(
                self.endpoint@,
            ) && q.body@ == fetch_body_text(fields@, self.misses@),
    {
        if self.misses.len() == 0 {
            None
        } else {
            Some(fetch_request(self.endpoint.as_str(), fields, &self.misses))
        }
    }

    /// Ends the resolution with what the fetch gave: records to store and the answer, which is
    /// the cached records followed by the fetched ones, however few came back; or the fetch's
    /// error, with nothing to store.
    pub fn complete(self, fetched: Result<Vec<(u32, String)>, FetchError>) -> (r: Completion)
        ensures
            fetched matches Ok(f) ==> (r matches Completion::Store { entries, result }
                && pairs_view(entries@) == pairs_view(f@) && result@ == self.cached@ + f@),
            fetched matches Err(e) ==> r == Completion::Fail(e),
    {
        match fetched {
            Ok(f) => {
                let entries = copy_pairs(&f);
                let mut result = self.cached;
                let mut f = f;
                result.append(&mut f);
                Completion::Store { entries, result }
            },
            Err(e) => Completion::Fail(e),
        }
    }
}

/// Starts a resolution of `ids` of kind `endpoint` against an in-memory store.
pub fn begin(cache: &MemoryCache, endpoint: &str, ids: &Vec<u32>) -> (r: Resolution)
    ensures
        r.endpoint@ == endpoint@,
        is_lookup_of(cache@, endpoint@, ids@, r.cached@),
        r.misses@ == misses_of(ids@, r.cached@),
{
    let cached = cache.get_many(endpoint, ids);
    Resolution::start(endpoint, ids, cached)
}

/// Ends a resolution against an in-memory store: on success the fetched records are stored
/// before the answer is returned; on failure the store is left as it was.
pub fn finish(cache: &mut MemoryCache, res: Resolution, fetched: Result<Vec<(u32, String)>, FetchError>) -> (r:
    Result<Vec<(u32, String)>, FetchError>)
    ensures
        fetched matches Ok(f) ==> (r matches Ok(v) && v@ == res.cached@ + f@ && final(cache)@ == old(
            cache,
        )@ + entries_of(res.endpoint@, f@)),
        fetched matches Err(e) ==> r == Err::<Vec<(u32, String)>, FetchError>(e) && final(cache)@
            == old(cache)@,
{
    let endpoint = res.endpoint.clone();
    match res.complete(fetched) {
        Completion::Store { entries, result } => {
            cache.set_many(endpoint.as_str(), entries);
            Ok(result)
        },
        Completion::Fail(e) => Err(e),
    }
}

/// When every requested id is cached, nothing is left to fetch, so no request is made.
pub proof fn lemma_all_cached_needs_no_fetch(
    entries: Seq<EntryView>,
    kind: Seq<char>,
    ids: Seq<u32>,
    cached: Seq<(u32, String)>,
)
    requires
        forall|i: int| 0 <= i < ids.len() ==> lookup(entries, #[trigger] ids[i], kind) is Some,
        is_lookup_of(entries, kind, ids, cached),
    ensures
        misses_of(ids, cached).len() == 0,
{
    if misses_of(ids, cached).len() > 0 {
        let id = misses_of(ids, cached)[0];
        assert(misses_of(ids, cached).contains(id));
        lemma_misses_contains(ids, cached, id);
        let k = choose|k: int| 0 <= k < ids.len() && ids[k] == id;
        assert(lookup(entries, ids[k], kind) is Some);
    }
}

/// After a resolution whose fetch returned exactly the missing records, resolving the same
/// ids again finds every one in the store, so it fetches nothing, and it answers the same
/// records as the first time.
pub proof fn lemma_second_resolve_hits_cache(
    entries: Seq<EntryView>,
    kind: Seq<char>,
    ids: Seq<u32>,
    cached: Seq<(u32, String)>,
    fetched: Seq<(u32, String)>,
    cached2: Seq<(u32, String)>,
)
    requires
        is_lookup_of(entries, kind, ids, cached),
        unique_keys(fetched),
        forall|id: u32| misses_of(ids, cached).contains(id) <==> #[trigger] keys_of(fetched).contains(id),
        is_lookup_of(entries + entries_of(kind, fetched), kind, ids, cached2),
    ensures
        misses_of(ids, cached2).len() == 0,
        forall|i: int|
            0 <= i < cached2.len() ==> pairs_view(cached + fetched).contains(#[trigger] pairs_view(cached2)[i]),
        forall|i: int|
            0 <= i < cached.len() + fetched.len() ==> pairs_view(cached2).contains(
                #[trigger] pairs_view(cached + fetched)[i],
            ),
{
    let after = entries + entries_of(kind, fetched);
    // Every requested id reads as some payload after the store.
    assert forall|i: int| 0 <= i < ids.len() implies lookup(after, #[trigger] ids[i], kind) is Some by {
        let id = ids[i];
        lemma_lookup_after_append(entries, kind, fetched, id);
        lemma_misses_contains(ids, cached, id);
        assert(ids.contains(id));
        if keys_of(fetched).contains(id) {
            let j = choose|j: int| 0 <= j < keys_of(fetched).len() && #[trigger] keys_of(fetched)[j] == id;
            assert(fetched[j].0 == id);
        } else {
            assert(keys_of(cached).contains(id));
            let m = choose|m: int| 0 <= m < keys_of(cached).len() && #[trigger] keys_of(cached)[m] == id;
            assert(cached[m].0 == id);
        }
    }
    lemma_all_cached_needs_no_fetch(after, kind, ids, cached2);
    let both = cached + fetched;
    assert forall|i: int| 0 <= i < cached2.len() implies pairs_view(both).contains(
        #[trigger] pairs_view(cached2)[i],
    ) by {
        let id = cached2[i].0;
        lemma_lookup_after_append(entries, kind, fetched, id);
        lemma_misses_contains(ids, cached, id);
        if keys_of(fetched).contains(id) {
            let j = choose|j: int| 0 <= j < keys_of(fetched).len() && #[trigger] keys_of(fetched)[j] == id;
            assert(fetched[j].0 == id);
            assert(pairs_view(both)[cached.len() + j] == pairs_view(cached2)[i]);
        } else {
            assert(keys_of(cached).contains(id));
            let m = choose|m: int| 0 <= m < keys_of(cached).len() && #[trigger] keys_of(cached)[m] == id;
            assert(cached[m].0 == id);
            assert(pairs_view(both)[m] == pairs_view(cached2)[i]);
        }
    }
    assert forall|i: int| 0 <= i < cached.len() + fetched.len() implies pairs_view(cached2).contains(
        #[trigger] pairs_view(both)[i],
    ) by {
        let id = both[i].0;
        lemma_lookup_after_append(entries, kind, fetched, id);
        lemma_misses_contains(ids, cached, id);
        if i < cached.len() {
            assert(both[i] == cached[i]);
            assert(keys_of(cached)[i] == id);
            assert(ids.contains(cached[i].0));
            assert(!keys_of(fetched).contains(id));
        } else {
            let j = i - cached.len();
            assert(both[i] == fetched[j]);
            assert(keys_of(fetched)[j] == id);
            assert(keys_of(fetched).contains(id));
            assert(misses_of(ids, cached).contains(id));
        }
        assert(ids.contains(id));
        assert(keys_of(cached2).contains(id));
        let m = choose|m: int| 0 <= m < keys_of(cached2).len() && #[trigger] keys_of(cached2)[m] == id;
        assert(cached2[m].0 == id);
        assert(pairs_view(cached2)[m] == pairs_view(both)[i]);
    }
}

} // verus!
