//! An in-memory cache store: entries keyed by numeric id and resource kind.

use vstd::prelude::*;

verus! {

/// What an entry holds: the record's id, its resource kind and its serialized payload.
pub type EntryView = (u32, Seq<char>, Seq<char>);

/// The payload stored for `(id, kind)`: the most recent entry with that key wins.
pub open spec fn lookup(entries: Seq<EntryView>, id: u32, kind: Seq<char>) -> Option<Seq<char>>
    decreases entries.len(),
{
    if entries.len() == 0 {
        None
    } else {
        let e = entries.last();
        if e.0 == id && e.1 == kind {
            Some(e.2)
        } else {
            lookup(entries.drop_last(), id, kind)
        }
    }
}

/// A list of `(id, payload)` pairs, with each payload seen as its characters.
pub open spec fn pairs_view(vals: Seq<(u32, String)>) -> Seq<(u32, Seq<char>)> {
    vals.map_values(|v: (u32, String)| (v.0, v.1@))
}

/// The entries that storing `vals` under `kind` appends, in order.
pub open spec fn entries_of(kind: Seq<char>, vals: Seq<(u32, String)>) -> Seq<EntryView> {
    pairs_view(vals).map_values(|v: (u32, Seq<char>)| (v.0, kind, v.1))
}

/// The ids of a list of `(id, payload)` pairs.
pub open spec fn keys_of(vals: Seq<(u32, String)>) -> Seq<u32> {
    pairs_view(vals).map_values(|v: (u32, Seq<char>)| v.0)
}

/// No id occurs twice among `vals`.
pub open spec fn unique_keys(vals: Seq<(u32, String)>) -> bool {
    forall|i: int, j: int| 0 <= i < j < vals.len() ==> vals[i].0 != vals[j].0
}

/// `found` is what a bulk lookup of `ids` under `kind` may return from `entries`:
/// each requested id that is stored appears once, with its stored payload, and nothing else.
pub open spec fn is_lookup_of(
    entries: Seq<EntryView>,
    kind: Seq<char>,
    ids: Seq<u32>,
    found: Seq<(u32, String)>,
) -> bool {
    &&& forall|i: int| 0 <= i < found.len() ==> ids.contains(#[trigger] found[i].0)
    &&& forall|i: int|
        0 <= i < found.len() ==> lookup(entries, #[trigger] found[i].0, kind) == Some(found[i].1@)
    &&& forall|i: int, j: int| 0 <= i < j < found.len() ==> found[i].0 != found[j].0
    &&& forall|id: u32|
        ids.contains(id) && lookup(entries, id, kind) is Some ==> #[trigger] keys_of(found).contains(id)
}

/// One stored record.
pub struct CacheEntry {
    pub id: u32,
    pub endpoint: String,
    pub value: String,
}

/// A cache store kept in memory; duplicate keys are tolerated and the latest entry is read.
pub struct MemoryCache {
    entries: Vec<CacheEntry>,
}

impl View for MemoryCache {
    type V = Seq<EntryView>;

    closed spec fn view(&self) -> Seq<EntryView> {
        self.entries@.map_values(|e: CacheEntry| (e.id, e.endpoint@, e.value@))
    }
}

impl MemoryCache {
    /// An empty store.
    pub fn new() -> (r: Self)
        ensures
            r@ == Seq::<EntryView>::empty(),
    {
        let r = MemoryCache { entries: Vec::new() };
        assert(r@ =~= Seq::<EntryView>::empty());
        r
    }

    /// The number of entries stored, duplicates included.
    pub fn len(&self) -> (r: usize)
        ensures
            r == self@.len(),
    {
        self.entries.len()
    }

    /// Stores `val` under `(id, endpoint)`; later reads of that key see it.
    pub fn set(&mut self, id: u32, endpoint: &str, val: String)
        ensures
            final(self)@ == old(self)@.push((id, endpoint@, val@)),
    {
        let e = CacheEntry { id, endpoint: endpoint.to_owned(), value: val };
        self.entries.push(e);
        assert(self@ =~= old(self)@.push((id, endpoint@, e.value@)));
    }

    /// Stores every `(id, payload)` of `vals` under `endpoint`, in order.
    pub fn set_many(&mut self, endpoint: &str, vals: Vec<(u32, String)>)
        ensures
            final(self)@ == old(self)@ + entries_of(endpoint@, vals@),
    {
        let mut i: usize = 0;
        while i < vals.len()
            invariant
                i <= vals@.len(),
                self@ == old(self)@ + entries_of(endpoint@, vals@.subrange(0, i as int)),
            decreases vals@.len() - i,
        {
            let v = &vals[i];
            self.set(v.0, endpoint, v.1.clone());
            assert(entries_of(endpoint@, vals@.subrange(0, i + 1)) =~= entries_of(
                endpoint@,
                vals@.subrange(0, i as int),
            ).push((v.0, endpoint@, v.1@)));
            i = i + 1;
        }
        assert(vals@.subrange(0, vals@.len() as int) =~= vals@);
    }

    /// The payload stored for `(id, endpoint)`, if any.
    pub fn get(&self, id: u32, endpoint: &str) -> (r: Option<String>)
        ensures
            r matches Some(v) ==> lookup(self@, id, endpoint@) == Some(v@),
            r is None ==> lookup(self@, id, endpoint@) is None,
    {
        let kind = endpoint.to_owned();
        let mut i: usize = self.entries.len();
        assert(self@.subrange(0, i as int) =~= self@);
        while i > 0
            invariant
                i <= self@.len(),
                kind@ == endpoint@,
                lookup(self@, id, endpoint@) == lookup(self@.subrange(0, i as int), id, endpoint@),
            decreases i,
        {
            let e = &self.entries[i - 1];
            assert(self@.subrange(0, i - 1) =~= self@.subrange(0, i as int).drop_last());
            if e.id == id && e.endpoint == kind {
                return Some(e.value.clone());
            }
            i = i - 1;
        }
        None
    }

    /// The stored payloads of the requested ids, one per stored id; ids not stored are left out.
    pub fn get_many(&self, endpoint: &str, ids: &Vec<u32>) -> (r: Vec<(u32, String)>)
        ensures
            is_lookup_of(self@, endpoint@, ids@, r@),
    {
        let mut r: Vec<(u32, String)> = Vec::new();
        let mut i: usize = 0;
        while i < ids.len()
            invariant
                i <= ids@.len(),
                forall|k: int| 0 <= k < r@.len() ==> ids@.subrange(0, i as int).contains(#[trigger] r@[k].0),
                forall|k: int|
                    0 <= k < r@.len() ==> lookup(self@, #[trigger] r@[k].0, endpoint@) == Some(r@[k].1@),
                forall|k: int, l: int| 0 <= k < l < r@.len() ==> r@[k].0 != r@[l].0,
                forall|id: u32|
                    ids@.subrange(0, i as int).contains(id) && lookup(self@, id, endpoint@) is Some
                        ==> #[trigger] keys_of(r@).contains(id),
            decreases ids@.len() - i,
        {
            let id = ids[i];
            let ghost r0 = r@;
            let seen = contains_key(&r, id);
            if !seen {
                match self.get(id, endpoint) {
                    Some(v) => {
                        proof {
                            assert(keys_of(r@.push((id, v))) =~= keys_of(r@).push(id));
                        }
                        r.push((id, v));
                    },
                    None => {},
                }
            }
            proof {
                assert forall|id2: u32|
                    ids@.subrange(0, i + 1).contains(id2) && lookup(self@, id2, endpoint@) is Some
                        implies #[trigger] keys_of(r@).contains(id2) by {
                    let k = choose|k: int| 0 <= k < i + 1 && #[trigger] ids@.subrange(0, i + 1)[k] == id2;
                    if r@ != r0 {
                        assert(keys_of(r@) =~= keys_of(r0).push(id));
                    }
                    if k < i {
                        assert(ids@.subrange(0, i as int)[k] == id2);
                        assert(keys_of(r0).contains(id2));
                        if r@ != r0 {
                            let m = choose|m: int| 0 <= m < keys_of(r0).len() && #[trigger] keys_of(r0)[m] == id2;
                            assert(keys_of(r@)[m] == id2);
                        }
                    } else {
                        assert(id2 == id);
                        if r@ != r0 {
                            assert(keys_of(r@)[r0.len() as int] == id2);
                        }
                    }
                }
                assert forall|k: int| 0 <= k < r@.len() implies ids@.subrange(0, i + 1).contains(
                    #[trigger] r@[k].0,
                ) by {
                    if r@[k].0 == id {
                        assert(ids@.subrange(0, i + 1)[i as int] == id);
                    } else {
                        let m = choose|m: int| 0 <= m < i && #[trigger] ids@.subrange(0, i as int)[m] == r@[k].0;
                        assert(ids@.subrange(0, i + 1)[m] == r@[k].0);
                    }
                }
            }
            i = i + 1;
        }
        assert(ids@.subrange(0, ids@.len() as int) =~= ids@);
        r
    }
}

/// A copy of a list of `(id, payload)` pairs.
pub fn copy_pairs(vals: &Vec<(u32, String)>) -> (r: Vec<(u32, String)>)
    ensures
        pairs_view(r@) == pairs_view(vals@),
{
    let mut r: Vec<(u32, String)> = Vec::new();
    let mut i: usize = 0;
    while i < vals.len()
        invariant
            i <= vals@.len(),
            r@.len() == i,
            pairs_view(r@) == pairs_view(vals@.subrange(0, i as int)),
        decreases vals@.len() - i,
    {
        let v = &vals[i];
        let ghost r0 = r@;
        let c = v.1.clone();
        r.push((v.0, c));
        assert forall|k: int| 0 <= k < i + 1 implies #[trigger] pairs_view(r@)[k] == pairs_view(
            vals@.subrange(0, i + 1),
        )[k] by {
            if k < i {
                assert(r@[k] == r0[k]);
                assert(pairs_view(r0)[k] == pairs_view(vals@.subrange(0, i as int))[k]);
            }
        }
        assert(pairs_view(r@) =~= pairs_view(vals@.subrange(0, i + 1)));
        i = i + 1;
    }
    assert(vals@.subrange(0, vals@.len() as int) =~= vals@);
    r
}

/// Appending entries under `kind` leaves the other ids of that kind as they were, and an id
/// that occurs once among them reads as its new payload.
pub proof fn lemma_lookup_after_append(
    entries: Seq<EntryView>,
    kind: Seq<char>,
    vals: Seq<(u32, String)>,
    id: u32,
)
    ensures
        !keys_of(vals).contains(id) ==> lookup(entries + entries_of(kind, vals), id, kind)
            == lookup(entries, id, kind),
        forall|j: int|
            0 <= j < vals.len() && unique_keys(vals) && #[trigger] vals[j].0 == id ==> lookup(
                entries + entries_of(kind, vals),
                id,
                kind,
            ) == Some(vals[j].1@),
    decreases vals.len(),
{
    if vals.len() > 0 {
        let init = vals.drop_last();
        assert((entries + entries_of(kind, vals)).drop_last() =~= entries + entries_of(kind, init));
        assert((entries + entries_of(kind, vals)).last() == (vals.last().0, kind, vals.last().1@));
        lemma_lookup_after_append(entries, kind, init, id);
        if !keys_of(vals).contains(id) {
            assert(keys_of(vals)[vals.len() - 1] == vals.last().0);
            assert forall|m: int| 0 <= m < keys_of(init).len() implies keys_of(init)[m] != id by {
                assert(keys_of(vals)[m] == keys_of(init)[m]);
            }
        }
        assert forall|j: int|
            0 <= j < vals.len() && unique_keys(vals) && #[trigger] vals[j].0 == id implies lookup(
                entries + entries_of(kind, vals),
                id,
                kind,
            ) == Some(vals[j].1@) by {
            if j < vals.len() - 1 {
                assert(init[j] == vals[j]);
            }
        }
    } else {
        assert(entries + entries_of(kind, vals) =~= entries);
    }
}

/// Kinds never share entries: storing under one kind leaves every lookup under another as it was.
pub proof fn lemma_other_kind_unchanged(
    entries: Seq<EntryView>,
    kind: Seq<char>,
    vals: Seq<(u32, String)>,
    other: Seq<char>,
    id: u32,
)
    requires
        other != kind,
    ensures
        lookup(entries + entries_of(kind, vals), id, other) == lookup(entries, id, other),
    decreases vals.len(),
{
    if vals.len() > 0 {
        let init = vals.drop_last();
        assert((entries + entries_of(kind, vals)).drop_last() =~= entries + entries_of(kind, init));
        assert((entries + entries_of(kind, vals)).last().1 == kind);
        lemma_other_kind_unchanged(entries, kind, init, other, id);
    } else {
        assert(entries + entries_of(kind, vals) =~= entries);
    }
}

/// Storing records with distinct ids and then looking those ids up gives back exactly the
/// stored records.
pub proof fn lemma_put_many_then_get_many(
    entries: Seq<EntryView>,
    kind: Seq<char>,
    vals: Seq<(u32, String)>,
    found: Seq<(u32, String)>,
)
    requires
        unique_keys(vals),
        is_lookup_of(entries + entries_of(kind, vals), kind, keys_of(vals), found),
    ensures
        forall|i: int| 0 <= i < found.len() ==> pairs_view(vals).contains(#[trigger] pairs_view(found)[i]),
        forall|j: int| 0 <= j < vals.len() ==> pairs_view(found).contains(#[trigger] pairs_view(vals)[j]),
{
    assert forall|i: int| 0 <= i < found.len() implies pairs_view(vals).contains(
        #[trigger] pairs_view(found)[i],
    ) by {
        let id = found[i].0;
        assert(keys_of(vals).contains(id));
        let j = choose|j: int| 0 <= j < keys_of(vals).len() && #[trigger] keys_of(vals)[j] == id;
        assert(vals[j].0 == id);
        lemma_lookup_after_append(entries, kind, vals, id);
        assert(pairs_view(vals)[j] == pairs_view(found)[i]);
    }
    assert forall|j: int| 0 <= j < vals.len() implies pairs_view(found).contains(
        #[trigger] pairs_view(vals)[j],
    ) by {
        let id = vals[j].0;
        assert(keys_of(vals)[j] == id);
        lemma_lookup_after_append(entries, kind, vals, id);
        assert(keys_of(found).contains(id));
        let i = choose|i: int| 0 <= i < keys_of(found).len() && #[trigger] keys_of(found)[i] == id;
        assert(found[i].0 == id);
        assert(pairs_view(found)[i] == pairs_view(vals)[j]);
    }
}

/// Whether some pair of `vals` has id `id`.
pub fn contains_key(vals: &Vec<(u32, String)>, id: u32) -> (r: bool)
    ensures
        r == keys_of(vals@).contains(id),
{
    let mut i: usize = 0;
    while i < vals.len()
        invariant
            i <= vals@.len(),
            forall|k: int| 0 <= k < i ==> vals@[k].0 != id,
        decreases vals@.len() - i,
    {
        if vals[i].0 == id {
            assert(keys_of(vals@)[i as int] == id);
            return true;
        }
        i = i + 1;
    }
    assert forall|k: int| 0 <= k < keys_of(vals@).len() implies keys_of(vals@)[k] != id by {
        assert(keys_of(vals@)[k] == vals@[k].0);
    }
    false
}

} // verus!
