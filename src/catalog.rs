use vstd::prelude::*;
use crate::retry::{spec_classify, Classified};
use crate::entity::{entity_by_code, entity_by_name, known_code, known_name, Entity, ENTITY_COUNT};

verus! {

/// One entry of the provider's entity listing.
#[derive(Debug)]
pub struct ListingEntry {
    /// The display name, such as "California".
    pub name: String,
    /// The provider's own identifier for the entity.
    pub provider_id: String,
}

/// One resolved catalog entry: a provider identifier and the known entity
/// it stands for.
#[derive(Debug)]
pub struct CatalogEntry {
    pub provider_id: String,
    pub entity: Entity,
}

/// A catalog entry as stored in the resolution cache: the provider
/// identifier and the entity's two-letter code.
#[derive(Debug)]
pub struct CachedEntry {
    pub provider_id: String,
    pub code: String,
}

/// The index of the first known entity, from `j` on, whose name is `name`;
/// `-1` when there is none.
pub open spec fn name_search(name: Seq<char>, j: int) -> int
    decreases ENTITY_COUNT - j,
{
    if j < 0 || j >= ENTITY_COUNT {
        -1
    } else if known_name(j) == name {
        j
    } else {
        name_search(name, j + 1)
    }
}

/// The index of the first known entity, from `j` on, whose code is `code`;
/// `-1` when there is none.
pub open spec fn code_search(code: Seq<char>, j: int) -> int
    decreases ENTITY_COUNT - j,
{
    if j < 0 || j >= ENTITY_COUNT {
        -1
    } else if known_code(j) == code {
        j
    } else {
        code_search(code, j + 1)
    }
}

/// The position of the last entry of `c` with provider identifier `id`;
/// `-1` when there is none.
pub open spec fn id_index(c: Seq<(Seq<char>, int)>, id: Seq<char>) -> int
    decreases c.len(),
{
    if c.len() == 0 {
        -1
    } else if c.last().0 == id {
        c.len() - 1
    } else {
        id_index(c.drop_last(), id)
    }
}

/// The catalog that a listing resolves to: each provider identifier of a
/// recognized entry once, at the place of its first recognized entry, with
/// the entity of its last recognized entry. Entries with unrecognized names
/// are left out.
pub open spec fn resolved(listing: Seq<ListingEntry>) -> Seq<(Seq<char>, int)>
    decreases listing.len(),
{
    if listing.len() == 0 {
        Seq::empty()
    } else {
        let rest = resolved(listing.drop_last());
        let id = listing.last().provider_id@;
        let k = name_search(listing.last().name@, 0);
        if k < 0 {
            rest
        } else if id_index(rest, id) >= 0 {
            rest.update(id_index(rest, id), (id, k))
        } else {
            rest.push((id, k))
        }
    }
}

/// No provider identifier appears twice.
pub open spec fn ids_unique(c: Seq<(Seq<char>, int)>) -> bool {
    forall|i: int, j: int| 0 <= i < j < c.len() ==> c[i].0 != c[j].0
}

proof fn lemma_id_index(c: Seq<(Seq<char>, int)>, id: Seq<char>)
    ensures
        -1 <= id_index(c, id) < c.len(),
        id_index(c, id) >= 0 ==> c[id_index(c, id)].0 == id,
        forall|j: int| id_index(c, id) < j < c.len() ==> c[j].0 != id,
    decreases c.len(),
{
    if c.len() > 0 {
        lemma_id_index(c.drop_last(), id);
        assert forall|j: int| id_index(c, id) < j < c.len() implies c[j].0 != id by {
            if j < c.len() - 1 {
                assert(c.drop_last()[j] == c[j]);
            }
        }
        if id_index(c, id) >= 0 && id_index(c, id) < c.len() - 1 {
            assert(c.drop_last()[id_index(c, id)] == c[id_index(c, id)]);
        }
    }
}

/// A resolved catalog holds each provider identifier at most once.
pub proof fn resolved_ids_unique(listing: Seq<ListingEntry>)
    ensures
        ids_unique(resolved(listing)),
    decreases listing.len(),
{
    if listing.len() > 0 {
        resolved_ids_unique(listing.drop_last());
        let rest = resolved(listing.drop_last());
        lemma_id_index(rest, listing.last().provider_id@);
    }
}

/// The catalog that cached entries stand for, or `None` if one of their
/// codes is not a known entity's.
pub open spec fn from_cached(entries: Seq<CachedEntry>) -> Option<Seq<(Seq<char>, int)>>
    decreases entries.len(),
{
    if entries.len() == 0 {
        Some(Seq::empty())
    } else {
        let k = code_search(entries.last().code@, 0);
        match from_cached(entries.drop_last()) {
            Some(rest) => if k >= 0 {
                Some(rest.push((entries.last().provider_id@, k)))
            } else {
                None
            },
            None => None,
        }
    }
}

/// The mathematical view of a resolved catalog.
pub open spec fn catalog_view(c: Seq<CatalogEntry>) -> Seq<(Seq<char>, int)> {
    Seq::new(c.len(), |i: int| (c[i].provider_id@, c[i].entity.id()))
}

proof fn lemma_name_search(name: Seq<char>, k: int, j: int)
    requires
        0 <= j <= k,
        forall|i: int| 0 <= i < k ==> known_name(i) != name,
        (0 <= k < ENTITY_COUNT && known_name(k) == name) || k == ENTITY_COUNT,
    ensures
        name_search(name, j) == if k == ENTITY_COUNT { -1 } else { k },
    decreases k - j,
{
    if j < k {
        lemma_name_search(name, k, j + 1);
    }
}

proof fn lemma_code_search(code: Seq<char>, k: int, j: int)
    requires
        0 <= j <= k,
        forall|i: int| 0 <= i < k ==> known_code(i) != code,
        (0 <= k < ENTITY_COUNT && known_code(k) == code) || k == ENTITY_COUNT,
    ensures
        code_search(code, j) == if k == ENTITY_COUNT { -1 } else { k },
    decreases k - j,
{
    if j < k {
        lemma_code_search(code, k, j + 1);
    }
}

/// Resolves a fresh listing into a catalog: entries whose name is not a
/// known entity's are dropped silently; a provider identifier listed more
/// than once is kept once, with the entity of its last recognized entry.
pub fn resolve_listing(listing: &Vec<ListingEntry>) -> (r: Vec<CatalogEntry>)
    ensures
        catalog_view(r@) == resolved(listing@),
        ids_unique(catalog_view(r@)),
{
    let mut out: Vec<CatalogEntry> = Vec::new();
    let mut i: usize = 0;
    while i < listing.len()
        invariant
            i <= listing@.len(),
            catalog_view(out@) == resolved(listing@.subrange(0, i as int)),
        decreases listing@.len() - i,
    {
        let entry = &listing[i];
        let found = entity_by_name(entry.name.as_str());
        let ghost prev = catalog_view(out@);
        proof {
            let pre = listing@.subrange(0, i as int + 1);
            assert(pre.drop_last() =~= listing@.subrange(0, i as int));
            match found {
                Some(e) => lemma_name_search(entry.name@, e.id(), 0),
                None => lemma_name_search(entry.name@, ENTITY_COUNT as int, 0),
            }
            lemma_id_index(prev, entry.provider_id@);
        }
        match found {
            Some(e) => {
                let mut j: usize = out.len();
                let mut hit = false;
                while j > 0 && !hit
                    invariant
                        j <= out@.len(),
                        prev == catalog_view(out@),
                        hit ==> j > 0 && out@[j - 1].provider_id@ == entry.provider_id@,
                        forall|m: int| j <= m < out@.len() ==> out@[m].provider_id@ != entry.provider_id@,
                    decreases 2 * j + if hit { 0int } else { 1int },
                {
                    if out[j - 1].provider_id == entry.provider_id {
                        hit = true;
                    } else {
                        j = j - 1;
                    }
                }
                if hit {
                    proof {
                        assert(prev[j - 1].0 == entry.provider_id@);
                        if id_index(prev, entry.provider_id@) != j - 1 {
                            assert(prev[id_index(prev, entry.provider_id@)].0 == entry.provider_id@);
                        }
                    }
                    out.set(j - 1, CatalogEntry { provider_id: entry.provider_id.clone(), entity: e });
                } else {
                    proof {
                        if id_index(prev, entry.provider_id@) >= 0 {
                            assert(prev[id_index(prev, entry.provider_id@)].0 == entry.provider_id@);
                            assert(out@[id_index(prev, entry.provider_id@)].provider_id@ == entry.provider_id@);
                        }
                    }
                    out.push(CatalogEntry { provider_id: entry.provider_id.clone(), entity: e });
                }
                assert(catalog_view(out@) =~= resolved(listing@.subrange(0, i as int + 1)));
            },
            None => {
                assert(catalog_view(out@) =~= resolved(listing@.subrange(0, i as int + 1)));
            },
        }
        i = i + 1;
    }
    assert(listing@.subrange(0, listing@.len() as int) =~= listing@);
    proof {
        resolved_ids_unique(listing@);
    }
    out
}

/// Rebuilds a catalog from the resolution cache. `None` when an entry names
/// a code that is not a known entity's: such a cache is not trusted, and
/// the catalog is resolved afresh.
pub fn resolve_cached(entries: &Vec<CachedEntry>) -> (r: Option<Vec<CatalogEntry>>)
    ensures
        match r {
            Some(c) => from_cached(entries@) == Some(catalog_view(c@)),
            None => from_cached(entries@) is None,
        },
{
    let mut out: Vec<CatalogEntry> = Vec::new();
    let mut i: usize = 0;
    while i < entries.len()
        invariant
            i <= entries@.len(),
            from_cached(entries@.subrange(0, i as int)) == Some(catalog_view(out@)),
        decreases entries@.len() - i,
    {
        let entry = &entries[i];
        let found = entity_by_code(entry.code.as_str());
        proof {
            let pre = entries@.subrange(0, i as int + 1);
            assert(pre.drop_last() =~= entries@.subrange(0, i as int));
            match found {
                Some(e) => lemma_code_search(entry.code@, e.id(), 0),
                None => lemma_code_search(entry.code@, ENTITY_COUNT as int, 0),
            }
        }
        match found {
            Some(e) => {
                out.push(CatalogEntry { provider_id: entry.provider_id.clone(), entity: e });
                assert(catalog_view(out@) =~= from_cached(
                    entries@.subrange(0, i as int + 1),
                ).unwrap());
            },
            None => {
                proof {
                    lemma_cached_fails_on(entries@, i as int + 1);
                }
                return None;
            },
        }
        i = i + 1;
    }
    assert(entries@.subrange(0, entries@.len() as int) =~= entries@);
    Some(out)
}

proof fn lemma_cached_fails_on(entries: Seq<CachedEntry>, n: int)
    requires
        0 < n <= entries.len(),
        from_cached(entries.subrange(0, n)) is None,
    ensures
        from_cached(entries) is None,
    decreases entries.len() - n,
{
    if n < entries.len() {
        let pre = entries.subrange(0, n + 1);
        assert(pre.drop_last() =~= entries.subrange(0, n));
        lemma_cached_fails_on(entries, n + 1);
    } else {
        assert(entries.subrange(0, n) =~= entries);
    }
}

/// An entry whose name is not a known entity's changes nothing: inserting
/// it anywhere in a listing yields the same catalog, and resolution never
/// fails because of it.
pub proof fn unknown_entry_ignored(before: Seq<ListingEntry>, entry: ListingEntry, after: Seq<ListingEntry>)
    requires
        forall|j: int| 0 <= j < ENTITY_COUNT ==> known_name(j) != entry.name@,
    ensures
        resolved(before.push(entry) + after) == resolved(before + after),
    decreases after.len(),
{
    if after.len() == 0 {
        assert(before.push(entry) + after =~= before.push(entry));
        assert(before + after =~= before);
        assert(before.push(entry).drop_last() =~= before);
        lemma_name_search(entry.name@, ENTITY_COUNT as int, 0);
    } else {
        unknown_entry_ignored(before, entry, after.drop_last());
        assert((before.push(entry) + after).drop_last() =~= before.push(entry) + after.drop_last());
        assert((before + after).drop_last() =~= before + after.drop_last());
    }
}

/// Why resolving the catalog failed.
#[derive(Clone, Copy, Debug, PartialEq, Eq, Structural)]
pub enum CatalogError {
    /// The provider rate-limited the listing request.
    RateLimited,
    /// The listing request came back with this non-success status.
    Rejected { status: u16 },
    /// The listing request failed before any status arrived.
    Transport,
    /// The resolved catalog could not be written to the resolution cache.
    CacheWrite,
}

/// Where catalog resolution stands. It starts in `ReadingCache`.
#[derive(Debug)]
pub enum CatalogState {
    /// Waiting for the resolution cache to be read.
    ReadingCache,
    /// The listing request is in flight.
    Listing,
    /// A freshly resolved catalog is being written to the resolution cache.
    Storing { catalog: Vec<CatalogEntry> },
    /// The catalog was handed on.
    Finished,
    /// Resolution failed.
    Failed(CatalogError),
}

/// What the outside world reports to catalog resolution.
#[derive(Debug)]
pub enum CatalogEvent {
    /// The resolution cache was read: its entries, or `None` when it is
    /// missing or unreadable.
    CacheRead(Option<Vec<CachedEntry>>),
    /// The listing request came back with this status and these entries.
    Listed { status: u16, listing: Vec<ListingEntry> },
    /// The listing request failed before any status arrived.
    ListingFailed,
    /// The write to the resolution cache ended, successfully or not.
    Stored(bool),
}

/// What catalog resolution asks of the outside world next.
#[derive(Debug)]
pub enum CatalogAction {
    /// Request the provider's listing, then report `Listed` or
    /// `ListingFailed`.
    RequestListing,
    /// Write these entries to the resolution cache, then report `Stored`.
    Write(Vec<CachedEntry>),
    /// Resolution is done with this catalog.
    Complete(Vec<CatalogEntry>),
    /// Resolution failed.
    Abort(CatalogError),
    /// The event does not apply to the current state; nothing changes.
    Nothing,
}

/// The mathematical view of cached entries: (provider identifier, code).
pub open spec fn cached_view(c: Seq<CachedEntry>) -> Seq<(Seq<char>, Seq<char>)> {
    Seq::new(c.len(), |i: int| (c[i].provider_id@, c[i].code@))
}

/// The entries under which a catalog is stored: each provider identifier
/// with its entity's code.
pub open spec fn as_cached(c: Seq<(Seq<char>, int)>) -> Seq<(Seq<char>, Seq<char>)> {
    Seq::new(c.len(), |i: int| (c[i].0, known_code(c[i].1)))
}

/// The entries under which a catalog is stored in the resolution cache.
fn to_cached(catalog: &Vec<CatalogEntry>) -> (r: Vec<CachedEntry>)
    ensures
        cached_view(r@) == as_cached(catalog_view(catalog@)),
{
    let mut out: Vec<CachedEntry> = Vec::new();
    let mut i: usize = 0;
    while i < catalog.len()
        invariant
            i <= catalog@.len(),
            out@.len() == i,
            forall|j: int|
                0 <= j < i ==> (#[trigger] cached_view(out@)[j]) == as_cached(catalog_view(catalog@))[j],
        decreases catalog@.len() - i,
    {
        let entry = &catalog[i];
        let code = entry.entity.code().to_owned();
        let ghost prev = out@;
        out.push(CachedEntry { provider_id: entry.provider_id.clone(), code });
        proof {
            assert forall|j: int| 0 <= j < i + 1 implies (#[trigger] cached_view(out@)[j])
                == as_cached(catalog_view(catalog@))[j] by {
                if j < i {
                    assert(out@[j] == prev[j]);
                    assert(cached_view(prev)[j] == cached_view(out@)[j]);
                }
            }
        }
        i = i + 1;
    }
    assert(cached_view(out@) =~= as_cached(catalog_view(catalog@)));
    out
}

impl CatalogState {
    /// The allowed transitions: from `self`, on event `e`, to `next` with
    /// action `a`. Cache first: a valid cached catalog is used as it is; a
    /// missing or invalid one leads to the listing request; a successful
    /// listing is resolved and written to the cache before it is handed on.
    pub open spec fn step_spec(self, e: CatalogEvent, next: CatalogState, a: CatalogAction) -> bool {
        match (self, e) {
            (CatalogState::ReadingCache, CatalogEvent::CacheRead(read)) => {
                if read is Some && from_cached(read->Some_0@) is Some {
                    &&& next is Finished
                    &&& a is Complete
                    &&& catalog_view(a->Complete_0@) == from_cached(read->Some_0@).unwrap()
                } else {
                    next is Listing && a is RequestListing
                }
            },
            (CatalogState::Listing, CatalogEvent::Listed { status, listing }) => {
                match spec_classify(status) {
                    Classified::Success => {
                        &&& next is Storing
                        &&& catalog_view(next->catalog@) == resolved(listing@)
                        &&& a is Write
                        &&& cached_view(a->Write_0@) == as_cached(resolved(listing@))
                    },
                    Classified::Transient => next == CatalogState::Failed(CatalogError::RateLimited)
                        && a == CatalogAction::Abort(CatalogError::RateLimited),
                    Classified::Permanent => next == CatalogState::Failed(
                        CatalogError::Rejected { status },
                    ) && a == CatalogAction::Abort(CatalogError::Rejected { status }),
                }
            },
            (CatalogState::Listing, CatalogEvent::ListingFailed) => next == CatalogState::Failed(
                CatalogError::Transport,
            ) && a == CatalogAction::Abort(CatalogError::Transport),
            (CatalogState::Storing { catalog }, CatalogEvent::Stored(ok)) => if ok {
                next is Finished && a == CatalogAction::Complete(catalog)
            } else {
                next == CatalogState::Failed(CatalogError::CacheWrite) && a == CatalogAction::Abort(
                    CatalogError::CacheWrite,
                )
            },
            (s, _) => next == s && a is Nothing,
        }
    }

    /// Advances catalog resolution by one event.
    pub fn step(self, e: CatalogEvent) -> (r: (CatalogState, CatalogAction))
        ensures
            self.step_spec(e, r.0, r.1),
    {
        match (self, e) {
            (CatalogState::ReadingCache, CatalogEvent::CacheRead(read)) => {
                let cached = match read {
                    Some(entries) => resolve_cached(&entries),
                    None => None,
                };
                match cached {
                    Some(catalog) => (CatalogState::Finished, CatalogAction::Complete(catalog)),
                    None => (CatalogState::Listing, CatalogAction::RequestListing),
                }
            },
            (CatalogState::Listing, CatalogEvent::Listed { status, listing }) => {
                match crate::retry::classify(status) {
                    Classified::Success => {
                        let catalog = resolve_listing(&listing);
                        let entries = to_cached(&catalog);
                        (CatalogState::Storing { catalog }, CatalogAction::Write(entries))
                    },
                    Classified::Transient => (
                        CatalogState::Failed(CatalogError::RateLimited),
                        CatalogAction::Abort(CatalogError::RateLimited),
                    ),
                    Classified::Permanent => (
                        CatalogState::Failed(CatalogError::Rejected { status }),
                        CatalogAction::Abort(CatalogError::Rejected { status }),
                    ),
                }
            },
            (CatalogState::Listing, CatalogEvent::ListingFailed) => (
                CatalogState::Failed(CatalogError::Transport),
                CatalogAction::Abort(CatalogError::Transport),
            ),
            (CatalogState::Storing { catalog }, CatalogEvent::Stored(ok)) => if ok {
                (CatalogState::Finished, CatalogAction::Complete(catalog))
            } else {
                (CatalogState::Failed(CatalogError::CacheWrite), CatalogAction::Abort(CatalogError::CacheWrite))
            },
            (s, _) => (s, CatalogAction::Nothing),
        }
    }
}

/// Cache first for the catalog: when the resolution cache holds a valid
/// catalog, resolution completes with exactly that catalog and never asks
/// for the listing.
pub proof fn catalog_cache_hit_never_requests(
    entries: Vec<CachedEntry>,
    next: CatalogState,
    a: CatalogAction,
)
    requires
        from_cached(entries@) is Some,
        CatalogState::ReadingCache.step_spec(CatalogEvent::CacheRead(Some(entries)), next, a),
    ensures
        next is Finished,
        !(a is RequestListing),
        a is Complete && catalog_view(a->Complete_0@) == from_cached(entries@).unwrap(),
{
}

/// A catalog resolved from a fresh listing is handed on only after it was
/// written: from the write stage, the catalog completes only on a
/// successful write, and with exactly the catalog that was being written.
pub proof fn listed_catalog_stored_first(
    catalog: Vec<CatalogEntry>,
    e: CatalogEvent,
    next: CatalogState,
    a: CatalogAction,
)
    requires
        (CatalogState::Storing { catalog }).step_spec(e, next, a),
        a is Complete,
    ensures
        e == CatalogEvent::Stored(true),
        a == CatalogAction::Complete(catalog),
{
}

} // verus!
