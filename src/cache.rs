//! The build cache: documents keyed by source path, checked against the
//! source's fingerprint and age, with a size budget enforced by evicting the
//! least-accessed entries first.
use vstd::prelude::*;
use vstd::utf8::encode_utf8;
use crate::clock::now_secs;
use crate::document::Document;
use crate::error::BuildError;
use crate::text::{str_eq, views};

verus! {

/// A cached document with what decides whether it may be served.
/// `cached_at` is in whole seconds since the Unix epoch.
#[derive(Debug, Clone)]
pub struct CachedDocument {
    pub document: Document,
    pub hash: String,
    pub cached_at: i64,
    pub access_count: usize,
    pub size_bytes: usize,
}

/// Concurrent map from source path to cached document.
#[verifier::external_body]
pub struct EntryStore {
    map: dashmap::DashMap<String, CachedDocument>,
}

/// The map with no entries.
pub open spec fn no_entries() -> Map<Seq<char>, CachedDocument> {
    Map::empty()
}

/// What an entry store holds, keyed by the characters of the source path.
pub uninterp spec fn store_contents(s: EntryStore) -> Map<Seq<char>, CachedDocument>;

impl EntryStore {
    /// Relies on `dashmap::DashMap::new`: an empty map.
    #[verifier::external_body]
    fn new() -> (r: Self)
        ensures
            store_contents(r) == no_entries(),
    {
        EntryStore { map: dashmap::DashMap::new() }
    }

    /// Relies on `dashmap::DashMap::get`: the entry under `k`, if any; the
    /// entry is copied out by its derived `Clone`.
    #[verifier::external_body]
    fn get(&self, k: &str) -> (r: Option<CachedDocument>)
        ensures
            r == store_contents(*self).get(k@),
    {
        self.map.get(k).map(|e| e.value().clone())
    }

    /// Relies on `dashmap::DashMap::get`: the access count and size of the
    /// entry under `k`, if any.
    #[verifier::external_body]
    fn stats(&self, k: &str) -> (r: Option<(usize, usize)>)
        ensures
            store_contents(*self).contains_key(k@) ==> r == Some(
                (store_contents(*self)[k@].access_count, store_contents(*self)[k@].size_bytes),
            ),
            !store_contents(*self).contains_key(k@) ==> r.is_none(),
    {
        self.map.get(k).map(|e| (e.access_count, e.size_bytes))
    }

    /// Relies on `dashmap::DashMap::insert`: `v` is stored under `k`,
    /// replacing what was there.
    #[verifier::external_body]
    fn insert(&mut self, k: String, v: CachedDocument)
        ensures
            store_contents(*final(self)) == store_contents(*old(self)).insert(k@, v),
    {
        self.map.insert(k, v);
    }

    /// Relies on `dashmap::DashMap::remove`: nothing stays under `k`.
    #[verifier::external_body]
    fn remove(&mut self, k: &str)
        ensures
            store_contents(*final(self)) == store_contents(*old(self)).remove(k@),
    {
        self.map.remove(k);
    }

    /// Relies on `dashmap::DashMap::clear`: the map is emptied.
    #[verifier::external_body]
    fn clear(&mut self)
        ensures
            store_contents(*final(self)) == no_entries(),
    {
        self.map.clear();
    }

    /// Relies on `dashmap::DashMap::get_mut`: the entry under `k`, if any,
    /// gets `count` as its access count; nothing else changes.
    #[verifier::external_body]
    fn set_access_count(&mut self, k: &str, count: usize)
        ensures
            store_contents(*old(self)).contains_key(k@) ==> store_contents(*final(self))
                == store_contents(*old(self)).insert(
                k@,
                (CachedDocument { access_count: count, ..store_contents(*old(self))[k@] }),
            ),
            !store_contents(*old(self)).contains_key(k@) ==> store_contents(*final(self))
                == store_contents(*old(self)),
    {
        if let Some(mut e) = self.map.get_mut(k) {
            e.access_count = count;
        }
    }
}

/// Size in bytes of the UTF-8 encoding of `s`, as `str::len` reports it.
pub open spec fn utf8_len(s: Seq<char>) -> nat {
    (encode_utf8(s).len() as usize) as nat
}

/// Fixed allowance for the fields that the estimate does not count.
pub const ENTRY_OVERHEAD: usize = 1024;

/// Estimated in-memory size of a document: its HTML, title and both paths,
/// plus a fixed overhead, capped at the largest `usize`.
pub open spec fn estimated_size(d: Document) -> nat {
    let total = utf8_len(d.html@) + utf8_len(d.title@) + utf8_len(d.source_path@) + utf8_len(
        d.output_path@,
    ) + ENTRY_OVERHEAD;
    if total > usize::MAX {
        usize::MAX as nat
    } else {
        total as nat
    }
}

/// Estimated in-memory size of a document.
pub fn estimate_document_size(d: &Document) -> (r: usize)
    ensures
        r == estimated_size(*d),
{
    let parts: [usize; 4] = [
        d.html.as_str().len(),
        d.title.as_str().len(),
        d.source_path.as_str().len(),
        d.output_path.as_str().len(),
    ];
    let total: u128 = parts[0] as u128 + parts[1] as u128 + parts[2] as u128 + parts[3] as u128
        + ENTRY_OVERHEAD as u128;
    if total > usize::MAX as u128 {
        usize::MAX
    } else {
        total as usize
    }
}

/// Whether an entry cached at `cached_at` is past the freshness window at `now`.
pub open spec fn is_expired(cached_at: i64, now: i64, window: u64) -> bool {
    now - cached_at > window
}

fn expired(cached_at: i64, now: i64, window: u64) -> (r: bool)
    ensures
        r == is_expired(cached_at, now, window),
{
    (now as i128) - (cached_at as i128) > window as i128
}

/// One more, unless already at the largest `usize`.
pub open spec fn bump(n: usize) -> usize {
    if n < usize::MAX {
        (n + 1) as usize
    } else {
        n
    }
}

/// Sum of the sizes of the entries under `keys`.
pub open spec fn sum_sizes(keys: Seq<Seq<char>>, m: Map<Seq<char>, CachedDocument>) -> int
    decreases keys.len(),
{
    if keys.len() == 0 {
        0
    } else {
        sum_sizes(keys.drop_last(), m) + m[keys.last()].size_bytes
    }
}

proof fn lemma_sum_frame(keys: Seq<Seq<char>>, m1: Map<Seq<char>, CachedDocument>, m2: Map<Seq<char>, CachedDocument>)
    requires
        forall|i: int| 0 <= i < keys.len() ==> m1[keys[i]].size_bytes == m2[keys[i]].size_bytes,
    ensures
        sum_sizes(keys, m1) == sum_sizes(keys, m2),
    decreases keys.len(),
{
    if keys.len() > 0 {
        lemma_sum_frame(keys.drop_last(), m1, m2);
    }
}

proof fn lemma_sum_bounds(keys: Seq<Seq<char>>, m: Map<Seq<char>, CachedDocument>)
    ensures
        0 <= sum_sizes(keys, m) <= keys.len() * (usize::MAX as int),
    decreases keys.len(),
{
    if keys.len() > 0 {
        lemma_sum_bounds(keys.drop_last(), m);
        let n = keys.len() as int;
        assert((n - 1) * (usize::MAX as int) + (usize::MAX as int) == n * (usize::MAX as int)) by (nonlinear_arith);
    }
}

proof fn lemma_sum_remove(keys: Seq<Seq<char>>, m: Map<Seq<char>, CachedDocument>, j: int)
    requires
        0 <= j < keys.len(),
    ensures
        sum_sizes(keys.remove(j), m) == sum_sizes(keys, m) - m[keys[j]].size_bytes,
    decreases keys.len(),
{
    if j == keys.len() - 1 {
        assert(keys.remove(j) =~= keys.drop_last());
    } else {
        lemma_sum_remove(keys.drop_last(), m, j);
        assert(keys.remove(j).drop_last() =~= keys.drop_last().remove(j));
        assert(keys.remove(j).last() == keys.last());
    }
}

proof fn lemma_sum_replace(keys: Seq<Seq<char>>, m: Map<Seq<char>, CachedDocument>, j: int, v: CachedDocument)
    requires
        0 <= j < keys.len(),
        keys.no_duplicates(),
    ensures
        sum_sizes(keys, m.insert(keys[j], v)) == sum_sizes(keys, m) - m[keys[j]].size_bytes + v.size_bytes,
    decreases keys.len(),
{
    let k = keys[j];
    if j == keys.len() - 1 {
        let d = keys.drop_last();
        assert forall|i: int| 0 <= i < d.len() implies m.insert(k, v)[d[i]].size_bytes == m[d[i]].size_bytes by {
            assert(d[i] == keys[i]);
            assert(keys[i] != keys[j]);
        }
        lemma_sum_frame(d, m.insert(k, v), m);
    } else {
        lemma_sum_replace(keys.drop_last(), m, j, v);
        assert(keys.drop_last()[j] == k);
        assert(keys.last() != k);
    }
}

proof fn lemma_sum_push(keys: Seq<Seq<char>>, m: Map<Seq<char>, CachedDocument>, k: Seq<char>, v: CachedDocument)
    requires
        !keys.contains(k),
    ensures
        sum_sizes(keys.push(k), m.insert(k, v)) == sum_sizes(keys, m) + v.size_bytes,
{
    assert(keys.push(k).drop_last() =~= keys);
    assert forall|i: int| 0 <= i < keys.len() implies m.insert(k, v)[keys[i]].size_bytes == m[keys[i]].size_bytes by {
        assert(keys[i] != k);
    }
    lemma_sum_frame(keys, m.insert(k, v), m);
}

/// First position of a least-accessed entry among `keys`.
pub open spec fn min_index(keys: Seq<Seq<char>>, m: Map<Seq<char>, CachedDocument>) -> int
    decreases keys.len(),
{
    if keys.len() <= 1 {
        0
    } else {
        let p = min_index(keys.drop_last(), m);
        if m[keys.last()].access_count < m[keys[p]].access_count {
            keys.len() - 1
        } else {
            p
        }
    }
}

/// The keys that stay when entries are evicted, least accessed first and
/// earliest first among equals, until `need` bytes are freed or none is left.
pub open spec fn after_eviction(keys: Seq<Seq<char>>, m: Map<Seq<char>, CachedDocument>, need: int) -> Seq<
    Seq<char>,
>
    decreases keys.len(),
{
    let j = min_index(keys, m);
    if need <= 0 || keys.len() == 0 || !(0 <= j < keys.len()) {
        keys
    } else {
        after_eviction(keys.remove(j), m, need - m[keys[j]].size_bytes)
    }
}

/// Whether a lookup of `path` with fingerprint `hash` at `now` is served.
pub open spec fn is_hit(
    m: Map<Seq<char>, CachedDocument>,
    path: Seq<char>,
    hash: Seq<char>,
    now: i64,
    window: u64,
) -> bool {
    m.contains_key(path) && m[path].hash@ == hash && !is_expired(m[path].cached_at, now, window)
}

/// The message of the error that reports a cache miss.
pub open spec fn miss_message() -> Seq<char> {
    "Document not found in cache"@
}

/// Whether a persisted entry may be restored at `now`: it is fresh and its
/// source still exists with the fingerprint recorded.
pub open spec fn is_restorable(p: PersistedEntry, now: i64, window: u64) -> bool {
    &&& !is_expired(p.entry.cached_at, now, window)
    &&& p.current_hash matches Some(h) && h@ == p.entry.hash@
}

/// The entries after restoring `recs` in order over `m`; `None` stands for a
/// persisted file that could not be read or parsed.
pub open spec fn restored(
    m: Map<Seq<char>, CachedDocument>,
    recs: Seq<Option<PersistedEntry>>,
    now: i64,
    window: u64,
) -> Map<Seq<char>, CachedDocument>
    decreases recs.len(),
{
    if recs.len() == 0 {
        m
    } else {
        let prev = restored(m, recs.drop_last(), now, window);
        match recs.last() {
            Some(p) => if is_restorable(p, now, window) {
                prev.insert(p.entry.document.source_path@, p.entry)
            } else {
                prev
            },
            None => prev,
        }
    }
}

/// Whether a record is present and restorable at `now`.
pub open spec fn record_restorable(r: Option<PersistedEntry>, now: i64, window: u64) -> bool {
    match r {
        Some(p) => is_restorable(p, now, window),
        None => false,
    }
}

/// Whether a record is present, restorable at `now`, and for source `k`.
pub open spec fn record_restores(r: Option<PersistedEntry>, k: Seq<char>, now: i64, window: u64) -> bool {
    match r {
        Some(p) => is_restorable(p, now, window) && p.entry.document.source_path@ == k,
        None => false,
    }
}

/// The source path of a present record.
pub open spec fn record_path(r: Option<PersistedEntry>) -> Seq<char> {
    r->Some_0.entry.document.source_path@
}

/// The entry of a present record.
pub open spec fn record_entry(r: Option<PersistedEntry>) -> CachedDocument {
    r->Some_0.entry
}

/// A persisted entry read back from disk, with the fingerprint that its
/// source file has now (`None` when the source no longer exists).
#[derive(Debug, Clone)]
pub struct PersistedEntry {
    pub entry: CachedDocument,
    pub current_hash: Option<String>,
}

proof fn lemma_min_index_range(keys: Seq<Seq<char>>, m: Map<Seq<char>, CachedDocument>)
    requires
        keys.len() > 0,
    ensures
        0 <= min_index(keys, m) < keys.len(),
    decreases keys.len(),
{
    if keys.len() > 1 {
        lemma_min_index_range(keys.drop_last(), m);
    }
}

proof fn lemma_min_index_frame(keys: Seq<Seq<char>>, m1: Map<Seq<char>, CachedDocument>, m2: Map<Seq<char>, CachedDocument>)
    requires
        forall|i: int| 0 <= i < keys.len() ==> m1[keys[i]].access_count == m2[keys[i]].access_count,
    ensures
        min_index(keys, m1) == min_index(keys, m2),
    decreases keys.len(),
{
    if keys.len() > 1 {
        lemma_min_index_frame(keys.drop_last(), m1, m2);
        lemma_min_index_range(keys.drop_last(), m1);
    }
}

/// Eviction frees what is needed unless it empties the cache.
proof fn lemma_eviction_frees(keys: Seq<Seq<char>>, m: Map<Seq<char>, CachedDocument>, need: int)
    ensures
        after_eviction(keys, m, need).len() == 0 || sum_sizes(after_eviction(keys, m, need), m) + need
            <= sum_sizes(keys, m),
    decreases keys.len(),
{
    let j = min_index(keys, m);
    if keys.len() > 0 {
        lemma_min_index_range(keys, m);
    }
    if need <= 0 || keys.len() == 0 || !(0 <= j < keys.len()) {
    } else {
        lemma_eviction_frees(keys.remove(j), m, need - m[keys[j]].size_bytes);
        lemma_sum_remove(keys, m, j);
        assert(after_eviction(keys, m, need) == after_eviction(keys.remove(j), m, need - m[keys[j]].size_bytes));
    }
}

proof fn lemma_total_fits(keys: Seq<Seq<char>>, m: Map<Seq<char>, CachedDocument>)
    requires
        keys.len() <= usize::MAX,
    ensures
        0 <= sum_sizes(keys, m),
        sum_sizes(keys, m) + usize::MAX <= u128::MAX,
{
    lemma_sum_bounds(keys, m);
    let n = keys.len() as int;
    let b = usize::MAX as int;
    assert(n * b <= b * b) by (nonlinear_arith)
        requires
            0 <= n <= b,
    ;
    assert(b * b + b <= u128::MAX) by (nonlinear_arith)
        requires
            0 <= b <= u64::MAX,
    ;
}

/// The default size budget: 500 MiB.
pub const DEFAULT_MAX_SIZE_BYTES: usize = 524288000;

/// The default freshness window: 24 hours.
pub const DEFAULT_EXPIRATION_SECS: u64 = 86400;

/// The entry that storing `document` with fingerprint `hash` at `now` makes.
pub open spec fn new_entry(document: Document, hash: String, now: i64) -> CachedDocument {
    CachedDocument { document, hash, cached_at: now, access_count: 1, size_bytes: estimated_size(document) as usize }
}

/// What storing `document` under `path` does to the cache `c0`, giving `c1`.
/// A document whose estimated size alone exceeds the budget is not cached,
/// and any entry left for its path is dropped. Otherwise, when the new size
/// would take the total over the budget, entries are evicted (least accessed
/// first, earliest first among equals) until that size is freed; then the
/// new entry replaces or follows the others.
pub open spec fn stored(c0: BuildCache, c1: BuildCache, path: Seq<char>, document: Document, hash: String, now: i64) -> bool {
    let size = estimated_size(document);
    &&& c1.hits() == c0.hits()
    &&& c1.misses() == c0.misses()
    &&& c1.budget() == c0.budget()
    &&& c1.window() == c0.window()
    &&& c1.dir() == c0.dir()
    &&& if size > c0.budget() {
        c1.entries() == c0.entries().remove(path)
    } else {
        let need = if c0.total_size() + size > c0.budget() { size as int } else { 0 };
        let kept = after_eviction(c0.keys(), c0.entries(), need);
        &&& (kept.contains(path) ==> c1.keys() == kept)
        &&& (!kept.contains(path) ==> c1.keys() == kept.push(path))
        &&& c1.entries() == c0.entries().restrict(kept.to_set()).insert(path, new_entry(document, hash, now))
    }
}

/// What looking `path` up with fingerprint `hash` at `now` does to the cache
/// `c0`, giving `c1` and the answer `r`.
pub open spec fn looked_up(
    c0: BuildCache,
    c1: BuildCache,
    path: Seq<char>,
    hash: Seq<char>,
    now: i64,
    r: Result<Document, BuildError>,
) -> bool {
    &&& c1.budget() == c0.budget()
    &&& c1.window() == c0.window()
    &&& c1.dir() == c0.dir()
    &&& is_hit(c0.entries(), path, hash, now, c0.window()) ==> {
        &&& r == Ok::<Document, BuildError>(c0.entries()[path].document)
        &&& c1.entries() == c0.entries().insert(
            path,
            (CachedDocument { access_count: bump(c0.entries()[path].access_count), ..c0.entries()[path] }),
        )
        &&& c1.keys() == c0.keys()
        &&& c1.hits() == bump(c0.hits())
        &&& c1.misses() == c0.misses()
    }
    &&& !is_hit(c0.entries(), path, hash, now, c0.window()) ==> {
        &&& (r matches Err(BuildError::Cache(msg)) && msg@ == miss_message())
        &&& c1.entries() == c0.entries().remove(path)
        &&& c1.hits() == c0.hits()
        &&& c1.misses() == bump(c0.misses())
    }
}

/// In-memory build cache. Entries keep the order in which their paths were
/// first inserted; that order breaks ties between equally accessed entries
/// when evicting.
pub struct BuildCache {
    cache_dir: String,
    documents: EntryStore,
    order: Vec<String>,
    hit_count: usize,
    miss_count: usize,
    max_size_bytes: usize,
    expiration_secs: u64,
    total_bytes: u128,
}

impl BuildCache {
    /// The cached entries, by source path.
    pub closed spec fn entries(&self) -> Map<Seq<char>, CachedDocument> {
        store_contents(self.documents)
    }

    /// The source paths of the entries, in insertion order.
    pub closed spec fn keys(&self) -> Seq<Seq<char>> {
        views(self.order@)
    }

    pub closed spec fn hits(&self) -> usize {
        self.hit_count
    }

    pub closed spec fn misses(&self) -> usize {
        self.miss_count
    }

    /// The size budget, in bytes.
    pub closed spec fn budget(&self) -> usize {
        self.max_size_bytes
    }

    /// The freshness window, in seconds.
    pub closed spec fn window(&self) -> u64 {
        self.expiration_secs
    }

    pub closed spec fn dir(&self) -> Seq<char> {
        self.cache_dir@
    }

    /// Total estimated size of the entries.
    pub open spec fn total_size(&self) -> int {
        sum_sizes(self.keys(), self.entries())
    }

    /// The entries are exactly those under `keys()`, listed once each, and
    /// the running total is their summed size.
    pub closed spec fn wf(&self) -> bool {
        &&& self.keys().no_duplicates()
        &&& forall|k: Seq<char>| #[trigger] self.entries().contains_key(k) <==> self.keys().contains(k)
        &&& self.total_bytes as int == self.total_size()
        &&& self.keys().len() <= usize::MAX
    }

    pub proof fn lemma_wf_keys(&self)
        requires
            self.wf(),
        ensures
            self.keys().no_duplicates(),
            forall|k: Seq<char>| #[trigger] self.entries().contains_key(k) <==> self.keys().contains(k),
    {
    }

    /// An empty cache over `cache_dir` with the given budget and window.
    pub fn with_limits(cache_dir: String, max_size_bytes: usize, expiration_secs: u64) -> (r: Self)
        ensures
            r.wf(),
            r.entries() == Map::<Seq<char>, CachedDocument>::empty(),
            r.keys() == Seq::<Seq<char>>::empty(),
            r.hits() == 0,
            r.misses() == 0,
            r.budget() == max_size_bytes,
            r.window() == expiration_secs,
            r.dir() == cache_dir@,
    {
        let r = BuildCache {
            cache_dir,
            documents: EntryStore::new(),
            order: Vec::new(),
            hit_count: 0,
            miss_count: 0,
            max_size_bytes,
            expiration_secs,
            total_bytes: 0,
        };
        assert(r.keys() =~= Seq::<Seq<char>>::empty());
        r
    }

    /// An empty cache over `cache_dir` with a 500 MiB budget and a 24 hour window.
    pub fn new(cache_dir: String) -> (r: Self)
        ensures
            r.wf(),
            r.entries() == Map::<Seq<char>, CachedDocument>::empty(),
            r.keys() == Seq::<Seq<char>>::empty(),
            r.hits() == 0,
            r.misses() == 0,
            r.budget() == DEFAULT_MAX_SIZE_BYTES,
            r.window() == DEFAULT_EXPIRATION_SECS,
            r.dir() == cache_dir@,
    {
        Self::with_limits(cache_dir, DEFAULT_MAX_SIZE_BYTES, DEFAULT_EXPIRATION_SECS)
    }

    pub fn cache_dir(&self) -> (r: &str)
        ensures
            r@ == self.dir(),
    {
        self.cache_dir.as_str()
    }

    pub fn hit_count(&self) -> (r: usize)
        ensures
            r == self.hits(),
    {
        self.hit_count
    }

    pub fn miss_count(&self) -> (r: usize)
        ensures
            r == self.misses(),
    {
        self.miss_count
    }

    pub fn max_size_bytes(&self) -> (r: usize)
        ensures
            r == self.budget(),
    {
        self.max_size_bytes
    }

    /// Total estimated size of the entries, in bytes.
    pub fn size_bytes(&self) -> (r: u128)
        requires
            self.wf(),
        ensures
            r == self.total_size(),
    {
        self.total_bytes
    }

    /// Number of entries.
    pub fn len(&self) -> (r: usize)
        requires
            self.wf(),
        ensures
            r == self.keys().len(),
            r == self.entries().len(),
    {
        proof {
            self.lemma_entries_len();
        }
        self.order.len()
    }

    proof fn lemma_entries_len(&self)
        requires
            self.wf(),
        ensures
            self.entries().len() == self.keys().len(),
    {
        self.keys().unique_seq_to_set();
        assert(self.entries().dom() =~= self.keys().to_set());
    }

    /// A copy of the entry of `file_path`, for persisting it.
    pub fn entry(&self, file_path: &str) -> (r: Option<CachedDocument>)
        ensures
            r == self.entries().get(file_path@),
    {
        self.documents.get(file_path)
    }

    /// Position of `k` among the keys.
    fn position_of(&self, k: &str) -> (r: Option<usize>)
        ensures
            r matches Some(i) ==> i < self.keys().len() && self.keys()[i as int] == k@,
            r.is_none() ==> !self.keys().contains(k@),
    {
        let mut i: usize = 0;
        while i < self.order.len()
            invariant
                i <= self.order@.len(),
                forall|j: int| 0 <= j < i ==> self.order@[j]@ != k@,
            decreases self.order@.len() - i,
        {
            if str_eq(self.order[i].as_str(), k) {
                return Some(i);
            }
            i += 1;
        }
        assert(!self.keys().contains(k@)) by {
            if self.keys().contains(k@) {
                let j = choose|j: int| 0 <= j < self.keys().len() && self.keys()[j] == k@;
                assert(self.order@[j]@ == k@);
            }
        }
        None
    }

    /// Removes the entry under `k`, if any, keeping the rest in order.
    fn remove_entry(&mut self, k: &str)
        requires
            old(self).wf(),
        ensures
            final(self).wf(),
            final(self).entries() == old(self).entries().remove(k@),
            old(self).keys().contains(k@) ==> exists|j: int| 0 <= j < old(self).keys().len()
                && old(self).keys()[j] == k@ && final(self).keys() == old(self).keys().remove(j),
            !old(self).keys().contains(k@) ==> final(self).keys() == old(self).keys(),
            final(self).total_size() <= old(self).total_size(),
            final(self).hits() == old(self).hits(),
            final(self).misses() == old(self).misses(),
            final(self).budget() == old(self).budget(),
            final(self).window() == old(self).window(),
            final(self).dir() == old(self).dir(),
    {
        match self.position_of(k) {
            Some(j) => {
                let ghost keys0 = self.keys();
                let ghost m0 = self.entries();
                let (_, size) = match self.documents.stats(k) {
                    Some(s) => s,
                    None => {
                        assert(false);
                        (0, 0)
                    },
                };
                proof {
                    lemma_sum_remove(keys0, m0, j as int);
                    lemma_sum_bounds(keys0, m0);
                    lemma_sum_bounds(keys0.remove(j as int), m0);
                }
                self.order.remove(j);
                self.documents.remove(k);
                self.total_bytes = self.total_bytes - size as u128;
                proof {
                    assert(self.keys() =~= keys0.remove(j as int));
                    let ks = self.keys();
                    assert forall|i: int| 0 <= i < ks.len() implies self.entries()[ks[i]].size_bytes
                        == m0[ks[i]].size_bytes by {
                        assert(ks[i] != k@) by {
                            if i < j {
                                assert(ks[i] == keys0[i]);
                            } else {
                                assert(ks[i] == keys0[i + 1]);
                            }
                        }
                    }
                    lemma_sum_frame(ks, self.entries(), m0);
                    assert forall|x: Seq<char>| #[trigger] self.entries().contains_key(x) <==> self.keys().contains(x) by {
                        if self.keys().contains(x) {
                            let i = choose|i: int| 0 <= i < ks.len() && ks[i] == x;
                            if i < j {
                                assert(keys0[i] == x);
                            } else {
                                assert(keys0[i + 1] == x);
                            }
                            assert(keys0.contains(x));
                            assert(x != k@);
                        }
                        if self.entries().contains_key(x) {
                            assert(keys0.contains(x));
                            let i = choose|i: int| 0 <= i < keys0.len() && keys0[i] == x;
                            assert(i != j);
                            if i < j {
                                assert(ks[i] == x);
                            } else {
                                assert(ks[i - 1] == x);
                            }
                        }
                    }
                }
            },
            None => {
                proof {
                    assert(!self.entries().contains_key(k@));
                    assert(self.entries().remove(k@) =~= self.entries());
                }
                self.documents.remove(k);
            },
        }
    }

    /// Stores `e` under `key`: in place when the key is present, else last.
    fn put_entry(&mut self, key: String, e: CachedDocument)
        requires
            old(self).wf(),
        ensures
            final(self).wf(),
            final(self).entries() == old(self).entries().insert(key@, e),
            old(self).keys().contains(key@) ==> final(self).keys() == old(self).keys(),
            !old(self).keys().contains(key@) ==> final(self).keys() == old(self).keys().push(key@),
            final(self).hits() == old(self).hits(),
            final(self).misses() == old(self).misses(),
            final(self).budget() == old(self).budget(),
            final(self).window() == old(self).window(),
            final(self).dir() == old(self).dir(),
    {
        let ghost keys0 = self.keys();
        let ghost m0 = self.entries();
        let size = e.size_bytes;
        match self.position_of(key.as_str()) {
            Some(j) => {
                let old_size = match self.documents.stats(key.as_str()) {
                    Some(s) => s.1,
                    None => {
                        assert(false);
                        0
                    },
                };
                proof {
                    lemma_sum_replace(keys0, m0, j as int, e);
                    lemma_sum_remove(keys0, m0, j as int);
                    lemma_sum_bounds(keys0.remove(j as int), m0);
                    lemma_total_fits(keys0, m0.insert(key@, e));
                }
                self.documents.insert(key, e);
                self.total_bytes = self.total_bytes - old_size as u128 + size as u128;
                proof {
                    assert forall|x: Seq<char>| #[trigger] self.entries().contains_key(x) <==> self.keys().contains(x) by {
                        if x == keys0[j as int] {
                            assert(self.keys().contains(x));
                        }
                    }
                }
            },
            None => {
                let ghost kv = key@;
                proof {
                    lemma_sum_push(keys0, m0, kv, e);
                }
                self.documents.insert(key.clone(), e);
                self.order.push(key);
                let count = self.order.len();
                proof {
                    assert(self.keys() =~= keys0.push(kv));
                    assert(count as int == self.keys().len());
                    lemma_total_fits(self.keys(), self.entries());
                    assert forall|x: Seq<char>| #[trigger] self.entries().contains_key(x) <==> self.keys().contains(x) by {
                        if x == kv {
                            assert(self.keys()[keys0.len() as int] == kv);
                        } else {
                            if self.keys().contains(x) {
                                let i = choose|i: int| 0 <= i < self.keys().len() && self.keys()[i] == x;
                                assert(i < keys0.len());
                                assert(keys0[i] == x);
                                assert(keys0.contains(x));
                            }
                            if keys0.contains(x) {
                                let i = choose|i: int| 0 <= i < keys0.len() && keys0[i] == x;
                                assert(self.keys()[i] == x);
                            }
                            assert(self.entries().contains_key(x) == m0.contains_key(x));
                        }
                    }
                    assert(self.keys().no_duplicates()) by {
                        assert forall|a: int, b: int| 0 <= a < b < self.keys().len() implies self.keys()[a]
                            != self.keys()[b] by {
                            if b == keys0.len() {
                                assert(keys0[a] != kv) by {
                                    assert(keys0.contains(keys0[a]));
                                }
                            }
                        }
                    }
                }
                self.total_bytes = self.total_bytes + size as u128;
            },
        }
    }

    /// First position of a least-accessed entry.
    fn least_accessed(&self) -> (r: usize)
        requires
            self.wf(),
            self.keys().len() > 0,
        ensures
            r == min_index(self.keys(), self.entries()),
            r < self.keys().len(),
    {
        let ghost keys = self.keys();
        let ghost m = self.entries();
        let mut best: usize = 0;
        let mut best_count: usize = match self.documents.stats(self.order[0].as_str()) {
            Some(s) => s.0,
            None => {
                assert(keys.contains(keys[0]));
                assert(false);
                0
            },
        };
        let mut i: usize = 1;
        assert(keys.take(1).len() == 1);
        while i < self.order.len()
            invariant
                self.wf(),
                keys == self.keys(),
                m == self.entries(),
                1 <= i <= keys.len(),
                best < i,
                best == min_index(keys.take(i as int), m),
                best_count == m[keys[best as int]].access_count,
            decreases keys.len() - i,
        {
            let count = match self.documents.stats(self.order[i].as_str()) {
                Some(s) => s.0,
                None => {
                    assert(keys.contains(keys[i as int]));
                    assert(false);
                    0
                },
            };
            proof {
                let tk = keys.take(i + 1);
                assert(tk.drop_last() =~= keys.take(i as int));
                assert(tk.last() == keys[i as int]);
                assert(tk[best as int] == keys[best as int]);
            }
            if count < best_count {
                best = i;
                best_count = count;
            }
            i += 1;
        }
        assert(keys.take(keys.len() as int) =~= keys);
        best
    }

    /// Evicts entries, least accessed first and earliest first among equals,
    /// until `need` bytes are freed or the cache is empty.
    fn evict_lru_entries(&mut self, need: usize)
        requires
            old(self).wf(),
        ensures
            final(self).wf(),
            final(self).keys() == after_eviction(old(self).keys(), old(self).entries(), need as int),
            final(self).entries() == old(self).entries().restrict(final(self).keys().to_set()),
            final(self).hits() == old(self).hits(),
            final(self).misses() == old(self).misses(),
            final(self).budget() == old(self).budget(),
            final(self).window() == old(self).window(),
            final(self).dir() == old(self).dir(),
    {
        let ghost keys0 = self.keys();
        let ghost m0 = self.entries();
        let ghost c0 = *self;
        let mut freed: u128 = 0;
        assert(self.entries() =~= m0.restrict(keys0.to_set()));
        while freed < need as u128 && self.order.len() > 0
            invariant
                self.wf(),
                freed <= need as u128 + usize::MAX as u128,
                after_eviction(self.keys(), m0, need - freed) == after_eviction(keys0, m0, need as int),
                self.entries() == m0.restrict(self.keys().to_set()),
                self.hits() == c0.hits(),
                self.misses() == c0.misses(),
                self.budget() == c0.budget(),
                self.window() == c0.window(),
                self.dir() == c0.dir(),
            decreases self.order@.len(),
        {
            let ghost ks = self.keys();
            let ghost m = self.entries();
            let j = self.least_accessed();
            proof {
                assert forall|i: int| 0 <= i < ks.len() implies m[ks[i]].access_count == m0[ks[i]].access_count by {
                    assert(ks.contains(ks[i]));
                    assert(ks.to_set().contains(ks[i]));
                }
                lemma_min_index_frame(ks, m, m0);
                assert(ks.contains(ks[j as int]));
                assert(ks.to_set().contains(ks[j as int]));
            }
            let k = self.order[j].clone();
            let size = match self.documents.stats(k.as_str()) {
                Some(s) => s.1,
                None => {
                    assert(false);
                    0
                },
            };
            self.remove_entry(k.as_str());
            proof {
                let ks2 = self.keys();
                let jj = choose|jj: int| 0 <= jj < ks.len() && ks[jj] == k@ && ks2 == ks.remove(jj);
                assert(ks.no_duplicates());
                assert(jj == j);
                assert forall|x: Seq<char>| ks2.contains(x) <==> ks.contains(x) && x != k@ by {
                    assert(self.entries().contains_key(x) <==> ks2.contains(x));
                }
                assert(self.entries() =~= m0.restrict(ks2.to_set()));
            }
            freed = freed + size as u128;
        }
    }

    /// Looks `file_path` up at time `now`, given the fingerprint that its
    /// source has now. A fresh entry with that fingerprint is a hit: its
    /// access count and the hit count go up by one and its document is
    /// returned. Anything else is a miss: the miss count goes up by one and a
    /// stale entry is dropped.
    pub fn get_document_at(&mut self, file_path: &str, current_hash: &str, now: i64) -> (r: Result<Document, BuildError>)
        requires
            old(self).wf(),
        ensures
            final(self).wf(),
            looked_up(*old(self), *final(self), file_path@, current_hash@, now, r),
    {
        match self.documents.get(file_path) {
            Some(cached) => {
                if str_eq(cached.hash.as_str(), current_hash) && !expired(cached.cached_at, now, self.expiration_secs) {
                    let ghost keys0 = self.keys();
                    let ghost m0 = self.entries();
                    let count = if cached.access_count < usize::MAX {
                        cached.access_count + 1
                    } else {
                        cached.access_count
                    };
                    self.documents.set_access_count(file_path, count);
                    proof {
                        assert forall|i: int| 0 <= i < keys0.len() implies self.entries()[keys0[i]].size_bytes
                            == m0[keys0[i]].size_bytes by {}
                        lemma_sum_frame(keys0, self.entries(), m0);
                        assert forall|x: Seq<char>| #[trigger] self.entries().contains_key(x) <==> self.keys().contains(x) by {
                            if x == file_path@ {
                                assert(m0.contains_key(x));
                            }
                        }
                    }
                    if self.hit_count < usize::MAX {
                        self.hit_count = self.hit_count + 1;
                    }
                    return Ok(cached.document);
                }
                self.remove_entry(file_path);
            },
            None => {
                proof {
                    assert(self.entries().remove(file_path@) =~= self.entries());
                }
            },
        }
        if self.miss_count < usize::MAX {
            self.miss_count = self.miss_count + 1;
        }
        Err(BuildError::Cache(String::from_str("Document not found in cache")))
    }

    /// Looks `file_path` up now. Exactly one of the hit and miss counts goes
    /// up by one; a document is returned only from an entry that holds this
    /// fingerprint.
    pub fn get_document(&mut self, file_path: &str, current_hash: &str) -> (r: Result<Document, BuildError>)
        requires
            old(self).wf(),
        ensures
            final(self).wf(),
            final(self).budget() == old(self).budget(),
            final(self).window() == old(self).window(),
            r is Ok ==> {
                &&& old(self).entries().contains_key(file_path@)
                &&& old(self).entries()[file_path@].hash@ == current_hash@
                &&& r == Ok::<Document, BuildError>(old(self).entries()[file_path@].document)
                &&& final(self).hits() == bump(old(self).hits())
                &&& final(self).misses() == old(self).misses()
            },
            r is Err ==> {
                &&& final(self).hits() == old(self).hits()
                &&& final(self).misses() == bump(old(self).misses())
                &&& !final(self).entries().contains_key(file_path@)
            },
            !old(self).entries().contains_key(file_path@) || old(self).entries()[file_path@].hash@ != current_hash@
                ==> r is Err,
            exists|now: i64| looked_up(*old(self), *final(self), file_path@, current_hash@, now, r),
    {
        let now = now_secs();
        self.get_document_at(file_path, current_hash, now)
    }

    /// Stores `document` under `file_path` with fingerprint `hash` at time
    /// `now`, access count one. When the estimated size would take the total
    /// over the budget, entries are first evicted until that size is freed.
    pub fn store_document_at(&mut self, file_path: &str, document: Document, hash: String, now: i64)
        requires
            old(self).wf(),
        ensures
            final(self).wf(),
            stored(*old(self), *final(self), file_path@, document, hash, now),
            old(self).total_size() <= old(self).budget() ==> final(self).total_size() <= final(self).budget(),
    {
        let ghost keys0 = self.keys();
        let ghost m0 = self.entries();
        let size = estimate_document_size(&document);
        if size > self.max_size_bytes {
            self.remove_entry(file_path);
            return;
        }
        proof {
            lemma_total_fits(keys0, m0);
        }
        let over = self.total_bytes + size as u128 > self.max_size_bytes as u128;
        let need: usize = if over { size } else { 0 };
        self.evict_lru_entries(need);
        let ghost keys1 = self.keys();
        let ghost m1 = self.entries();
        proof {
            lemma_eviction_frees(keys0, m0, need as int);
            assert forall|i: int| 0 <= i < keys1.len() implies m1[keys1[i]].size_bytes == m0[keys1[i]].size_bytes by {
                assert(keys1.contains(keys1[i]));
                assert(keys1.to_set().contains(keys1[i]));
                assert(m1.contains_key(keys1[i]));
            }
            lemma_sum_frame(keys1, m1, m0);
        }
        let entry = CachedDocument { document, hash, cached_at: now, access_count: 1, size_bytes: size };
        let key = String::from_str(file_path);
        self.put_entry(key, entry);
        proof {
            let p = file_path@;
            if keys1.contains(p) {
                let j = choose|j: int| 0 <= j < keys1.len() && keys1[j] == p;
                lemma_sum_replace(keys1, m1, j, entry);
                assert(m1.contains_key(p));
            } else {
                lemma_sum_push(keys1, m1, p, entry);
            }
        }
    }

    /// Stores `document` under `file_path` with fingerprint `hash`, stamped now.
    pub fn store_document(&mut self, file_path: &str, document: Document, hash: String)
        requires
            old(self).wf(),
        ensures
            final(self).wf(),
            exists|now: i64| stored(*old(self), *final(self), file_path@, document, hash, now),
            old(self).total_size() <= old(self).budget() ==> final(self).total_size() <= final(self).budget(),
            estimated_size(document) <= old(self).budget() ==> final(self).entries().contains_key(file_path@)
                && final(self).entries()[file_path@].document == document
                && final(self).entries()[file_path@].hash == hash
                && final(self).entries()[file_path@].access_count == 1,
            estimated_size(document) > old(self).budget() ==> !final(self).entries().contains_key(file_path@),
    {
        let now = now_secs();
        self.store_document_at(file_path, document, hash, now);
    }

    /// Drops the entry of `file_path`, if any.
    pub fn invalidate(&mut self, file_path: &str)
        requires
            old(self).wf(),
        ensures
            final(self).wf(),
            final(self).entries() == old(self).entries().remove(file_path@),
            final(self).hits() == old(self).hits(),
            final(self).misses() == old(self).misses(),
            final(self).budget() == old(self).budget(),
            final(self).window() == old(self).window(),
            final(self).dir() == old(self).dir(),
    {
        self.remove_entry(file_path);
    }

    /// Drops every entry and resets both counts.
    pub fn clear(&mut self)
        requires
            old(self).wf(),
        ensures
            final(self).wf(),
            final(self).entries() == no_entries(),
            final(self).keys().len() == 0,
            final(self).hits() == 0,
            final(self).misses() == 0,
            final(self).budget() == old(self).budget(),
            final(self).window() == old(self).window(),
            final(self).dir() == old(self).dir(),
    {
        self.documents.clear();
        self.order.clear();
        self.hit_count = 0;
        self.miss_count = 0;
        self.total_bytes = 0;
        assert(self.keys() =~= Seq::<Seq<char>>::empty());
    }

    /// Restores persisted entries in order, at time `now`: an entry is kept
    /// when it is fresh and its source still has the recorded fingerprint; a
    /// later entry for the same source replaces an earlier one. `None`
    /// stands for a persisted file that could not be read or parsed and is
    /// skipped. Restoring does not evict.
    pub fn load_entries_at(&mut self, records: Vec<Option<PersistedEntry>>, now: i64)
        requires
            old(self).wf(),
        ensures
            final(self).wf(),
            final(self).entries() == restored(old(self).entries(), records@, now, old(self).window()),
            final(self).hits() == old(self).hits(),
            final(self).misses() == old(self).misses(),
            final(self).budget() == old(self).budget(),
            final(self).window() == old(self).window(),
            final(self).dir() == old(self).dir(),
    {
        let ghost all = records@;
        let ghost c0 = *self;
        let mut rest = records;
        let mut i: usize = 0;
        let n = rest.len();
        assert(all.take(0) =~= Seq::<Option<PersistedEntry>>::empty());
        assert(rest@ =~= all.subrange(0, n as int));
        while rest.len() > 0
            invariant
                self.wf(),
                n == all.len(),
                i <= n,
                rest@ == all.subrange(i as int, n as int),
                self.entries() == restored(c0.entries(), all.take(i as int), now, c0.window()),
                self.hits() == c0.hits(),
                self.misses() == c0.misses(),
                self.budget() == c0.budget(),
                self.window() == c0.window(),
                self.dir() == c0.dir(),
            decreases rest@.len(),
        {
            let rec = rest.remove(0);
            proof {
                let tk = all.take(i + 1);
                assert(tk.drop_last() =~= all.take(i as int));
                assert(tk.last() == rec);
                assert(rest@ =~= all.subrange(i + 1, n as int));
            }
            match rec {
                Some(p) => {
                    let fresh = !expired(p.entry.cached_at, now, self.expiration_secs);
                    let same = match &p.current_hash {
                        Some(h) => str_eq(h.as_str(), p.entry.hash.as_str()),
                        None => false,
                    };
                    if fresh && same {
                        let key = p.entry.document.source_path.clone();
                        self.put_entry(key, p.entry);
                    }
                },
                None => {},
            }
            i += 1;
        }
        assert(all.take(n as int) =~= all);
    }

    /// Restores persisted entries as `load_entries_at` does, at the current time.
    pub fn load_entries(&mut self, records: Vec<Option<PersistedEntry>>)
        requires
            old(self).wf(),
        ensures
            final(self).wf(),
            exists|now: i64| final(self).entries() == restored(old(self).entries(), records@, now, old(self).window()),
            final(self).hits() == old(self).hits(),
            final(self).misses() == old(self).misses(),
            final(self).budget() == old(self).budget(),
            final(self).window() == old(self).window(),
    {
        let now = now_secs();
        self.load_entries_at(records, now);
    }
}

/// An empty cache is within any budget.
pub proof fn lemma_empty_within_budget(c: BuildCache)
    requires
        c.keys().len() == 0,
    ensures
        c.total_size() == 0,
        c.total_size() <= c.budget(),
{
}

/// Storing a document and then looking its path up at the same time with
/// the same fingerprint serves that document and counts one hit. A document
/// too large for the budget on its own is never cached, so it is left out.
pub proof fn lemma_lookup_after_store(
    c0: BuildCache,
    c1: BuildCache,
    c2: BuildCache,
    path: Seq<char>,
    document: Document,
    hash: String,
    now: i64,
    r: Result<Document, BuildError>,
)
    requires
        estimated_size(document) <= c0.budget(),
        stored(c0, c1, path, document, hash, now),
        looked_up(c1, c2, path, hash@, now, r),
    ensures
        r == Ok::<Document, BuildError>(document),
        c2.hits() == bump(c1.hits()),
        c2.misses() == c1.misses(),
{
    assert(c1.entries().contains_key(path));
    assert(is_hit(c1.entries(), path, hash@, now, c1.window()));
}

/// After a store, a lookup of the same path with a different fingerprint (the
/// source changed) is a miss: it counts one miss and drops the entry.
pub proof fn lemma_changed_fingerprint_misses(
    c0: BuildCache,
    c1: BuildCache,
    c2: BuildCache,
    path: Seq<char>,
    document: Document,
    hash: String,
    now: i64,
    changed: Seq<char>,
    later: i64,
    r: Result<Document, BuildError>,
)
    requires
        stored(c0, c1, path, document, hash, now),
        changed != hash@,
        looked_up(c1, c2, path, changed, later, r),
    ensures
        r is Err,
        c2.misses() == bump(c1.misses()),
        c2.hits() == c1.hits(),
        !c2.entries().contains_key(path),
{
    if estimated_size(document) <= c0.budget() {
        assert(c1.entries()[path].hash@ == hash@);
    }
}

/// A path holds an entry after restoring exactly when it held one before or
/// some restorable record names it.
pub proof fn lemma_restored_keys(
    m: Map<Seq<char>, CachedDocument>,
    recs: Seq<Option<PersistedEntry>>,
    now: i64,
    window: u64,
    k: Seq<char>,
)
    ensures
        restored(m, recs, now, window).contains_key(k) <==> (m.contains_key(k) || exists|i: int|
            0 <= i < recs.len() && record_restores(#[trigger] recs[i], k, now, window)),
    decreases recs.len(),
{
    if recs.len() > 0 {
        let d = recs.drop_last();
        lemma_restored_keys(m, d, now, window, k);
        let n = recs.len() - 1;
        if exists|i: int| 0 <= i < d.len() && record_restores(#[trigger] d[i], k, now, window) {
            let i = choose|i: int| 0 <= i < d.len() && record_restores(#[trigger] d[i], k, now, window);
            assert(recs[i] == d[i]);
        }
        if exists|i: int| 0 <= i < recs.len() && record_restores(#[trigger] recs[i], k, now, window) {
            let i = choose|i: int| 0 <= i < recs.len() && record_restores(#[trigger] recs[i], k, now, window);
            if i < n {
                assert(d[i] == recs[i]);
            }
        }
    }
}

/// Round trip through disk: restoring into an empty cache the records of
/// entries whose sources are unchanged, one record per source, gives back
/// every one of those entries and nothing else.
pub proof fn lemma_round_trip(recs: Seq<Option<PersistedEntry>>, now: i64, window: u64)
    requires
        forall|i: int| 0 <= i < recs.len() ==> record_restorable(#[trigger] recs[i], now, window),
        forall|i: int, j: int| 0 <= i < j < recs.len() ==> record_path(#[trigger] recs[i]) != record_path(#[trigger] recs[j]),
    ensures
        forall|i: int| 0 <= i < recs.len() ==> restored(no_entries(), recs, now, window).contains_key(
            record_path(#[trigger] recs[i]),
        ) && restored(no_entries(), recs, now, window)[record_path(recs[i])] == record_entry(recs[i]),
        forall|k: Seq<char>| #[trigger] restored(no_entries(), recs, now, window).contains_key(k) ==> exists|i: int|
            0 <= i < recs.len() && record_path(recs[i]) == k,
    decreases recs.len(),
{
    if recs.len() > 0 {
        let d = recs.drop_last();
        assert forall|i: int| 0 <= i < d.len() implies record_restorable(#[trigger] d[i], now, window) by {
            assert(d[i] == recs[i]);
        }
        assert forall|i: int, j: int| 0 <= i < j < d.len() implies record_path(#[trigger] d[i]) != record_path(#[trigger] d[j]) by {
            assert(d[i] == recs[i]);
            assert(d[j] == recs[j]);
        }
        lemma_round_trip(d, now, window);
        let n = recs.len() - 1;
        assert(record_restorable(recs[n], now, window));
        assert forall|i: int| 0 <= i < recs.len() implies restored(no_entries(), recs, now, window).contains_key(
            record_path(#[trigger] recs[i]),
        ) && restored(no_entries(), recs, now, window)[record_path(recs[i])] == record_entry(recs[i]) by {
            if i < n {
                assert(d[i] == recs[i]);
                assert(record_path(recs[i]) != record_path(recs[n]));
            }
        }
        assert forall|k: Seq<char>| #[trigger] restored(no_entries(), recs, now, window).contains_key(k) implies exists|i: int|
            0 <= i < recs.len() && record_path(recs[i]) == k by {
            if k != record_path(recs[n]) {
                assert(restored(no_entries(), d, now, window).contains_key(k));
                let i = choose|i: int| 0 <= i < d.len() && record_path(d[i]) == k;
                assert(recs[i] == d[i]);
            }
        }
    }
}

/// A corrupt persisted file changes nothing: restoring with it gives what
/// restoring without it gives.
pub proof fn lemma_corrupt_entry_skipped(
    m: Map<Seq<char>, CachedDocument>,
    recs: Seq<Option<PersistedEntry>>,
    i: int,
    now: i64,
    window: u64,
)
    requires
        0 <= i < recs.len(),
        recs[i].is_none(),
    ensures
        restored(m, recs, now, window) == restored(m, recs.remove(i), now, window),
    decreases recs.len(),
{
    if i == recs.len() - 1 {
        assert(recs.remove(i) =~= recs.drop_last());
    } else {
        lemma_corrupt_entry_skipped(m, recs.drop_last(), i, now, window);
        assert(recs.remove(i).drop_last() =~= recs.drop_last().remove(i));
        assert(recs.remove(i).last() == recs.last());
    }
}

} // verus!
