//! Model downloads: the cache of downloaded models, request validation and
//! progress throttling.
use vstd::prelude::*;

use crate::error::{text, MinervaError, MinervaResult};
use crate::time::{elapsed_nanos, Instant};
use crate::util::str_eq;

verus! {

/// A downloaded model.
#[derive(Debug)]
pub struct CacheEntry {
    /// Model identifier
    pub model_id: String,
    /// Where the files are
    pub path: String,
    /// Revision downloaded
    pub revision: String,
    /// Size in bytes
    pub size_bytes: u64,
    /// Number of files
    pub file_count: usize,
    /// When it was downloaded
    pub downloaded_at: u64,
    /// When it was last used
    pub last_accessed: u64,
}

/// Index of the first entry for `model_id`, if any.
pub open spec fn first_entry(entries: Seq<CacheEntry>, model_id: Seq<char>) -> Option<int>
    decreases entries.len(),
{
    if entries.len() == 0 {
        None
    } else if entries[0].model_id@ == model_id {
        Some(0)
    } else {
        match first_entry(entries.skip(1), model_id) {
            Some(i) => Some(i + 1),
            None => None,
        }
    }
}

/// The entries that are not for `model_id`, in order.
pub open spec fn without_model(entries: Seq<CacheEntry>, model_id: Seq<char>) -> Seq<CacheEntry> {
    entries.filter(other_model(model_id))
}

/// Whether an entry is for a model other than `model_id`.
pub open spec fn other_model(model_id: Seq<char>) -> spec_fn(CacheEntry) -> bool {
    |e: CacheEntry| e.model_id@ != model_id
}

/// Total size of the entries.
pub open spec fn entries_size(entries: Seq<CacheEntry>) -> int
    decreases entries.len(),
{
    if entries.len() == 0 {
        0
    } else {
        entries_size(entries.drop_last()) + entries.last().size_bytes
    }
}

proof fn lemma_first_entry_found(entries: Seq<CacheEntry>, model_id: Seq<char>, k: int)
    requires
        0 <= k < entries.len(),
        entries[k].model_id@ == model_id,
        forall|j: int| 0 <= j < k ==> entries[j].model_id@ != model_id,
    ensures
        first_entry(entries, model_id) == Some(k),
    decreases k,
{
    if k > 0 {
        lemma_first_entry_found(entries.skip(1), model_id, k - 1);
    }
}

proof fn lemma_first_entry_none(entries: Seq<CacheEntry>, model_id: Seq<char>)
    requires
        forall|j: int| 0 <= j < entries.len() ==> entries[j].model_id@ != model_id,
    ensures
        first_entry(entries, model_id) is None,
    decreases entries.len(),
{
    if entries.len() > 0 {
        lemma_first_entry_none(entries.skip(1), model_id);
    }
}

proof fn lemma_entries_size_prefix(entries: Seq<CacheEntry>, n: int)
    requires
        0 <= n <= entries.len(),
    ensures
        entries_size(entries.subrange(0, n)) <= entries_size(entries),
    decreases entries.len() - n,
{
    if n < entries.len() {
        lemma_entries_size_prefix(entries, n + 1);
        assert(entries.subrange(0, n + 1).drop_last() =~= entries.subrange(0, n));
    } else {
        assert(entries.subrange(0, n) =~= entries);
    }
}

/// The downloaded models, oldest first.
#[derive(Debug)]
pub struct DownloadCache {
    entries: Vec<CacheEntry>,
}

impl DownloadCache {
    /// Entries, oldest first.
    pub closed spec fn spec_entries(&self) -> Seq<CacheEntry> {
        self.entries@
    }

    /// Empty cache.
    pub fn new() -> (r: Self)
        ensures
            r.spec_entries().len() == 0,
    {
        DownloadCache { entries: Vec::new() }
    }

    /// Records a download.
    pub fn add(&mut self, entry: CacheEntry)
        ensures
            final(self).spec_entries() == old(self).spec_entries().push(entry),
    {
        self.entries.push(entry);
    }

    /// The first entry for `model_id`.
    pub fn get(&self, model_id: &str) -> (r: Option<&CacheEntry>)
        ensures
            match first_entry(self.spec_entries(), model_id@) {
                Some(i) => r == Some(&self.spec_entries()[i]),
                None => r is None,
            },
    {
        let mut i: usize = 0;
        while i < self.entries.len()
            invariant
                i <= self.entries@.len(),
                forall|j: int| 0 <= j < i ==> self.entries@[j].model_id@ != model_id@,
            decreases self.entries@.len() - i,
        {
            if str_eq(self.entries[i].model_id.as_str(), model_id) {
                proof {
                    lemma_first_entry_found(self.entries@, model_id@, i as int);
                }
                return Some(&self.entries[i]);
            }
            i = i + 1;
        }
        proof {
            lemma_first_entry_none(self.entries@, model_id@);
        }
        None
    }

    /// All entries, oldest first.
    pub fn list(&self) -> (r: &[CacheEntry])
        ensures
            r@ == self.spec_entries(),
    {
        self.entries.as_slice()
    }

    /// Forgets every entry for `model_id`.
    pub fn remove(&mut self, model_id: &str)
        ensures
            final(self).spec_entries() == without_model(old(self).spec_entries(), model_id@),
    {
        let mut rest: Vec<CacheEntry> = Vec::new();
        std::mem::swap(&mut rest, &mut self.entries);
        let mut kept: Vec<CacheEntry> = Vec::new();
        let ghost all = rest@;
        let n0 = rest.len();
        assert(all.len() == n0);
        let mut taken: usize = 0;
        let mut reversed: Vec<CacheEntry> = Vec::new();
        while rest.len() > 0
            invariant
                all.len() <= usize::MAX,
                reversed@.len() + rest@.len() == all.len(),
                rest@ == all.subrange(0, rest@.len() as int),
                forall|j: int| 0 <= j < reversed@.len() ==> #[trigger] reversed@[j] == all[all.len() - 1 - j],
            decreases rest@.len(),
        {
            let e = rest.pop().unwrap();
            reversed.push(e);
            proof {
                assert(rest@ =~= all.subrange(0, rest@.len() as int));
            }
        }
        proof {
            assert(kept@ =~= without_model(all.subrange(0, 0), model_id@));
        }
        while reversed.len() > 0
            invariant
                all.len() <= usize::MAX,
                taken + reversed@.len() == all.len(),
                forall|j: int| 0 <= j < reversed@.len() ==> #[trigger] reversed@[j] == all[all.len() - 1 - j],
                kept@ == without_model(all.subrange(0, taken as int), model_id@),
            decreases reversed@.len(),
        {
            let e = reversed.pop().unwrap();
            proof {
                assert(e == all[taken as int]);
                assert(all.subrange(0, taken + 1).drop_last() =~= all.subrange(0, taken as int));
                reveal_with_fuel(Seq::filter, 1);
            }
            if !str_eq(e.model_id.as_str(), model_id) {
                kept.push(e);
            }
            taken = taken + 1;
        }
        proof {
            assert(all.subrange(0, taken as int) =~= all);
        }
        self.entries = kept;
    }

    /// Total size of the cached models.
    pub fn total_size(&self) -> (r: u64)
        requires
            entries_size(self.spec_entries()) <= u64::MAX,
        ensures
            r == entries_size(self.spec_entries()),
    {
        let mut acc: u64 = 0;
        let mut i: usize = 0;
        while i < self.entries.len()
            invariant
                i <= self.entries@.len(),
                acc == entries_size(self.entries@.subrange(0, i as int)),
                entries_size(self.entries@) <= u64::MAX,
            decreases self.entries@.len() - i,
        {
            proof {
                assert(self.entries@.subrange(0, i + 1).drop_last() =~= self.entries@.subrange(0, i as int));
                lemma_entries_size_prefix(self.entries@, i + 1);
            }
            acc = acc + self.entries[i].size_bytes;
            i = i + 1;
        }
        proof {
            assert(self.entries@.subrange(0, i as int) =~= self.entries@);
        }
        acc
    }
}

/// After a model is removed from the cache, looking it up finds nothing.
pub proof fn lemma_removed_not_found(entries: Seq<CacheEntry>, model_id: Seq<char>)
    ensures
        first_entry(without_model(entries, model_id), model_id) is None,
{
    let kept = without_model(entries, model_id);
    assert forall|j: int| 0 <= j < kept.len() implies kept[j].model_id@ != model_id by {
        entries.lemma_filter_pred(other_model(model_id), j);
    }
    lemma_first_entry_none(kept, model_id);
}

/// After an entry is added for a model that had none, looking the model up
/// finds that entry.
pub proof fn lemma_added_found(entries: Seq<CacheEntry>, entry: CacheEntry)
    requires
        first_entry(entries, entry.model_id@) is None,
    ensures
        first_entry(entries.push(entry), entry.model_id@) == Some(entries.len() as int),
{
    lemma_first_entry_absent(entries, entry.model_id@);
    lemma_first_entry_found(entries.push(entry), entry.model_id@, entries.len() as int);
}

proof fn lemma_first_entry_absent(entries: Seq<CacheEntry>, model_id: Seq<char>)
    requires
        first_entry(entries, model_id) is None,
    ensures
        forall|j: int| 0 <= j < entries.len() ==> entries[j].model_id@ != model_id,
    decreases entries.len(),
{
    if entries.len() > 0 {
        lemma_first_entry_absent(entries.skip(1), model_id);
        assert forall|j: int| 0 <= j < entries.len() implies entries[j].model_id@ != model_id by {
            if j > 0 {
                assert(entries.skip(1)[j - 1] == entries[j]);
            }
        }
    }
}

/// Adding an entry grows the cache's total size by the entry's size.
pub proof fn lemma_add_grows_size(entries: Seq<CacheEntry>, entry: CacheEntry)
    ensures
        entries_size(entries.push(entry)) == entries_size(entries) + entry.size_bytes,
{
    assert(entries.push(entry).drop_last() =~= entries);
}

/// Whether an entry is for `model_id`.
pub open spec fn same_model(model_id: Seq<char>) -> spec_fn(CacheEntry) -> bool {
    |e: CacheEntry| e.model_id@ == model_id
}

/// Removing a model from the cache lowers its total size by exactly the
/// sizes of the entries for that model.
pub proof fn lemma_remove_shrinks_size(entries: Seq<CacheEntry>, model_id: Seq<char>)
    ensures
        entries_size(without_model(entries, model_id))
            == entries_size(entries) - entries_size(entries.filter(same_model(model_id))),
    decreases entries.len(),
{
    reveal_with_fuel(Seq::filter, 1);
    if entries.len() > 0 {
        let init = entries.drop_last();
        let e = entries.last();
        lemma_remove_shrinks_size(init, model_id);
        assert(init.push(e) =~= entries);
        lemma_add_grows_size(init.filter(other_model(model_id)), e);
        lemma_add_grows_size(init.filter(same_model(model_id)), e);
    } else {
        assert(without_model(entries, model_id) =~= Seq::<CacheEntry>::empty());
        assert(entries.filter(same_model(model_id)) =~= Seq::<CacheEntry>::empty());
    }
}

/// Removing a model the cache does not hold leaves the cache as it is.
pub proof fn lemma_remove_absent_unchanged(entries: Seq<CacheEntry>, model_id: Seq<char>)
    requires
        first_entry(entries, model_id) is None,
    ensures
        without_model(entries, model_id) == entries,
    decreases entries.len(),
{
    reveal_with_fuel(Seq::filter, 1);
    lemma_first_entry_absent(entries, model_id);
    if entries.len() > 0 {
        let init = entries.drop_last();
        assert forall|j: int| 0 <= j < init.len() implies init[j].model_id@ != model_id by {
            assert(init[j] == entries[j]);
        }
        lemma_first_entry_none(init, model_id);
        lemma_remove_absent_unchanged(init, model_id);
        assert(entries.last().model_id@ != model_id);
        assert(init.push(entries.last()) =~= entries);
    } else {
        assert(without_model(entries, model_id) =~= entries);
    }
}

/// A request to download a model.
#[derive(Debug)]
pub struct ModelDownloadRequest {
    /// Model identifier
    pub model_id: String,
    /// Revision, if not the default
    pub revision: Option<String>,
    /// Directory to download to
    pub local_dir: String,
    /// Files to fetch, if not all
    pub files: Option<Vec<String>>,
}

/// Outcome of a download.
#[derive(Debug)]
pub struct DownloadResult {
    /// Model identifier
    pub model_id: String,
    /// Where the files are
    pub local_path: String,
    /// Whether the download completed
    pub success: bool,
    /// Bytes downloaded
    pub total_bytes: u64,
    /// Time taken in seconds
    pub duration_secs: u64,
}

/// Downloads models from the hub.
#[derive(Debug)]
pub struct ModelDownloader {
    hf_token: Option<String>,
    max_parallel: usize,
}

impl ModelDownloader {
    /// Access token, if any.
    pub closed spec fn spec_token(&self) -> Option<Seq<char>> {
        match &self.hf_token {
            Some(t) => Some(t@),
            None => None,
        }
    }

    /// Downloads run at once.
    pub closed spec fn spec_max_parallel(&self) -> usize {
        self.max_parallel
    }

    /// Downloader without a token, three downloads at once.
    pub fn new() -> (r: Self)
        ensures
            r.spec_token() is None,
            r.spec_max_parallel() == 3,
    {
        ModelDownloader { hf_token: None, max_parallel: 3 }
    }

    /// The downloader with an access token.
    pub fn with_token(self, token: String) -> (r: Self)
        ensures
            r.spec_token() == Some(token@),
            r.spec_max_parallel() == self.spec_max_parallel(),
    {
        ModelDownloader { hf_token: Some(token), max_parallel: self.max_parallel }
    }

    /// Downloads run at once.
    pub fn max_parallel(&self) -> (r: usize)
        ensures
            r == self.spec_max_parallel(),
    {
        self.max_parallel
    }

    /// Checks a request: the model identifier must not be empty.
    pub fn validate(&self, req: &ModelDownloadRequest) -> (r: MinervaResult<()>)
        ensures
            req.model_id@.len() == 0 ==> (r matches Err(MinervaError::InvalidRequest(m)) && m@ == "model_id required"@),
            req.model_id@.len() != 0 ==> r is Ok,
    {
        if req.model_id.as_str().is_empty() {
            return Err(MinervaError::InvalidRequest(text("model_id required")));
        }
        Ok(())
    }

    /// Validates a request and reports its outcome; no bytes are fetched yet,
    /// so a valid request yields an unsuccessful, empty result for its model
    /// and directory.
    pub fn download(&self, req: &ModelDownloadRequest) -> (r: MinervaResult<DownloadResult>)
        ensures
            req.model_id@.len() == 0 ==> (r matches Err(MinervaError::InvalidRequest(m)) && m@ == "model_id required"@),
            req.model_id@.len() != 0 ==> (r matches Ok(d) && d.model_id@ == req.model_id@
                && d.local_path@ == req.local_dir@ && !d.success && d.total_bytes == 0 && d.duration_secs == 0),
    {
        self.validate(req)?;
        Ok(DownloadResult {
            model_id: req.model_id.clone(),
            local_path: req.local_dir.clone(),
            success: false,
            total_bytes: 0,
            duration_secs: 0,
        })
    }
}

impl Default for ModelDownloader {
    fn default() -> (r: Self)
        ensures
            r.spec_token() is None,
            r.spec_max_parallel() == 3,
    {
        Self::new()
    }
}

/// A progress report from a running download.
#[derive(Debug, Clone, Copy, PartialEq, Eq, Structural)]
pub struct ProgressUpdate {
    /// Bytes downloaded
    pub downloaded: u64,
    /// Files in all
    pub files_total: usize,
    /// Files done
    pub files_done: usize,
}

/// Tracks a download and throttles progress reports to two per second.
#[derive(Debug)]
pub struct ProgressTracker {
    model_id: String,
    total_bytes: u64,
    start_time: Instant,
    last_update: Instant,
}

impl ProgressTracker {
    /// Model being downloaded.
    pub closed spec fn spec_model_id(&self) -> Seq<char> {
        self.model_id@
    }

    /// Bytes to download.
    pub closed spec fn spec_total(&self) -> u64 {
        self.total_bytes
    }

    /// When the download started.
    pub closed spec fn spec_start(&self) -> Instant {
        self.start_time
    }

    /// When the last report went out.
    pub closed spec fn spec_last_update(&self) -> Instant {
        self.last_update
    }

    /// Tracker starting at `now`.
    pub fn new_at(model_id: String, total_bytes: u64, now: Instant) -> (r: Self)
        ensures
            r.spec_model_id() == model_id@,
            r.spec_total() == total_bytes,
            r.spec_start() == now,
            r.spec_last_update() == now,
    {
        ProgressTracker { model_id, total_bytes, start_time: now, last_update: now }
    }

    /// Tracker starting now.
    pub fn new(model_id: String, total_bytes: u64) -> (r: Self)
        ensures
            r.spec_model_id() == model_id@,
            r.spec_total() == total_bytes,
            r.spec_start() == r.spec_last_update(),
            r.spec_start().wf(),
    {
        Self::new_at(model_id, total_bytes, Instant::now())
    }

    /// Bytes to download.
    pub fn total_bytes(&self) -> (r: u64)
        ensures
            r == self.spec_total(),
    {
        self.total_bytes
    }

    /// Model being downloaded.
    pub fn model_id(&self) -> (r: &str)
        ensures
            r@ == self.spec_model_id(),
    {
        self.model_id.as_str()
    }

    /// When the download started.
    pub fn start_time(&self) -> (r: Instant)
        ensures
            r == self.spec_start(),
    {
        self.start_time
    }

    /// Whether a report is due at `now`: more than 500 ms since the last
    /// report at `last`.
    pub open spec fn update_due(last: Instant, now: Instant) -> bool {
        elapsed_nanos(last, now) > 500_000_000
    }

    /// Whether a report is due at `now`: more than 500 ms since the last one.
    /// A due report moves the last-report time to `now`.
    pub fn should_update_at(&mut self, now: Instant) -> (r: bool)
        requires
            now.wf(),
            old(self).spec_last_update().wf(),
        ensures
            r == Self::update_due(old(self).spec_last_update(), now),
            final(self).spec_last_update() == if r { now } else { old(self).spec_last_update() },
            final(self).spec_model_id() == old(self).spec_model_id(),
            final(self).spec_total() == old(self).spec_total(),
            final(self).spec_start() == old(self).spec_start(),
    {
        let since = now.duration_since(self.last_update);
        if since.as_nanos() > 500_000_000 {
            self.last_update = now;
            true
        } else {
            false
        }
    }

    /// Whether a report is due now: as `should_update_at` answers for a
    /// reading of the clock, which becomes the last-report time when a
    /// report is due.
    pub fn should_update(&mut self) -> (r: bool)
        requires
            old(self).spec_last_update().wf(),
        ensures
            final(self).spec_last_update().wf(),
            exists|now: Instant|
                now.wf() && r == #[trigger] Self::update_due(old(self).spec_last_update(), now)
                    && final(self).spec_last_update() == (if r { now } else { old(self).spec_last_update() }),
            final(self).spec_model_id() == old(self).spec_model_id(),
            final(self).spec_total() == old(self).spec_total(),
            final(self).spec_start() == old(self).spec_start(),
    {
        let now = Instant::now();
        let r = self.should_update_at(now);
        assert(now.wf() && r == Self::update_due(old(self).spec_last_update(), now)
            && self.spec_last_update() == (if r { now } else { old(self).spec_last_update() }));
        r
    }
}

} // verus!
