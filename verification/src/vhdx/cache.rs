//! Write-back cache of metadata pages.
//!
//! A page is known by a tag and an offset in the region that the tag stands
//! for. Changed pages gather as dirty until they are committed to the log,
//! all of them at once. Before a batch grows too large, it is committed, so
//! that no change reaches the log before one that was made earlier.

use std::sync::Arc;

use vstd::prelude::*;

use crate::bytes::zero_bytes;

verus! {

/// Size of a page.
pub const PAGE_SIZE: usize = 4096;

/// Largest number of dirty pages in a batch.
pub const MAX_COMMIT_PAGES: usize = 62;

/// Key of a cached page.
#[derive(Debug, Clone, Copy, PartialEq, Eq, Hash, Structural)]
pub struct PageKey {
    /// Tag of the region.
    pub tag: u8,
    /// Byte offset in the region, a multiple of the page size.
    pub offset: u64,
}

/// How a page is acquired for writing.
#[derive(Debug, Clone, Copy, PartialEq, Eq, Structural)]
pub enum WriteMode {
    /// The page is loaded, to be changed in part.
    Modify,
    /// The page is not loaded: it is overwritten as a whole.
    Overwrite,
}

impl WriteMode {
    /// Whether a page that is not cached is loaded.
    pub fn loads(self) -> (r: bool)
        ensures
            r == (self == WriteMode::Modify),
    {
        match self {
            WriteMode::Modify => true,
            WriteMode::Overwrite => false,
        }
    }
}

/// State of a page.
#[derive(Debug, Clone, Copy, PartialEq, Eq, Structural)]
pub enum PageState {
    /// Unchanged.
    Clean,
    /// Being loaded.
    Loading,
    /// A log permit is being acquired for it.
    AcquiringPermit,
    /// It has a permit and is not changed yet.
    HasPermit,
    /// It has a permit and was made up as zeros.
    Overwritten,
    /// Changed.
    Dirty,
}

/// A cached page.
#[derive(Debug)]
pub struct PageData {
    /// The key.
    pub key: PageKey,
    /// The bytes, once there are any.
    pub data: Option<Arc<Vec<u8>>>,
    /// The state.
    pub state: PageState,
    /// The FSN through which to flush before the page is logged, if any.
    pub pre_log_fsn: Option<u64>,
    /// The LSN of the last commit that held the page.
    pub committed_lsn: Option<u64>,
}

/// A page in a commit.
#[derive(Debug)]
pub struct CommittedPage {
    /// File offset of the page.
    pub file_offset: u64,
    /// Its bytes.
    pub data: Arc<Vec<u8>>,
}

/// A batch of pages for the log.
#[derive(Debug)]
pub struct CommitBatch {
    /// Its LSN.
    pub lsn: u64,
    /// The pages.
    pub pages: Vec<CommittedPage>,
    /// The FSN through which to flush before the batch is logged, if any.
    pub pre_log_fsn: Option<u64>,
}

/// What a reader of a page gets.
#[derive(Debug)]
pub enum ReadAcquire {
    /// The bytes.
    Ready(Arc<Vec<u8>>),
    /// Wait until the page changes its state, and try again.
    Wait,
    /// Load the page from this file offset, and try again.
    Load(u64),
}

/// What a writer of a page gets.
#[derive(Debug)]
pub enum WriteAcquire {
    /// The page can be written.
    Ready,
    /// Wait until the page changes its state, and try again.
    Wait,
    /// Load the page from this file offset, and try again.
    Load(u64),
    /// Acquire a log permit for the page, and try again.
    AcquirePermit,
    /// Send the batch, if there is one, and try again.
    Retry(Option<CommitBatch>),
}

/// The pages of a cache.
#[derive(Debug)]
pub struct PageCache {
    /// The cached pages.
    pub pages: Vec<PageData>,
    /// The number of pages that hold a permit.
    pub dirty_count: usize,
    /// The base file offset of each tag.
    pub tags: Vec<Option<u64>>,
    /// The LSN that was assigned last.
    pub current_lsn: u64,
    /// Largest number of pages to keep, zero for no limit.
    pub quota: usize,
}

/// Whether a page in this state holds a permit.
pub open spec fn holds_permit(state: PageState) -> bool {
    state == PageState::HasPermit || state == PageState::Overwritten || state == PageState::Dirty
}

/// Whether a page in this state is part of the next commit.
pub open spec fn is_changed(state: PageState) -> bool {
    state == PageState::Overwritten || state == PageState::Dirty
}

/// The number of pages that hold a permit.
pub open spec fn permit_count(pages: Seq<PageData>) -> nat
    decreases pages.len(),
{
    if pages.len() == 0 {
        0
    } else {
        permit_count(pages.drop_last()) + (if holds_permit(pages.last().state) {
            1nat
        } else {
            0
        })
    }
}

/// The index of the page with a key, or the number of pages.
pub open spec fn page_index(pages: Seq<PageData>, key: PageKey) -> int
    decreases pages.len(),
{
    if pages.len() == 0 {
        0
    } else if pages[0].key == key {
        0
    } else {
        1 + page_index(pages.skip(1), key)
    }
}

/// Whether a page may be dropped: it is unchanged and what was committed of
/// it is applied.
pub open spec fn evictable(page: PageData, applied: u64, skip: PageKey) -> bool {
    &&& page.key != skip
    &&& page.state == PageState::Clean
    &&& page.data is Some
    &&& page.committed_lsn matches Some(lsn) ==> lsn <= applied
}

/// The index of the first page that may be dropped, or the number of pages.
pub open spec fn first_evictable(pages: Seq<PageData>, applied: u64, skip: PageKey) -> int
    decreases pages.len(),
{
    if pages.len() == 0 {
        0
    } else if evictable(pages[0], applied, skip) {
        0
    } else {
        1 + first_evictable(pages.skip(1), applied, skip)
    }
}

/// The pages after room was made for one more: if the quota is reached, the
/// first page that may be dropped is.
pub open spec fn after_eviction(
    pages: Seq<PageData>,
    quota: usize,
    applied: u64,
    key: PageKey,
) -> Seq<PageData> {
    let i = first_evictable(pages, applied, key);
    if quota > 0 && pages.len() >= quota && i < pages.len() {
        pages.remove(i)
    } else {
        pages
    }
}

/// A page that was not cached before.
pub open spec fn fresh_page(key: PageKey) -> PageData {
    PageData {
        key,
        data: None,
        state: PageState::Clean,
        pre_log_fsn: None,
        committed_lsn: None,
    }
}

/// The pages with one for the key: a fresh one, if there was none.
pub open spec fn with_page(pages: Seq<PageData>, key: PageKey) -> Seq<PageData> {
    if page_index(pages, key) < pages.len() {
        pages
    } else {
        pages.push(fresh_page(key))
    }
}

/// The pages as an acquirer of the key finds them.
pub open spec fn prepared(
    pages: Seq<PageData>,
    quota: usize,
    applied: u64,
    key: PageKey,
) -> Seq<PageData> {
    with_page(after_eviction(pages, quota, applied, key), key)
}

/// A page with another state.
pub open spec fn in_state(page: PageData, state: PageState) -> PageData {
    PageData { state, ..page }
}

/// The bytes of a page as committed by a batch.
pub open spec fn page_after_commit(page: PageData, lsn: u64) -> PageData {
    if is_changed(page.state) {
        PageData {
            state: PageState::Clean,
            committed_lsn: Some(lsn),
            pre_log_fsn: None,
            ..page
        }
    } else {
        page
    }
}

/// The larger of two optional FSNs.
pub open spec fn max_fsn(a: Option<u64>, b: Option<u64>) -> Option<u64> {
    match (a, b) {
        (Some(x), Some(y)) => if x >= y {
            Some(x)
        } else {
            Some(y)
        },
        (Some(x), None) => Some(x),
        (None, y) => y,
    }
}

/// The largest FSN among the changed pages.
pub open spec fn batch_fsn(pages: Seq<PageData>) -> Option<u64>
    decreases pages.len(),
{
    if pages.len() == 0 {
        None
    } else if is_changed(pages.last().state) {
        max_fsn(batch_fsn(pages.drop_last()), pages.last().pre_log_fsn)
    } else {
        batch_fsn(pages.drop_last())
    }
}

/// What a batch holds of the changed pages, in order: where each goes, and
/// its bytes.
pub open spec fn batch_pages(pages: Seq<PageData>, tags: Seq<Option<u64>>) -> Seq<(int, Seq<u8>)>
    decreases pages.len(),
{
    if pages.len() == 0 {
        Seq::empty()
    } else {
        let before = batch_pages(pages.drop_last(), tags);
        if is_changed(pages.last().state) {
            before.push((page_offset(tags, pages.last().key), pages.last().data->0@))
        } else {
            before
        }
    }
}

/// The absolute file offset of a page.
pub open spec fn page_offset(tags: Seq<Option<u64>>, key: PageKey) -> int {
    tags[key.tag as int]->0 + key.offset
}

/// The tag of the key is registered, the offset is that of a page, and the
/// page is within the range of file offsets.
pub open spec fn key_ok(tags: Seq<Option<u64>>, key: PageKey) -> bool {
    &&& tags[key.tag as int] is Some
    &&& page_offset(tags, key) <= u64::MAX
    &&& key.offset % PAGE_SIZE as u64 == 0
}

/// The page is in order: it has bytes when its state says so.
pub open spec fn page_ok(tags: Seq<Option<u64>>, page: PageData) -> bool {
    &&& key_ok(tags, page.key)
    &&& holds_permit(page.state) ==> page.data is Some
    &&& page.state == PageState::Loading ==> page.data is None
}

/// No two pages have the same key.
pub open spec fn keys_distinct(pages: Seq<PageData>) -> bool {
    forall|i: int, j: int|
        0 <= i < j < pages.len() ==> (#[trigger] pages[i]).key != (#[trigger] pages[j]).key
}

/// The pages are in order, one for each key.
pub open spec fn pages_ok(tags: Seq<Option<u64>>, pages: Seq<PageData>) -> bool {
    &&& keys_distinct(pages)
    &&& forall|i: int| 0 <= i < pages.len() ==> page_ok(tags, #[trigger] pages[i])
}

/// Where a page goes, and its bytes.
pub open spec fn page_view(page: CommittedPage) -> (int, Seq<u8>) {
    (page.file_offset as int, page.data@)
}

proof fn lemma_page_index(pages: Seq<PageData>, key: PageKey)
    ensures
        0 <= page_index(pages, key) <= pages.len(),
        page_index(pages, key) < pages.len() ==> pages[page_index(pages, key)].key == key,
        forall|i: int|
            0 <= i < page_index(pages, key) ==> (#[trigger] pages[i]).key != key,
    decreases pages.len(),
{
    if pages.len() > 0 && pages[0].key != key {
        let rest = pages.skip(1);
        lemma_page_index(rest, key);
        assert forall|i: int| 0 <= i < page_index(pages, key) implies (
        #[trigger] pages[i]).key != key by {
            if i > 0 {
                assert(pages[i] == rest[i - 1]);
            }
        }
    }
}

proof fn lemma_page_index_is(pages: Seq<PageData>, key: PageKey, n: int)
    requires
        0 <= n <= pages.len(),
        forall|i: int| 0 <= i < n ==> (#[trigger] pages[i]).key != key,
        n == pages.len() || pages[n].key == key,
    ensures
        page_index(pages, key) == n,
    decreases n,
{
    if n > 0 {
        assert(pages[0].key != key);
        assert forall|i: int| 0 <= i < n - 1 implies (#[trigger] pages.skip(1)[i]).key != key by {
            assert(pages.skip(1)[i] == pages[i + 1]);
        }
        lemma_page_index_is(pages.skip(1), key, n - 1);
    }
}

proof fn lemma_first_evictable_is(pages: Seq<PageData>, applied: u64, skip: PageKey, n: int)
    requires
        0 <= n <= pages.len(),
        forall|i: int| 0 <= i < n ==> !evictable(#[trigger] pages[i], applied, skip),
        n == pages.len() || evictable(pages[n], applied, skip),
    ensures
        first_evictable(pages, applied, skip) == n,
    decreases n,
{
    if n > 0 {
        assert(!evictable(pages[0], applied, skip));
        assert forall|i: int| 0 <= i < n - 1 implies !evictable(
            #[trigger] pages.skip(1)[i],
            applied,
            skip,
        ) by {
            assert(pages.skip(1)[i] == pages[i + 1]);
        }
        lemma_first_evictable_is(pages.skip(1), applied, skip, n - 1);
    }
}

proof fn lemma_permit_count_update(pages: Seq<PageData>, at: int, page: PageData)
    requires
        0 <= at < pages.len(),
    ensures
        permit_count(pages.update(at, page)) == permit_count(pages) - (if holds_permit(
            pages[at].state,
        ) {
            1int
        } else {
            0
        }) + (if holds_permit(page.state) {
            1int
        } else {
            0
        }),
        holds_permit(pages[at].state) ==> permit_count(pages) > 0,
    decreases pages.len(),
{
    let updated = pages.update(at, page);
    if at == pages.len() - 1 {
        assert(updated.drop_last() =~= pages.drop_last());
    } else {
        assert(updated.drop_last() =~= pages.drop_last().update(at, page));
        lemma_permit_count_update(pages.drop_last(), at, page);
    }
}

proof fn lemma_permit_count_push(pages: Seq<PageData>, page: PageData)
    ensures
        permit_count(pages.push(page)) == permit_count(pages) + (if holds_permit(page.state) {
            1nat
        } else {
            0
        }),
{
    assert(pages.push(page).drop_last() =~= pages);
}

proof fn lemma_permit_count_remove(pages: Seq<PageData>, at: int)
    requires
        0 <= at < pages.len(),
        !holds_permit(pages[at].state),
    ensures
        permit_count(pages.remove(at)) == permit_count(pages),
    decreases pages.len(),
{
    let removed = pages.remove(at);
    if at == pages.len() - 1 {
        assert(removed =~= pages.drop_last());
    } else {
        assert(removed.drop_last() =~= pages.drop_last().remove(at));
        lemma_permit_count_remove(pages.drop_last(), at);
        assert(removed.last() == pages.last());
    }
}

proof fn lemma_permit_count_bound(pages: Seq<PageData>)
    ensures
        permit_count(pages) <= pages.len(),
    decreases pages.len(),
{
    if pages.len() > 0 {
        lemma_permit_count_bound(pages.drop_last());
    }
}

impl PageCache {
    /// The pages are in order, and the count of pages with a permit is right.
    pub open spec fn wf(self) -> bool {
        &&& self.tags@.len() == 256
        &&& pages_ok(self.tags@, self.pages@)
        &&& self.dirty_count == permit_count(self.pages@)
    }

    /// Whether the page with the key is cached.
    pub open spec fn cached(self, key: PageKey) -> bool {
        page_index(self.pages@, key) < self.pages@.len()
    }

    /// The cached page with the key.
    pub open spec fn page(self, key: PageKey) -> PageData {
        self.pages@[page_index(self.pages@, key)]
    }

    /// Everything but the pages and their count is as before.
    pub open spec fn same_setup(self, next: PageCache) -> bool {
        &&& next.tags@ == self.tags@
        &&& next.current_lsn == self.current_lsn
        &&& next.quota == self.quota
    }

    /// To acquire the page with the key for reading gives `r` and leaves the
    /// cache as `next`.
    pub open spec fn read_acquired(
        self,
        key: PageKey,
        applied: u64,
        next: PageCache,
        r: ReadAcquire,
    ) -> bool {
        let pages = prepared(self.pages@, self.quota, applied, key);
        let i = page_index(pages, key);
        let page = pages[i];
        if page.state == PageState::Loading || page.state == PageState::AcquiringPermit {
            r == ReadAcquire::Wait && next.pages@ == pages
        } else if page.data is None {
            &&& r == ReadAcquire::Load(page_offset(self.tags@, key) as u64)
            &&& next.pages@ == pages.update(i, in_state(page, PageState::Loading))
        } else {
            &&& r matches ReadAcquire::Ready(data) && data == page.data->0
            &&& next.pages@ == pages
        }
    }

    /// What a writer of a page gets, and the cache then.
    pub open spec fn write_acquired(
        self,
        key: PageKey,
        load: bool,
        applied: u64,
        next: PageCache,
        r: WriteAcquire,
    ) -> bool {
        let pages = prepared(self.pages@, self.quota, applied, key);
        let i = page_index(pages, key);
        let page = pages[i];
        &&& next.tags@ == self.tags@
        &&& next.quota == self.quota
        &&& if page.state == PageState::Loading || page.state == PageState::AcquiringPermit {
            &&& r == WriteAcquire::Wait
            &&& next.pages@ == pages
            &&& next.current_lsn == self.current_lsn
        } else if holds_permit(page.state) {
            &&& r == WriteAcquire::Ready
            &&& next.pages@ == pages
            &&& next.current_lsn == self.current_lsn
        } else if load && page.data is None {
            &&& r == WriteAcquire::Load(page_offset(self.tags@, key) as u64)
            &&& next.pages@ == pages.update(i, in_state(page, PageState::Loading))
            &&& next.current_lsn == self.current_lsn
        } else if permit_count(pages) >= MAX_COMMIT_PAGES {
            &&& r matches WriteAcquire::Retry(batch) && is_batch_of(
                batch,
                pages,
                self.tags@,
                self.current_lsn,
            )
            &&& next.pages@ == committed_pages(pages, (self.current_lsn + 1) as u64)
            &&& next.current_lsn == lsn_after(pages, self.current_lsn)
        } else {
            &&& r == WriteAcquire::AcquirePermit
            &&& next.pages@ == pages.update(i, in_state(page, PageState::AcquiringPermit))
            &&& next.current_lsn == self.current_lsn
        }
    }

    /// The cache once a page is loaded, or failed to be.
    pub open spec fn load_completed(
        self,
        key: PageKey,
        data: Option<Arc<Vec<u8>>>,
        next: PageCache,
    ) -> bool {
        let i = page_index(self.pages@, key);
        &&& self.same_setup(next)
        &&& next.dirty_count == self.dirty_count
        &&& next.pages@ == (match data {
            Some(bytes) => self.pages@.update(
                i,
                PageData { state: PageState::Clean, data: Some(bytes), ..self.page(key) },
            ),
            None => self.pages@.remove(i),
        })
    }

    /// The cache once the permit of a page came or failed to come.
    pub open spec fn permit_finalized(self, key: PageKey, success: bool, next: PageCache) -> bool {
        let i = page_index(self.pages@, key);
        let page = self.page(key);
        let new_page = next.pages@[i];
        &&& self.same_setup(next)
        &&& next.dirty_count == self.dirty_count + (if success {
            1int
        } else {
            0
        })
        &&& next.pages@ == self.pages@.update(i, new_page)
        &&& if !success {
            new_page == in_state(page, PageState::Clean)
        } else if page.data is Some {
            new_page == in_state(page, PageState::HasPermit)
        } else {
            &&& new_page == (PageData {
                state: PageState::Overwritten,
                data: new_page.data,
                ..page
            })
            &&& new_page.data matches Some(bytes) && bytes@ == Seq::new(
                PAGE_SIZE as nat,
                |k: int| 0u8,
            )
        }
    }

    /// An empty cache.
    pub fn new(quota: usize) -> (r: PageCache)
        ensures
            r.wf(),
            r.pages@.len() == 0,
            r.tags@ == Seq::new(256, |i: int| None::<u64>),
            r.current_lsn == 0,
            r.quota == quota,
    {
        let mut tags: Vec<Option<u64>> = Vec::new();
        let mut i: usize = 0;
        while i < 256
            invariant
                i <= 256,
                tags@ == Seq::new(i as nat, |k: int| None::<u64>),
            decreases 256 - i,
        {
            tags.push(None);
            i += 1;
        }
        PageCache { pages: Vec::new(), dirty_count: 0, tags, current_lsn: 0, quota }
    }

    /// Registers the base file offset of a tag.
    pub fn register_tag(&mut self, tag: u8, base_offset: u64)
        requires
            old(self).wf(),
            forall|i: int|
                0 <= i < old(self).pages@.len() && (#[trigger] old(self).pages@[i]).key.tag == tag
                    ==> base_offset + old(self).pages@[i].key.offset <= u64::MAX,
        ensures
            final(self).wf(),
            final(self).pages@ == old(self).pages@,
            final(self).dirty_count == old(self).dirty_count,
            final(self).tags@ == old(self).tags@.update(tag as int, Some(base_offset)),
            final(self).current_lsn == old(self).current_lsn,
            final(self).quota == old(self).quota,
    {
        self.tags.set(tag as usize, Some(base_offset));
        assert forall|i: int| 0 <= i < self.pages@.len() implies page_ok(
            self.tags@,
            #[trigger] self.pages@[i],
        ) by {
            assert(page_ok(old(self).tags@, old(self).pages@[i]));
        }
    }

    /// Moves the region of a tag.
    pub fn update_tag_offset(&mut self, tag: u8, new_base: u64)
        requires
            old(self).wf(),
            forall|i: int|
                0 <= i < old(self).pages@.len() && (#[trigger] old(self).pages@[i]).key.tag == tag
                    ==> new_base + old(self).pages@[i].key.offset <= u64::MAX,
        ensures
            final(self).wf(),
            final(self).pages@ == old(self).pages@,
            final(self).dirty_count == old(self).dirty_count,
            final(self).tags@ == old(self).tags@.update(tag as int, Some(new_base)),
            final(self).current_lsn == old(self).current_lsn,
            final(self).quota == old(self).quota,
    {
        self.register_tag(tag, new_base);
    }

    /// The absolute file offset of a page.
    pub fn resolve_offset(&self, key: PageKey) -> (r: u64)
        requires
            self.wf(),
            key_ok(self.tags@, key),
        ensures
            r == page_offset(self.tags@, key),
    {
        self.tags[key.tag as usize].unwrap() + key.offset
    }

    fn find(&self, key: PageKey) -> (r: usize)
        ensures
            r == page_index(self.pages@, key),
            r <= self.pages@.len(),
    {
        let mut i: usize = 0;
        while i < self.pages.len()
            invariant
                i <= self.pages@.len(),
                forall|k: int| 0 <= k < i ==> (#[trigger] self.pages@[k]).key != key,
            decreases self.pages@.len() - i,
        {
            if self.pages[i].key == key {
                proof {
                    lemma_page_index_is(self.pages@, key, i as int);
                }
                return i;
            }
            i += 1;
        }
        proof {
            lemma_page_index_is(self.pages@, key, i as int);
        }
        i
    }

    fn find_evictable(&self, applied: u64, skip: PageKey) -> (r: usize)
        ensures
            r == first_evictable(self.pages@, applied, skip),
            r <= self.pages@.len(),
            r < self.pages@.len() ==> evictable(self.pages@[r as int], applied, skip),
    {
        let mut i: usize = 0;
        while i < self.pages.len()
            invariant
                i <= self.pages@.len(),
                forall|k: int|
                    0 <= k < i ==> !evictable(#[trigger] self.pages@[k], applied, skip),
            decreases self.pages@.len() - i,
        {
            let page = &self.pages[i];
            let applied_here = match page.committed_lsn {
                None => true,
                Some(lsn) => lsn <= applied,
            };
            if page.key != skip && page.state == PageState::Clean && page.data.is_some()
                && applied_here {
                proof {
                    lemma_first_evictable_is(self.pages@, applied, skip, i as int);
                }
                return i;
            }
            i += 1;
        }
        proof {
            lemma_first_evictable_is(self.pages@, applied, skip, i as int);
        }
        i
    }

    /// Makes room for a page and finds or creates it. Returns its index.
    fn prepare(&mut self, key: PageKey, applied: u64) -> (r: usize)
        requires
            old(self).wf(),
            key_ok(old(self).tags@, key),
        ensures
            final(self).wf(),
            old(self).same_setup(*final(self)),
            final(self).dirty_count == old(self).dirty_count,
            final(self).pages@ == prepared(old(self).pages@, old(self).quota, applied, key),
            r == page_index(final(self).pages@, key),
            r < final(self).pages@.len(),
            final(self).pages@[r as int].key == key,
    {
        let ghost before = self.pages@;
        if self.quota > 0 && self.pages.len() >= self.quota {
            let at: usize = self.find_evictable(applied, key);
            if at < self.pages.len() {
                proof {
                    lemma_permit_count_remove(self.pages@, at as int);
                }
                self.pages.remove(at);
                assert(pages_ok(self.tags@, self.pages@)) by {
                    let pages = self.pages@;
                    assert forall|i: int| 0 <= i < pages.len() implies page_ok(
                        self.tags@,
                        #[trigger] pages[i],
                    ) by {
                        if i < at {
                            assert(pages[i] == before[i]);
                        } else {
                            assert(pages[i] == before[i + 1]);
                        }
                    }
                    assert forall|i: int, j: int| 0 <= i < j < pages.len() implies (
                    #[trigger] pages[i]).key != (#[trigger] pages[j]).key by {
                        let i2 = if i < at {
                            i
                        } else {
                            i + 1
                        };
                        let j2 = if j < at {
                            j
                        } else {
                            j + 1
                        };
                        assert(before[i2].key != before[j2].key);
                    }
                }
            }
        }
        let ghost roomy = self.pages@;
        assert(roomy == after_eviction(before, self.quota, applied, key));
        let i: usize = self.find(key);
        proof {
            lemma_page_index(roomy, key);
        }
        if i == self.pages.len() {
            let page = PageData {
                key,
                data: None,
                state: PageState::Clean,
                pre_log_fsn: None,
                committed_lsn: None,
            };
            proof {
                lemma_permit_count_push(roomy, page);
            }
            self.pages.push(page);
            proof {
                assert(self.pages@ == roomy.push(fresh_page(key)));
                lemma_page_index_is(self.pages@, key, i as int);
            }
        }
        i
    }

    /// Replaces the state of the page at an index.
    fn set_state(&mut self, at: usize, state: PageState)
        requires
            at < old(self).pages@.len(),
        ensures
            old(self).same_setup(*final(self)),
            final(self).dirty_count == old(self).dirty_count,
            final(self).pages@ == old(self).pages@.update(
                at as int,
                in_state(old(self).pages@[at as int], state),
            ),
    {
        let mut page = self.pages.remove(at);
        let ghost rest = self.pages@;
        page.state = state;
        self.pages.insert(at, page);
        assert(self.pages@ =~= old(self).pages@.update(
            at as int,
            in_state(old(self).pages@[at as int], state),
        ));
    }

    /// Tries to read a page. `applied` is the LSN up to which commits are
    /// applied.
    pub fn try_acquire_read(&mut self, key: PageKey, applied: u64) -> (r: ReadAcquire)
        requires
            old(self).wf(),
            key_ok(old(self).tags@, key),
        ensures
            final(self).wf(),
            old(self).same_setup(*final(self)),
            final(self).dirty_count == old(self).dirty_count,
            old(self).read_acquired(key, applied, *final(self), r),
            ({
                let pages = prepared(old(self).pages@, old(self).quota, applied, key);
                let i = page_index(pages, key);
                let page = pages[i];
                if page.state == PageState::Loading || page.state == PageState::AcquiringPermit {
                    r == ReadAcquire::Wait && final(self).pages@ == pages
                } else if page.data is None {
                    &&& r == ReadAcquire::Load(page_offset(old(self).tags@, key) as u64)
                    &&& final(self).pages@ == pages.update(i, in_state(page, PageState::Loading))
                } else {
                    &&& r matches ReadAcquire::Ready(data) && data == page.data->0
                    &&& final(self).pages@ == pages
                }
            }),
    {
        let file_offset: u64 = self.resolve_offset(key);
        let i: usize = self.prepare(key, applied);
        let ghost pages = self.pages@;
        assert(page_ok(self.tags@, self.pages@[i as int]));
        match self.pages[i].state {
            PageState::Loading | PageState::AcquiringPermit => ReadAcquire::Wait,
            PageState::Clean
            | PageState::HasPermit
            | PageState::Overwritten
            | PageState::Dirty => {
                match &self.pages[i].data {
                    Some(data) => {
                        return ReadAcquire::Ready(data.clone());
                    },
                    None => {},
                }
                proof {
                    lemma_permit_count_update(
                        pages,
                        i as int,
                        in_state(pages[i as int], PageState::Loading),
                    );
                }
                self.set_state(i, PageState::Loading);
                assert(pages_ok(self.tags@, self.pages@)) by {
                    lemma_pages_ok_update(self.tags@, pages, i as int, self.pages@[i as int]);
                }
                ReadAcquire::Load(file_offset)
            },
        }
    }

    /// Takes the result of loading a page. On success the page has the bytes;
    /// on failure it is dropped, so that the next acquirer loads it again.
    pub fn complete_load(&mut self, key: PageKey, data: Option<Arc<Vec<u8>>>)
        requires
            old(self).wf(),
            old(self).cached(key),
            old(self).page(key).state == PageState::Loading,
        ensures
            final(self).wf(),
            old(self).load_completed(key, data, *final(self)),
    {
        let ghost before = self.pages@;
        let i: usize = self.find(key);
        proof {
            lemma_page_index(before, key);
            lemma_permit_count_remove(before, i as int);
            lemma_pages_ok_remove(self.tags@, before, i as int);
        }
        let mut page = self.pages.remove(i);
        match data {
            Some(bytes) => {
                page.state = PageState::Clean;
                page.data = Some(bytes);
                let ghost new_page = page;
                self.pages.insert(i, page);
                proof {
                    assert(self.pages@ =~= before.update(i as int, new_page));
                    lemma_permit_count_update(before, i as int, new_page);
                    lemma_pages_ok_update(self.tags@, before, i as int, new_page);
                }
            },
            None => {},
        }
    }

    /// Tries to write a page. A page that is not dirty needs a permit; if the
    /// batch of dirty pages is full, it is committed first.
    pub fn try_acquire_write(&mut self, key: PageKey, load: bool, applied: u64) -> (r:
        WriteAcquire)
        requires
            old(self).wf(),
            key_ok(old(self).tags@, key),
            permit_count(old(self).pages@) >= MAX_COMMIT_PAGES ==> old(self).current_lsn < u64::MAX,
        ensures
            final(self).wf(),
            old(self).write_acquired(key, load, applied, *final(self), r),
    {
        let file_offset: u64 = self.resolve_offset(key);
        let i: usize = self.prepare(key, applied);
        let ghost pages = self.pages@;
        assert(page_ok(self.tags@, self.pages@[i as int]));
        match self.pages[i].state {
            PageState::Loading | PageState::AcquiringPermit => WriteAcquire::Wait,
            PageState::Dirty | PageState::Overwritten | PageState::HasPermit => WriteAcquire::Ready,
            PageState::Clean => {
                if load && self.pages[i].data.is_none() {
                    proof {
                        lemma_permit_count_update(
                            pages,
                            i as int,
                            in_state(pages[i as int], PageState::Loading),
                        );
                    }
                    self.set_state(i, PageState::Loading);
                    proof {
                        lemma_pages_ok_update(self.tags@, pages, i as int, self.pages@[i as int]);
                    }
                    return WriteAcquire::Load(file_offset);
                }
                if self.dirty_count >= MAX_COMMIT_PAGES {
                    let (_lsn, batch) = self.commit();
                    return WriteAcquire::Retry(batch);
                }
                proof {
                    lemma_permit_count_update(
                        pages,
                        i as int,
                        in_state(pages[i as int], PageState::AcquiringPermit),
                    );
                }
                self.set_state(i, PageState::AcquiringPermit);
                proof {
                    lemma_pages_ok_update(self.tags@, pages, i as int, self.pages@[i as int]);
                }
                WriteAcquire::AcquirePermit
            },
        }
    }

    /// Takes the result of acquiring a permit. With it, a page that has no
    /// bytes is made up as zeros, to be overwritten as a whole.
    pub fn finalize_permit(&mut self, key: PageKey, success: bool)
        requires
            old(self).wf(),
            old(self).cached(key),
            old(self).page(key).state == PageState::AcquiringPermit,
        ensures
            final(self).wf(),
            old(self).permit_finalized(key, success, *final(self)),
    {
        let ghost before = self.pages@;
        let i: usize = self.find(key);
        proof {
            lemma_page_index(before, key);
            lemma_permit_count_bound(before);
            lemma_permit_count_remove(before, i as int);
            lemma_permit_count_bound(before.remove(i as int));
        }
        let count: usize = self.pages.len();
        let mut page = self.pages.remove(i);
        if success {
            self.dirty_count = self.dirty_count + 1;
            if page.data.is_some() {
                page.state = PageState::HasPermit;
            } else {
                page.data = Some(Arc::new(zero_bytes(PAGE_SIZE)));
                page.state = PageState::Overwritten;
            }
        } else {
            page.state = PageState::Clean;
        }
        let ghost new_page = page;
        self.pages.insert(i, page);
        proof {
            assert(self.pages@ =~= before.update(i as int, new_page));
            lemma_permit_count_update(before, i as int, new_page);
            lemma_pages_ok_update(self.tags@, before, i as int, new_page);
        }
    }

    /// Whether the bytes of a page were cached when it was acquired. If not,
    /// the writer fills in the whole page.
    pub fn is_populated(&self, key: PageKey) -> (r: bool)
        requires
            self.cached(key),
        ensures
            r == (self.page(key).state != PageState::Overwritten),
    {
        let i: usize = self.find(key);
        self.pages[i].state != PageState::Overwritten
    }

    /// Writes a page that holds a permit: it is dirty then.
    pub fn write_page(&mut self, key: PageKey, data: Arc<Vec<u8>>)
        requires
            old(self).wf(),
            old(self).cached(key),
            holds_permit(old(self).page(key).state),
        ensures
            final(self).wf(),
            old(self).same_setup(*final(self)),
            final(self).dirty_count == old(self).dirty_count,
            final(self).pages@ == old(self).pages@.update(
                page_index(old(self).pages@, key),
                PageData { state: PageState::Dirty, data: Some(data), ..old(self).page(key) },
            ),
    {
        let ghost before = self.pages@;
        let i: usize = self.find(key);
        proof {
            lemma_page_index(before, key);
        }
        let mut page = self.pages.remove(i);
        page.data = Some(data);
        page.state = PageState::Dirty;
        let ghost new_page = page;
        self.pages.insert(i, page);
        proof {
            assert(self.pages@ =~= before.update(i as int, new_page));
            lemma_permit_count_update(before, i as int, new_page);
            lemma_pages_ok_update(self.tags@, before, i as int, new_page);
        }
    }

    /// Gives up the write access to a page. A page that was not changed goes
    /// back to clean, and the caller releases its permit: the result says so.
    pub fn release_write(&mut self, key: PageKey) -> (r: bool)
        requires
            old(self).wf(),
            old(self).cached(key),
        ensures
            final(self).wf(),
            old(self).same_setup(*final(self)),
            r == (old(self).page(key).state == PageState::HasPermit),
            final(self).dirty_count == old(self).dirty_count - (if r {
                1int
            } else {
                0
            }),
            final(self).pages@ == (if r {
                old(self).pages@.update(
                    page_index(old(self).pages@, key),
                    in_state(old(self).page(key), PageState::Clean),
                )
            } else {
                old(self).pages@
            }),
    {
        let ghost before = self.pages@;
        let i: usize = self.find(key);
        if self.pages[i].state != PageState::HasPermit {
            return false;
        }
        proof {
            lemma_permit_count_update(
                before,
                i as int,
                in_state(before[i as int], PageState::Clean),
            );
        }
        self.set_state(i, PageState::Clean);
        self.dirty_count = self.dirty_count - 1;
        proof {
            lemma_pages_ok_update(self.tags@, before, i as int, self.pages@[i as int]);
        }
        true
    }

    /// Notes that a page must not be logged before everything is flushed
    /// through an FSN. Only a later FSN replaces an earlier one. Does nothing
    /// for a page that is not cached.
    pub fn set_pre_log_fsn(&mut self, key: PageKey, fsn: u64)
        requires
            old(self).wf(),
        ensures
            final(self).wf(),
            old(self).same_setup(*final(self)),
            final(self).dirty_count == old(self).dirty_count,
            final(self).pages@ == (if old(self).cached(key) {
                old(self).pages@.update(
                    page_index(old(self).pages@, key),
                    PageData {
                        pre_log_fsn: max_fsn(old(self).page(key).pre_log_fsn, Some(fsn)),
                        ..old(self).page(key)
                    },
                )
            } else {
                old(self).pages@
            }),
    {
        let ghost before = self.pages@;
        let i: usize = self.find(key);
        if i < self.pages.len() {
            let mut page = self.pages.remove(i);
            page.pre_log_fsn = match page.pre_log_fsn {
                Some(existing) => if existing >= fsn {
                    Some(existing)
                } else {
                    Some(fsn)
                },
                None => Some(fsn),
            };
            let ghost new_page = page;
            self.pages.insert(i, page);
            proof {
                assert(self.pages@ =~= before.update(i as int, new_page));
                lemma_permit_count_update(before, i as int, new_page);
                lemma_pages_ok_update(self.tags@, before, i as int, new_page);
            }
        }
    }

    /// The FSN noted for a page, if any.
    pub fn get_pre_log_fsn(&self, key: PageKey) -> (r: Option<u64>)
        ensures
            r == (if self.cached(key) {
                self.page(key).pre_log_fsn
            } else {
                None
            }),
    {
        let i: usize = self.find(key);
        if i < self.pages.len() {
            self.pages[i].pre_log_fsn
        } else {
            None
        }
    }

    /// Commits all changed pages as one batch, and returns its LSN. Without a
    /// changed page there is no batch, and the LSN is the last one assigned.
    pub fn commit(&mut self) -> (r: (u64, Option<CommitBatch>))
        requires
            old(self).wf(),
            old(self).current_lsn < u64::MAX,
        ensures
            final(self).wf(),
            final(self).tags@ == old(self).tags@,
            final(self).quota == old(self).quota,
            r.0 == lsn_after(old(self).pages@, old(self).current_lsn),
            final(self).current_lsn == r.0,
            is_batch_of(r.1, old(self).pages@, old(self).tags@, old(self).current_lsn),
            final(self).pages@ == committed_pages(
                old(self).pages@,
                (old(self).current_lsn + 1) as u64,
            ),
    {
        let ghost before = self.pages@;
        let ghost tags = self.tags@;
        let lsn: u64 = self.current_lsn + 1;
        let mut committed: Vec<CommittedPage> = Vec::new();
        let mut max_pre_log_fsn: Option<u64> = None;
        let mut i: usize = 0;
        proof {
            assert(before.subrange(0, 0) =~= Seq::empty());
            assert(committed@.map_values(|p: CommittedPage| page_view(p)) =~= Seq::empty());
            assert(self.pages@ =~= partly_committed(before, lsn, 0));
        }
        while i < self.pages.len()
            invariant
                i <= self.pages@.len() == before.len(),
                lsn == self.current_lsn + 1,
                self.current_lsn == old(self).current_lsn,
                self.quota == old(self).quota,
                self.tags@ == tags,
                tags == old(self).tags@,
                tags.len() == 256,
                pages_ok(tags, before),
                self.dirty_count + committed@.len() == permit_count(before),
                self.dirty_count == permit_count(self.pages@),
                self.pages@ == partly_committed(before, lsn, i as int),
                committed@.map_values(|p: CommittedPage| page_view(p)) == batch_pages(
                    before.subrange(0, i as int),
                    tags,
                ),
                max_pre_log_fsn == batch_fsn(before.subrange(0, i as int)),
            decreases before.len() - i,
        {
            proof {
                let more = before.subrange(0, i + 1);
                assert(more.drop_last() =~= before.subrange(0, i as int));
                assert(more.last() == before[i as int]);
                assert(page_ok(tags, before[i as int]));
            }
            let state = self.pages[i].state;
            if state == PageState::Dirty || state == PageState::Overwritten {
                let key: PageKey = self.pages[i].key;
                let file_offset: u64 = self.tags[key.tag as usize].unwrap() + key.offset;
                let mut page = self.pages.remove(i);
                let data: Arc<Vec<u8>> = match &page.data {
                    Some(bytes) => bytes.clone(),
                    None => Arc::new(Vec::new()),
                };
                max_pre_log_fsn = match (max_pre_log_fsn, page.pre_log_fsn) {
                    (Some(a), Some(b)) => if a >= b {
                        Some(a)
                    } else {
                        Some(b)
                    },
                    (Some(a), None) => Some(a),
                    (None, b) => b,
                };
                page.pre_log_fsn = None;
                page.state = PageState::Clean;
                page.committed_lsn = Some(lsn);
                let ghost new_page = page;
                let ghost held = committed@;
                self.pages.insert(i, page);
                proof {
                    let partly = partly_committed(before, lsn, i as int);
                    lemma_permit_count_update(partly, i as int, new_page);
                    assert(self.pages@ =~= partly.update(i as int, new_page));
                    assert(self.pages@ =~= partly_committed(before, lsn, i + 1));
                }
                self.dirty_count = self.dirty_count - 1;
                let entry = CommittedPage { file_offset, data };
                committed.push(entry);
                assert(committed@.map_values(|p: CommittedPage| page_view(p)) =~= held.map_values(
                    |p: CommittedPage| page_view(p),
                ).push(page_view(entry)));
            } else {
                assert(self.pages@ =~= partly_committed(before, lsn, i + 1));
            }
            i += 1;
        }
        proof {
            assert(before.subrange(0, i as int) =~= before);
            assert(self.pages@ =~= committed_pages(before, lsn));
            lemma_batch_len(before, tags);
            assert(committed@.len() == batch_pages(before, tags).len());
            assert forall|k: int| 0 <= k < self.pages@.len() implies page_ok(
                tags,
                #[trigger] self.pages@[k],
            ) by {
                assert(page_ok(tags, before[k]));
            }
            assert(keys_distinct(self.pages@)) by {
                assert forall|a: int, b: int| 0 <= a < b < self.pages@.len() implies (
                #[trigger] self.pages@[a]).key != (#[trigger] self.pages@[b]).key by {
                    assert(before[a].key != before[b].key);
                }
            }
        }
        if committed.len() == 0 {
            return (self.current_lsn, None);
        }
        self.current_lsn = lsn;
        (lsn, Some(CommitBatch { lsn, pages: committed, pre_log_fsn: max_pre_log_fsn }))
    }

    /// Commits pages that are not cached, as one batch.
    pub fn commit_raw(&mut self, raw_pages: Vec<CommittedPage>, pre_log_fsn: Option<u64>) -> (r:
        CommitBatch)
        requires
            old(self).wf(),
            old(self).current_lsn < u64::MAX,
        ensures
            final(self).wf(),
            final(self).pages@ == old(self).pages@,
            final(self).tags@ == old(self).tags@,
            final(self).quota == old(self).quota,
            final(self).current_lsn == old(self).current_lsn + 1,
            r.lsn == final(self).current_lsn,
            r.pages@ == raw_pages@,
            r.pre_log_fsn == pre_log_fsn,
    {
        self.current_lsn = self.current_lsn + 1;
        CommitBatch { lsn: self.current_lsn, pages: raw_pages, pre_log_fsn }
    }
}

/// The pages with the first `n` of them committed under an LSN.
spec fn partly_committed(pages: Seq<PageData>, lsn: u64, n: int) -> Seq<PageData> {
    Seq::new(
        pages.len(),
        |i: int|
            if i < n {
                page_after_commit(pages[i], lsn)
            } else {
                pages[i]
            },
    )
}

/// The pages once all changed ones are committed under an LSN.
pub open spec fn committed_pages(pages: Seq<PageData>, lsn: u64) -> Seq<PageData> {
    Seq::new(pages.len(), |i: int| page_after_commit(pages[i], lsn))
}

/// Whether a page is changed.
pub open spec fn any_changed(pages: Seq<PageData>) -> bool {
    exists|i: int| 0 <= i < pages.len() && is_changed((#[trigger] pages[i]).state)
}

/// The LSN that was assigned last, after a commit of the pages.
pub open spec fn lsn_after(pages: Seq<PageData>, lsn: u64) -> u64 {
    if any_changed(pages) {
        (lsn + 1) as u64
    } else {
        lsn
    }
}

/// The batch holds exactly the changed pages, under the LSN after `lsn`;
/// there is none if no page is changed.
pub open spec fn is_batch_of(
    batch: Option<CommitBatch>,
    pages: Seq<PageData>,
    tags: Seq<Option<u64>>,
    lsn: u64,
) -> bool {
    if any_changed(pages) {
        batch matches Some(b) && {
            &&& b.lsn == lsn + 1
            &&& b.pages@.map_values(|p: CommittedPage| page_view(p)) == batch_pages(pages, tags)
            &&& b.pre_log_fsn == batch_fsn(pages)
        }
    } else {
        batch is None
    }
}

proof fn lemma_batch_len(pages: Seq<PageData>, tags: Seq<Option<u64>>)
    ensures
        batch_pages(pages, tags).len() > 0 <==> any_changed(pages),
        batch_pages(pages, tags).len() <= permit_count(pages),
    decreases pages.len(),
{
    if pages.len() > 0 {
        let rest = pages.drop_last();
        lemma_batch_len(rest, tags);
        if any_changed(rest) {
            let i = choose|i: int| 0 <= i < rest.len() && is_changed((#[trigger] rest[i]).state);
            assert(is_changed(pages[i].state));
        }
        if any_changed(pages) && !is_changed(pages.last().state) {
            let i = choose|i: int|
                0 <= i < pages.len() && is_changed((#[trigger] pages[i]).state);
            assert(rest[i] == pages[i]);
        }
        if is_changed(pages.last().state) {
            assert(is_changed(pages[pages.len() - 1].state));
        }
    }
}

proof fn lemma_pages_ok_update(
    tags: Seq<Option<u64>>,
    pages: Seq<PageData>,
    at: int,
    page: PageData,
)
    requires
        pages_ok(tags, pages),
        0 <= at < pages.len(),
        page.key == pages[at].key,
        page_ok(tags, page),
    ensures
        pages_ok(tags, pages.update(at, page)),
{
    let updated = pages.update(at, page);
    assert forall|i: int, j: int| 0 <= i < j < updated.len() implies (
    #[trigger] updated[i]).key != (#[trigger] updated[j]).key by {
        assert(pages[i].key != pages[j].key);
    }
    assert forall|i: int| 0 <= i < updated.len() implies page_ok(tags, #[trigger] updated[i]) by {
        assert(page_ok(tags, pages[i]));
    }
}

proof fn lemma_pages_ok_remove(tags: Seq<Option<u64>>, pages: Seq<PageData>, at: int)
    requires
        pages_ok(tags, pages),
        0 <= at < pages.len(),
    ensures
        pages_ok(tags, pages.remove(at)),
{
    let removed = pages.remove(at);
    assert forall|i: int| 0 <= i < removed.len() implies page_ok(tags, #[trigger] removed[i]) by {
        if i < at {
            assert(removed[i] == pages[i]);
        } else {
            assert(removed[i] == pages[i + 1]);
        }
    }
    assert forall|i: int, j: int| 0 <= i < j < removed.len() implies (
    #[trigger] removed[i]).key != (#[trigger] removed[j]).key by {
        let i2 = if i < at {
            i
        } else {
            i + 1
        };
        let j2 = if j < at {
            j
        } else {
            j + 1
        };
        assert(pages[i2].key != pages[j2].key);
    }
}

/// A commit leaves no change behind: every page that was changed is in the
/// batch and is clean afterwards, under the LSN of the batch. So of two
/// changes the one that was made earlier is in the same batch or in one with
/// a lower LSN.
pub proof fn law_commit_takes_every_change(
    pages: Seq<PageData>,
    tags: Seq<Option<u64>>,
    lsn: u64,
    i: int,
)
    requires
        0 <= i < pages.len(),
    ensures
        !is_changed(committed_pages(pages, lsn)[i].state),
        is_changed(pages[i].state) ==> {
            &&& committed_pages(pages, lsn)[i].committed_lsn == Some(lsn)
            &&& committed_pages(pages, lsn)[i].data == pages[i].data
            &&& batch_pages(pages, tags).contains(
                (page_offset(tags, pages[i].key), pages[i].data->0@),
            )
        },
        !is_changed(pages[i].state) ==> committed_pages(pages, lsn)[i] == pages[i],
    decreases pages.len(),
{
    let rest = pages.drop_last();
    let entry = (page_offset(tags, pages[i].key), pages[i].data->0@);
    if is_changed(pages[i].state) {
        if i < pages.len() - 1 {
            law_commit_takes_every_change(rest, tags, lsn, i);
            let k = choose|k: int|
                0 <= k < batch_pages(rest, tags).len() && batch_pages(rest, tags)[k] == entry;
            assert(batch_pages(pages, tags)[k] == entry);
        } else {
            assert(batch_pages(pages, tags).last() == entry);
        }
    }
}

/// The log entry of a batch waits for the flush that any of its pages waits
/// for: a page that may be logged only after an FSN is in a batch that is
/// logged only after that FSN or a later one.
pub proof fn law_batch_waits_for_every_page(pages: Seq<PageData>, i: int)
    requires
        0 <= i < pages.len(),
        is_changed(pages[i].state),
        pages[i].pre_log_fsn is Some,
    ensures
        batch_fsn(pages) matches Some(fsn) && fsn >= pages[i].pre_log_fsn->0,
    decreases pages.len(),
{
    if i < pages.len() - 1 {
        law_batch_waits_for_every_page(pages.drop_last(), i);
    }
}

/// A batch is no larger than the number of pages that hold a permit.
pub proof fn law_batch_is_within_the_permits(pages: Seq<PageData>, tags: Seq<Option<u64>>)
    ensures
        batch_pages(pages, tags).len() <= permit_count(pages),
{
    lemma_batch_len(pages, tags);
}

/// Making room never drops a page that is changed, that waits for a load or a
/// permit, whose commit is not applied yet, or that is about to be used.
pub proof fn law_eviction_keeps_what_is_needed(
    pages: Seq<PageData>,
    quota: usize,
    applied: u64,
    key: PageKey,
    i: int,
)
    requires
        0 <= i < pages.len(),
        !evictable(pages[i], applied, key),
    ensures
        after_eviction(pages, quota, applied, key).contains(pages[i]),
{
    let at = first_evictable(pages, applied, key);
    lemma_first_evictable(pages, applied, key);
    let kept = after_eviction(pages, quota, applied, key);
    if quota > 0 && pages.len() >= quota && at < pages.len() {
        if i < at {
            assert(kept[i] == pages[i]);
        } else {
            assert(kept[i - 1] == pages[i]);
        }
    } else {
        assert(kept[i] == pages[i]);
    }
}

/// A reader of a page finds it as it is cached: neither making room for it
/// nor looking it up changes it.
proof fn lemma_prepared_keeps_page(
    pages: Seq<PageData>,
    quota: usize,
    applied: u64,
    key: PageKey,
    i: int,
)
    requires
        keys_distinct(pages),
        0 <= i < pages.len(),
        pages[i].key == key,
    ensures
        ({
            let found = prepared(pages, quota, applied, key);
            &&& page_index(found, key) < found.len()
            &&& found[page_index(found, key)] == pages[i]
        }),
{
    let roomy = after_eviction(pages, quota, applied, key);
    law_eviction_keeps_what_is_needed(pages, quota, applied, key, i);
    lemma_first_evictable(pages, applied, key);
    lemma_page_index(roomy, key);
    let at = choose|at: int| 0 <= at < roomy.len() && roomy[at] == pages[i];
    assert(roomy[at].key == key);
    let n = page_index(roomy, key);
    assert(n <= at);
    assert(n == at) by {
        if n < at {
            let gone = first_evictable(pages, applied, key);
            let n2 = if roomy == pages || n < gone {
                n
            } else {
                n + 1
            };
            let at2 = if roomy == pages || at < gone {
                at
            } else {
                at + 1
            };
            assert(pages[n2].key != pages[at2].key);
        }
    }
}

/// What an acquirer finds of a page: the cached one, or a fresh one.
proof fn lemma_prepared_page(pages: Seq<PageData>, quota: usize, applied: u64, key: PageKey)
    requires
        keys_distinct(pages),
    ensures
        ({
            let found = prepared(pages, quota, applied, key);
            let n = page_index(pages, key);
            &&& page_index(found, key) < found.len()
            &&& found[page_index(found, key)] == (if n < pages.len() {
                pages[n]
            } else {
                fresh_page(key)
            })
        }),
{
    lemma_page_index(pages, key);
    let n = page_index(pages, key);
    if n < pages.len() {
        lemma_prepared_keeps_page(pages, quota, applied, key, n);
    } else {
        let roomy = after_eviction(pages, quota, applied, key);
        let gone = first_evictable(pages, applied, key);
        lemma_first_evictable(pages, applied, key);
        assert forall|i: int| 0 <= i < roomy.len() implies (#[trigger] roomy[i]).key != key by {
            let at = if roomy == pages || i < gone {
                i
            } else {
                i + 1
            };
            assert(pages[at].key != key);
            assert(roomy[i] == pages[at]);
        }
        lemma_page_index_is(roomy, key, roomy.len() as int);
        let found = prepared(pages, quota, applied, key);
        lemma_page_index_is(found, key, roomy.len() as int);
    }
}

proof fn lemma_batch_pages_remove(pages: Seq<PageData>, tags: Seq<Option<u64>>, at: int)
    requires
        0 <= at < pages.len(),
        !is_changed(pages[at].state),
    ensures
        batch_pages(pages.remove(at), tags) == batch_pages(pages, tags),
    decreases pages.len(),
{
    let removed = pages.remove(at);
    if at == pages.len() - 1 {
        assert(removed =~= pages.drop_last());
    } else {
        assert(removed.drop_last() =~= pages.drop_last().remove(at));
        lemma_batch_pages_remove(pages.drop_last(), tags, at);
        assert(removed.last() == pages.last());
    }
}

/// An acquirer finds as many pages with a permit, and the same changes, as
/// there were.
proof fn lemma_prepared_counts(
    pages: Seq<PageData>,
    tags: Seq<Option<u64>>,
    quota: usize,
    applied: u64,
    key: PageKey,
)
    ensures
        permit_count(prepared(pages, quota, applied, key)) == permit_count(pages),
        batch_pages(prepared(pages, quota, applied, key), tags) == batch_pages(pages, tags),
        forall|i: int|
            0 <= i < prepared(pages, quota, applied, key).len() ==> {
                ||| (#[trigger] prepared(pages, quota, applied, key)[i]) == fresh_page(key)
                ||| pages.contains(prepared(pages, quota, applied, key)[i])
            },
{
    let roomy = after_eviction(pages, quota, applied, key);
    let gone = first_evictable(pages, applied, key);
    lemma_first_evictable(pages, applied, key);
    if roomy != pages {
        lemma_permit_count_remove(pages, gone);
        lemma_batch_pages_remove(pages, tags, gone);
    }
    let found = prepared(pages, quota, applied, key);
    if found != roomy {
        lemma_permit_count_push(roomy, fresh_page(key));
        assert(found.drop_last() =~= roomy);
    }
    assert forall|i: int| 0 <= i < found.len() implies (#[trigger] found[i]) == fresh_page(key)
        || pages.contains(found[i]) by {
        if i < roomy.len() {
            let at = if roomy == pages || i < gone {
                i
            } else {
                i + 1
            };
            assert(found[i] == pages[at]);
        }
    }
}

/// Nobody is at work on a page: each is unchanged, or changed and waits for
/// the next commit.
pub open spec fn at_rest(pages: Seq<PageData>) -> bool {
    forall|i: int|
        0 <= i < pages.len() ==> (#[trigger] pages[i]).state == PageState::Clean || is_changed(
            pages[i].state,
        )
}

/// Nobody acquires a permit.
pub open spec fn no_permit_pending(pages: Seq<PageData>) -> bool {
    forall|i: int| 0 <= i < pages.len() ==> (#[trigger] pages[i]).state != PageState::AcquiringPermit
}

proof fn lemma_at_rest(pages: Seq<PageData>, tags: Seq<Option<u64>>, lsn: u64)
    requires
        at_rest(pages),
    ensures
        batch_pages(pages, tags).len() == permit_count(pages),
        permit_count(committed_pages(pages, lsn)) == 0,
    decreases pages.len(),
{
    if pages.len() > 0 {
        let rest = pages.drop_last();
        assert(at_rest(rest)) by {
            assert forall|i: int| 0 <= i < rest.len() implies (#[trigger] rest[i]).state
                == PageState::Clean || is_changed(rest[i].state) by {
                assert(rest[i] == pages[i]);
            }
        }
        lemma_at_rest(rest, tags, lsn);
        assert(committed_pages(pages, lsn).drop_last() =~= committed_pages(rest, lsn));
        assert(pages[pages.len() - 1] == pages.last());
    }
}

proof fn lemma_permit_count_committed(pages: Seq<PageData>, lsn: u64)
    ensures
        permit_count(committed_pages(pages, lsn)) <= permit_count(pages),
    decreases pages.len(),
{
    if pages.len() > 0 {
        lemma_permit_count_committed(pages.drop_last(), lsn);
        assert(committed_pages(pages, lsn).drop_last() =~= committed_pages(pages.drop_last(), lsn));
    }
}

/// With one user at a time there are never more changed pages than fit a
/// batch: as long as nobody else acquires a permit, to acquire a page and to
/// take its permit keeps the number of pages with a permit within the limit.
pub proof fn law_dirty_pages_stay_within_a_batch(
    before: PageCache,
    key: PageKey,
    load: bool,
    applied: u64,
    acquired: PageCache,
    r: WriteAcquire,
    success: bool,
    after: PageCache,
)
    requires
        before.wf(),
        no_permit_pending(before.pages@),
        permit_count(before.pages@) <= MAX_COMMIT_PAGES,
        before.write_acquired(key, load, applied, acquired, r),
        r == WriteAcquire::AcquirePermit ==> acquired.permit_finalized(key, success, after),
        r != WriteAcquire::AcquirePermit ==> after == acquired,
    ensures
        no_permit_pending(after.pages@),
        permit_count(acquired.pages@) <= MAX_COMMIT_PAGES,
        permit_count(after.pages@) <= MAX_COMMIT_PAGES,
        batch_pages(after.pages@, after.tags@).len() <= MAX_COMMIT_PAGES,
{
    let pages = prepared(before.pages@, before.quota, applied, key);
    let i = page_index(pages, key);
    lemma_prepared_counts(before.pages@, before.tags@, before.quota, applied, key);
    lemma_prepared_page(before.pages@, before.quota, applied, key);
    lemma_page_index(pages, key);
    assert(no_permit_pending(pages)) by {
        assert forall|k: int| 0 <= k < pages.len() implies (#[trigger] pages[k]).state
            != PageState::AcquiringPermit by {
            if pages[k] != fresh_page(key) {
                let at = choose|at: int| 0 <= at < before.pages@.len() && before.pages@[at] == pages[k];
                assert(before.pages@[at].state != PageState::AcquiringPermit);
            }
        }
    }
    lemma_permit_count_update(pages, i, acquired.pages@[i]);
    lemma_permit_count_committed(pages, (before.current_lsn + 1) as u64);
    if r == WriteAcquire::AcquirePermit {
        assert forall|k: int| 0 <= k < i implies (#[trigger] acquired.pages@[k]).key != key by {
            assert(acquired.pages@[k] == pages[k]);
        }
        lemma_page_index_is(acquired.pages@, key, i);
        lemma_permit_count_update(acquired.pages@, i, after.pages@[i]);
        assert forall|k: int| 0 <= k < after.pages@.len() implies (#[trigger] after.pages@[k]).state
            != PageState::AcquiringPermit by {
            if k != i {
                assert(after.pages@[k] == pages[k]);
            }
        }
    } else {
        assert forall|k: int| 0 <= k < after.pages@.len() implies (#[trigger] after.pages@[k]).state
            != PageState::AcquiringPermit by {
            assert(pages[k].state != PageState::AcquiringPermit);
        }
    }
    lemma_batch_len(after.pages@, after.tags@);
}

/// With one user at a time, a page that is to be changed while a whole batch
/// of others is gets its permit only after exactly those others were handed
/// on as one batch.
pub proof fn law_full_batch_is_committed_first(
    before: PageCache,
    key: PageKey,
    load: bool,
    applied: u64,
    committed: PageCache,
    r: WriteAcquire,
    applied_then: u64,
    again: PageCache,
    r_again: WriteAcquire,
)
    requires
        before.wf(),
        before.current_lsn < u64::MAX,
        at_rest(before.pages@),
        permit_count(before.pages@) == MAX_COMMIT_PAGES,
        before.cached(key) ==> !is_changed(before.page(key).state),
        load ==> before.cached(key) && before.page(key).data is Some,
        before.write_acquired(key, load, applied, committed, r),
        committed.wf(),
        committed.write_acquired(key, load, applied_then, again, r_again),
    ensures
        r matches WriteAcquire::Retry(Some(batch)) && {
            &&& batch.lsn == before.current_lsn + 1
            &&& batch.pages@.len() == MAX_COMMIT_PAGES
            &&& batch.pages@.map_values(|p: CommittedPage| page_view(p)) == batch_pages(
                before.pages@,
                before.tags@,
            )
        },
        permit_count(committed.pages@) == 0,
        r_again == WriteAcquire::AcquirePermit,
        again.current_lsn == committed.current_lsn,
{
    let lsn = (before.current_lsn + 1) as u64;
    let pages = prepared(before.pages@, before.quota, applied, key);
    let i = page_index(pages, key);
    lemma_prepared_counts(before.pages@, before.tags@, before.quota, applied, key);
    lemma_prepared_page(before.pages@, before.quota, applied, key);
    lemma_page_index(before.pages@, key);
    lemma_page_index(pages, key);
    assert(at_rest(pages)) by {
        assert forall|k: int| 0 <= k < pages.len() implies (#[trigger] pages[k]).state
            == PageState::Clean || is_changed(pages[k].state) by {
            if pages[k] != fresh_page(key) {
                let at = choose|at: int| 0 <= at < before.pages@.len() && before.pages@[at] == pages[k];
                assert(before.pages@[at].state == PageState::Clean || is_changed(
                    before.pages@[at].state,
                ));
            }
        }
    }
    lemma_at_rest(pages, before.tags@, lsn);
    lemma_batch_len(pages, before.tags@);
    assert(pages[i].state == PageState::Clean);
    let batch = r->Retry_0->0;
    assert(batch.pages@.map_values(|p: CommittedPage| page_view(p)).len() == batch.pages@.len());
    assert(committed.pages@[i] == pages[i]);
    assert forall|k: int| 0 <= k < i implies (#[trigger] committed.pages@[k]).key != key by {
        assert(pages[k].key != key);
    }
    lemma_page_index_is(committed.pages@, key, i);
    lemma_prepared_page(committed.pages@, committed.quota, applied_then, key);
    lemma_prepared_counts(committed.pages@, committed.tags@, committed.quota, applied_then, key);
}

proof fn lemma_batch_pages_update(
    pages: Seq<PageData>,
    tags: Seq<Option<u64>>,
    at: int,
    page: PageData,
)
    requires
        0 <= at < pages.len(),
        !is_changed(pages[at].state),
        !is_changed(page.state),
    ensures
        batch_pages(pages.update(at, page), tags) == batch_pages(pages, tags),
    decreases pages.len(),
{
    let updated = pages.update(at, page);
    if at == pages.len() - 1 {
        assert(updated.drop_last() =~= pages.drop_last());
    } else {
        assert(updated.drop_last() =~= pages.drop_last().update(at, page));
        lemma_batch_pages_update(pages.drop_last(), tags, at, page);
        assert(updated.last() == pages.last());
    }
}

/// With one user at a time, a page that has to be loaded to be changed is
/// loaded first, and then the same holds: exactly the changed pages that make
/// up a whole batch are handed on as one, and only then is the permit asked
/// for.
pub proof fn law_full_batch_is_committed_after_the_load(
    before: PageCache,
    key: PageKey,
    applied: u64,
    loading: PageCache,
    r: WriteAcquire,
    bytes: Arc<Vec<u8>>,
    loaded: PageCache,
    applied_loaded: u64,
    committed: PageCache,
    r_loaded: WriteAcquire,
    applied_then: u64,
    again: PageCache,
    r_again: WriteAcquire,
)
    requires
        before.wf(),
        before.current_lsn < u64::MAX,
        at_rest(before.pages@),
        permit_count(before.pages@) == MAX_COMMIT_PAGES,
        before.cached(key) ==> before.page(key).data is None,
        before.write_acquired(key, true, applied, loading, r),
        loading.load_completed(key, Some(bytes), loaded),
        loaded.wf(),
        loaded.write_acquired(key, true, applied_loaded, committed, r_loaded),
        committed.wf(),
        committed.write_acquired(key, true, applied_then, again, r_again),
    ensures
        r == WriteAcquire::Load(page_offset(before.tags@, key) as u64),
        loaded.cached(key) && loaded.page(key).data == Some(bytes),
        r_loaded matches WriteAcquire::Retry(Some(batch)) && {
            &&& batch.lsn == before.current_lsn + 1
            &&& batch.pages@.len() == MAX_COMMIT_PAGES
            &&& batch.pages@.map_values(|p: CommittedPage| page_view(p)) == batch_pages(
                before.pages@,
                before.tags@,
            )
        },
        permit_count(committed.pages@) == 0,
        r_again == WriteAcquire::AcquirePermit,
        again.current_lsn == committed.current_lsn,
{
    let pages = prepared(before.pages@, before.quota, applied, key);
    let i = page_index(pages, key);
    lemma_prepared_counts(before.pages@, before.tags@, before.quota, applied, key);
    lemma_prepared_page(before.pages@, before.quota, applied, key);
    lemma_page_index(before.pages@, key);
    lemma_page_index(pages, key);
    if before.cached(key) {
        assert(page_ok(before.tags@, before.pages@[page_index(before.pages@, key)]));
    }
    assert(at_rest(pages)) by {
        assert forall|k: int| 0 <= k < pages.len() implies (#[trigger] pages[k]).state
            == PageState::Clean || is_changed(pages[k].state) by {
            if pages[k] != fresh_page(key) {
                let at = choose|at: int| 0 <= at < before.pages@.len() && before.pages@[at] == pages[k];
                assert(before.pages@[at].state == PageState::Clean || is_changed(
                    before.pages@[at].state,
                ));
            }
        }
    }
    assert(pages[i].state == PageState::Clean);
    assert forall|k: int| 0 <= k < i implies (#[trigger] loading.pages@[k]).key != key by {
        assert(loading.pages@[k] == pages[k]);
    }
    lemma_page_index_is(loading.pages@, key, i);
    let page = loaded.pages@[i];
    assert(loaded.pages@ =~= pages.update(i, page));
    assert forall|k: int| 0 <= k < i implies (#[trigger] loaded.pages@[k]).key != key by {
        assert(loaded.pages@[k] == pages[k]);
    }
    lemma_page_index_is(loaded.pages@, key, i);
    lemma_permit_count_update(pages, i, page);
    lemma_batch_pages_update(pages, before.tags@, i, page);
    assert(at_rest(loaded.pages@)) by {
        assert forall|k: int| 0 <= k < loaded.pages@.len() implies (
        #[trigger] loaded.pages@[k]).state == PageState::Clean || is_changed(
            loaded.pages@[k].state,
        ) by {
            if k != i {
                assert(loaded.pages@[k] == pages[k]);
            }
        }
    }
    law_full_batch_is_committed_first(
        loaded,
        key,
        true,
        applied_loaded,
        committed,
        r_loaded,
        applied_then,
        again,
        r_again,
    );
}

/// A page whose permit came can be written at once: with its bytes if it had
/// some, with zeros to be overwritten otherwise.
pub proof fn law_permit_makes_a_page_ready(
    acquiring: PageCache,
    key: PageKey,
    permitted: PageCache,
    load: bool,
    applied: u64,
    acquired: PageCache,
    r: WriteAcquire,
)
    requires
        acquiring.wf(),
        acquiring.cached(key),
        acquiring.permit_finalized(key, true, permitted),
        permitted.wf(),
        permitted.write_acquired(key, load, applied, acquired, r),
    ensures
        r == WriteAcquire::Ready,
        acquired.cached(key),
        acquired.page(key).data is Some,
        acquiring.page(key).data is Some ==> acquired.page(key).data == acquiring.page(key).data,
        acquired.current_lsn == acquiring.current_lsn,
{
    let i = page_index(acquiring.pages@, key);
    lemma_page_index(acquiring.pages@, key);
    assert forall|k: int| 0 <= k < i implies (#[trigger] permitted.pages@[k]).key != key by {
        assert(permitted.pages@[k] == acquiring.pages@[k]);
    }
    lemma_page_index_is(permitted.pages@, key, i);
    lemma_prepared_page(permitted.pages@, permitted.quota, applied, key);
}

/// A page that is changed already is acquired at once, as it is, and nothing
/// is handed on for it. A page that is overwritten as a whole is not loaded.
pub proof fn law_changed_page_is_acquired_as_it_is(
    before: PageCache,
    key: PageKey,
    load: bool,
    applied: u64,
    acquired: PageCache,
    r: WriteAcquire,
)
    requires
        before.wf(),
        before.write_acquired(key, load, applied, acquired, r),
    ensures
        before.cached(key) && is_changed(before.page(key).state) ==> {
            &&& r == WriteAcquire::Ready
            &&& acquired.cached(key)
            &&& acquired.page(key) == before.page(key)
            &&& acquired.current_lsn == before.current_lsn
        },
        !load ==> !(r is Load),
{
    lemma_prepared_page(before.pages@, before.quota, applied, key);
}

/// What is written to a page is read back from it, before a commit and after
/// it, whatever was dropped to make room.
pub proof fn law_written_page_is_read_back(
    pages: Seq<PageData>,
    quota: usize,
    applied: u64,
    key: PageKey,
    data: Arc<Vec<u8>>,
    lsn: u64,
)
    requires
        keys_distinct(pages),
        page_index(pages, key) < pages.len(),
    ensures
        ({
            let i = page_index(pages, key);
            let written = pages.update(
                i,
                PageData { state: PageState::Dirty, data: Some(data), ..pages[i] },
            );
            let before = prepared(written, quota, applied, key);
            let after = prepared(committed_pages(written, lsn), quota, applied, key);
            &&& before[page_index(before, key)].state == PageState::Dirty
            &&& before[page_index(before, key)].data == Some(data)
            &&& after[page_index(after, key)].state == PageState::Clean
            &&& after[page_index(after, key)].data == Some(data)
        }),
{
    lemma_page_index(pages, key);
    let i = page_index(pages, key);
    let written = pages.update(
        i,
        PageData { state: PageState::Dirty, data: Some(data), ..pages[i] },
    );
    assert(keys_distinct(written)) by {
        assert forall|a: int, b: int| 0 <= a < b < written.len() implies (
        #[trigger] written[a]).key != (#[trigger] written[b]).key by {
            assert(pages[a].key != pages[b].key);
        }
    }
    let committed = committed_pages(written, lsn);
    assert(keys_distinct(committed)) by {
        assert forall|a: int, b: int| 0 <= a < b < committed.len() implies (
        #[trigger] committed[a]).key != (#[trigger] committed[b]).key by {
            assert(written[a].key != written[b].key);
        }
    }
    lemma_prepared_keeps_page(written, quota, applied, key, i);
    lemma_prepared_keeps_page(committed, quota, applied, key, i);
}

proof fn lemma_first_evictable(pages: Seq<PageData>, applied: u64, skip: PageKey)
    ensures
        0 <= first_evictable(pages, applied, skip) <= pages.len(),
        first_evictable(pages, applied, skip) < pages.len() ==> evictable(
            pages[first_evictable(pages, applied, skip)],
            applied,
            skip,
        ),
        forall|i: int|
            0 <= i < first_evictable(pages, applied, skip) ==> !evictable(
                #[trigger] pages[i],
                applied,
                skip,
            ),
    decreases pages.len(),
{
    if pages.len() > 0 && !evictable(pages[0], applied, skip) {
        let rest = pages.skip(1);
        lemma_first_evictable(rest, applied, skip);
        assert forall|i: int| 0 <= i < first_evictable(pages, applied, skip) implies !evictable(
            #[trigger] pages[i],
            applied,
            skip,
        ) by {
            if i > 0 {
                assert(pages[i] == rest[i - 1]);
            }
        }
    }
}

/// A page is in the file as far behind the start of its region as its key
/// says.
pub proof fn law_page_is_at_its_offset(tags: Seq<Option<u64>>, key: PageKey, base: u64)
    requires
        tags.len() == 256,
        tags[key.tag as int] == Some(base),
    ensures
        page_offset(tags, key) - base == key.offset,
{
}

/// The permits that are counted are those of the pages that hold one: the
/// pages that may be changed and those that are. The last are in the batch.
pub proof fn law_permits_are_counted(pages: Seq<PageData>, tags: Seq<Option<u64>>)
    ensures
        permit_count(pages) == pages.filter(
            |p: PageData| p.state is HasPermit || p.state is Overwritten || p.state is Dirty,
        ).len(),
        batch_pages(pages, tags).len() == pages.filter(
            |p: PageData| p.state is Overwritten || p.state is Dirty,
        ).len(),
    decreases pages.len(),
{
    reveal(Seq::filter);
    if pages.len() > 0 {
        law_permits_are_counted(pages.drop_last(), tags);
    }
}

/// A batch holds the pages that are changed and no others, each at its place
/// in the file and with the bytes that it has.
pub proof fn law_batch_holds_the_changed_pages(
    pages: Seq<PageData>,
    tags: Seq<Option<u64>>,
    place: int,
    bytes: Seq<u8>,
)
    ensures
        batch_pages(pages, tags).contains((place, bytes)) <==> exists|i: int|
            0 <= i < pages.len() && ((#[trigger] pages[i]).state is Dirty || pages[i].state
                is Overwritten) && place == tags[pages[i].key.tag as int]->0 + pages[i].key.offset
                && bytes == pages[i].data->0@,
    decreases pages.len(),
{
    if pages.len() > 0 {
        let rest = pages.drop_last();
        let last = pages[pages.len() - 1];
        law_batch_holds_the_changed_pages(rest, tags, place, bytes);
        let before = batch_pages(rest, tags);
        let all = batch_pages(pages, tags);
        if last.state is Dirty || last.state is Overwritten {
            let new = (page_offset(tags, last.key), last.data->0@);
            assert(all == before.push(new));
            assert(all[before.len() as int] == new);
            if before.contains((place, bytes)) {
                let k = choose|k: int| 0 <= k < before.len() && before[k] == (place, bytes);
                assert(all[k] == (place, bytes));
            }
            if all.contains((place, bytes)) && new != (place, bytes) {
                let k = choose|k: int| 0 <= k < all.len() && all[k] == (place, bytes);
                assert(before[k] == (place, bytes));
            }
        }
        if before.contains((place, bytes)) {
            let i = choose|i: int|
                0 <= i < rest.len() && ((#[trigger] rest[i]).state is Dirty || rest[i].state
                    is Overwritten) && place == tags[rest[i].key.tag as int]->0
                    + rest[i].key.offset && bytes == rest[i].data->0@;
            assert(pages[i] == rest[i]);
        }
        assert forall|i: int|
            0 <= i < rest.len() && ((#[trigger] pages[i]).state is Dirty || pages[i].state
                is Overwritten) && place == tags[pages[i].key.tag as int]->0 + pages[i].key.offset
                && bytes == pages[i].data->0@ implies before.contains((place, bytes)) by {
            assert(rest[i] == pages[i]);
        }
    }
}

/// The flush that a batch waits for is the latest of those that its pages wait
/// for, and it waits for none if they do not.
pub proof fn law_batch_waits_for_a_page(pages: Seq<PageData>)
    ensures
        batch_fsn(pages) matches Some(fsn) ==> exists|i: int|
            0 <= i < pages.len() && ((#[trigger] pages[i]).state is Dirty || pages[i].state
                is Overwritten) && pages[i].pre_log_fsn == Some(fsn),
    decreases pages.len(),
{
    if pages.len() > 0 {
        let rest = pages.drop_last();
        law_batch_waits_for_a_page(rest);
        if let Some(fsn) = batch_fsn(pages) {
            if batch_fsn(rest) == Some(fsn) {
                let i = choose|i: int|
                    0 <= i < rest.len() && ((#[trigger] rest[i]).state is Dirty || rest[i].state
                        is Overwritten) && rest[i].pre_log_fsn == Some(fsn);
                assert(pages[i] == rest[i]);
            } else {
                assert(pages[pages.len() - 1].pre_log_fsn == Some(fsn));
            }
        }
    }
}

/// Of two flushes to wait for, the later one is waited for.
pub proof fn law_later_flush_is_waited_for(a: Option<u64>, b: Option<u64>)
    ensures
        max_fsn(a, b) is None <==> a is None && b is None,
        max_fsn(a, b) is Some ==> max_fsn(a, b) == a || max_fsn(a, b) == b,
        a matches Some(x) ==> max_fsn(a, b)->0 >= x,
        b matches Some(y) ==> max_fsn(a, b)->0 >= y,
{
}

/// A commit leaves the pages as they are, but that those that were changed are
/// clean, remember the commit and wait for no flush any more.
pub proof fn law_commit_cleans_the_pages(pages: Seq<PageData>, lsn: u64, i: int)
    requires
        0 <= i < pages.len(),
    ensures
        committed_pages(pages, lsn).len() == pages.len(),
        committed_pages(pages, lsn)[i] == (if pages[i].state is Dirty || pages[i].state
            is Overwritten {
            PageData {
                key: pages[i].key,
                data: pages[i].data,
                state: PageState::Clean,
                pre_log_fsn: None,
                committed_lsn: Some(lsn),
            }
        } else {
            pages[i]
        }),
        ({
            let changed = exists|k: int|
                0 <= k < pages.len() && ((#[trigger] pages[k]).state is Dirty || pages[k].state
                    is Overwritten);
            lsn < u64::MAX ==> lsn_after(pages, lsn) == lsn + (if changed {
                1int
            } else {
                0
            })
        }),
{
    if any_changed(pages) {
        let k = choose|k: int| 0 <= k < pages.len() && is_changed((#[trigger] pages[k]).state);
        assert(pages[k].state is Dirty || pages[k].state is Overwritten);
    }
    assert forall|k: int|
        0 <= k < pages.len() && ((#[trigger] pages[k]).state is Dirty || pages[k].state
            is Overwritten) implies any_changed(pages) by {
        assert(is_changed(pages[k].state));
    }
}

/// At most one page is dropped to make room, and only if the cache is full: a
/// clean one that is loaded, is not the wanted one and whose last commit, if
/// it had one, is applied. If there is such a page when the cache is full, one
/// is dropped.
pub proof fn law_eviction_drops_one_applied_page(
    pages: Seq<PageData>,
    quota: usize,
    applied: u64,
    key: PageKey,
    i: int,
)
    requires
        0 <= i < pages.len(),
    ensures
        ({
            let left = after_eviction(pages, quota, applied, key);
            let page = pages[i];
            let droppable = page.key != key && page.state is Clean && page.data is Some && (
            page.committed_lsn is None || page.committed_lsn->0 <= applied);
            &&& pages.len() - 1 <= left.len() <= pages.len()
            &&& quota == 0 || pages.len() < quota ==> left == pages
            &&& !droppable ==> left.contains(page)
            &&& droppable && quota > 0 && pages.len() >= quota ==> left.len() == pages.len() - 1
        }),
{
    lemma_first_evictable(pages, applied, key);
    if !evictable(pages[i], applied, key) {
        law_eviction_keeps_what_is_needed(pages, quota, applied, key, i);
    } else {
        assert(first_evictable(pages, applied, key) <= i);
    }
}

/// How a page is acquired for writing: one that is being loaded or is waiting
/// for a permit is waited for; one that has a permit is ready; one that has to
/// be loaded first is, from its place in the file; and otherwise a permit is
/// acquired, if there are fewer than 62, or everything changed is committed
/// first. A page that is not cached is as a clean one without data.
pub proof fn law_page_is_acquired_by_its_state(
    before: PageCache,
    key: PageKey,
    load: bool,
    applied: u64,
    acquired: PageCache,
    r: WriteAcquire,
)
    requires
        before.wf(),
        key_ok(before.tags@, key),
        before.write_acquired(key, load, applied, acquired, r),
    ensures
        ({
            let (state, loaded) = if before.cached(key) {
                (before.page(key).state, before.page(key).data is Some)
            } else {
                (PageState::Clean, false)
            };
            let free = state is Clean && (loaded || !load);
            let permits = before.pages@.filter(
                |p: PageData| p.state is HasPermit || p.state is Overwritten || p.state is Dirty,
            ).len();
            &&& r is Wait <==> state is Loading || state is AcquiringPermit
            &&& r is Ready <==> state is HasPermit || state is Overwritten || state is Dirty
            &&& r is Load <==> state is Clean && load && !loaded
            &&& r matches WriteAcquire::Load(place) ==> place == before.tags@[key.tag as int]->0
                + key.offset
            &&& r is AcquirePermit <==> free && permits < 62
            &&& r is Retry <==> free && permits >= 62
        }),
{
    lemma_prepared_page(before.pages@, before.quota, applied, key);
    lemma_prepared_counts(before.pages@, before.tags@, before.quota, applied, key);
    law_permits_are_counted(before.pages@, before.tags@);
}

/// How a page is acquired for reading: one that is being loaded or is waiting
/// for a permit is waited for; one that has data is ready, with that data; and
/// otherwise it is loaded from its place in the file.
pub proof fn law_page_is_read_by_its_state(
    before: PageCache,
    key: PageKey,
    applied: u64,
    acquired: PageCache,
    r: ReadAcquire,
)
    requires
        before.wf(),
        key_ok(before.tags@, key),
        before.read_acquired(key, applied, acquired, r),
    ensures
        ({
            let waiting = before.cached(key) && (before.page(key).state is Loading || before.page(
                key,
            ).state is AcquiringPermit);
            &&& r is Wait <==> waiting
            &&& r is Ready <==> !waiting && before.cached(key) && before.page(key).data is Some
            &&& r matches ReadAcquire::Ready(data) ==> Some(data) == before.page(key).data
            &&& r matches ReadAcquire::Load(place) ==> place == before.tags@[key.tag as int]->0
                + key.offset
        }),
{
    lemma_prepared_page(before.pages@, before.quota, applied, key);
}

/// A permit makes a page one that may be changed, with the data that it has or
/// with zeros. Without the permit the page is clean again. No other page
/// changes, and the permit is counted.
pub proof fn law_permit_changes_its_page_alone(
    before: PageCache,
    key: PageKey,
    success: bool,
    after: PageCache,
    i: int,
)
    requires
        before.wf(),
        before.cached(key),
        before.permit_finalized(key, success, after),
        0 <= i < before.pages@.len(),
    ensures
        after.pages@.len() == before.pages@.len(),
        before.pages@[i].key != key ==> after.pages@[i] == before.pages@[i],
        before.pages@[i].key == key ==> {
            let page = after.pages@[i];
            &&& page.key == key
            &&& page.pre_log_fsn == before.pages@[i].pre_log_fsn
            &&& page.committed_lsn == before.pages@[i].committed_lsn
            &&& !success ==> page.state is Clean && page.data == before.pages@[i].data
            &&& success && before.pages@[i].data is Some ==> page.state is HasPermit && page.data
                == before.pages@[i].data
            &&& success && before.pages@[i].data is None ==> {
                &&& page.state is Overwritten
                &&& page.data is Some
                &&& page.data->0@.len() == 4096
                &&& forall|b: int| 0 <= b < 4096 ==> #[trigger] page.data->0@[b] == 0
            }
        },
        after.dirty_count == before.dirty_count + (if success {
            1int
        } else {
            0
        }),
{
    lemma_page_index(before.pages@, key);
    let n = page_index(before.pages@, key);
    if i != n {
        assert(before.pages@[i].key != before.pages@[n].key);
    }
}

/// A load that succeeds makes its page clean, with the bytes that were read;
/// one that fails drops it. No other page changes.
pub proof fn law_load_changes_its_page_alone(
    before: PageCache,
    key: PageKey,
    data: Option<Arc<Vec<u8>>>,
    after: PageCache,
    i: int,
)
    requires
        before.wf(),
        before.cached(key),
        before.load_completed(key, data, after),
        0 <= i < before.pages@.len(),
    ensures
        before.pages@[i].key != key ==> after.pages@.contains(before.pages@[i]),
        data matches Some(bytes) ==> after.cached(key) && after.page(key).state is Clean
            && after.page(key).data == Some(bytes),
        data is None ==> !after.cached(key),
{
    lemma_page_index(before.pages@, key);
    let n = page_index(before.pages@, key);
    if let Some(bytes) = data {
        assert forall|k: int| 0 <= k < n implies (#[trigger] after.pages@[k]).key != key by {
            assert(before.pages@[k].key != key);
        }
        lemma_page_index_is(after.pages@, key, n);
        if i != n {
            assert(after.pages@[i] == before.pages@[i]);
        }
    } else {
        assert forall|k: int| 0 <= k < after.pages@.len() implies (
        #[trigger] after.pages@[k]).key != key by {
            if k < n {
                assert(after.pages@[k] == before.pages@[k]);
            } else {
                assert(after.pages@[k] == before.pages@[k + 1]);
                assert(before.pages@[n].key != before.pages@[k + 1].key);
            }
        }
        lemma_page_index_is(after.pages@, key, after.pages@.len() as int);
        if i < n {
            assert(after.pages@[i] == before.pages@[i]);
        } else if i > n {
            assert(after.pages@[i - 1] == before.pages@[i]);
        }
    }
}

/// To write a page changes that page alone: it is dirty and has the new bytes.
pub proof fn law_write_changes_its_page_alone(
    cache: &mut PageCache,
    key: PageKey,
    data: Arc<Vec<u8>>,
    i: int,
)
    requires
        old(cache).wf(),
        old(cache).cached(key),
        0 <= i < old(cache).pages@.len(),
        call_ensures(PageCache::write_page, (cache, key, data), ()),
    ensures
        final(cache).pages@.len() == old(cache).pages@.len(),
        old(cache).pages@[i].key != key ==> final(cache).pages@[i] == old(cache).pages@[i],
        old(cache).pages@[i].key == key ==> final(cache).pages@[i].state is Dirty
            && final(cache).pages@[i].data == Some(data) && final(cache).pages@[i].key == key
            && final(cache).pages@[i].pre_log_fsn == old(cache).pages@[i].pre_log_fsn
            && final(cache).pages@[i].committed_lsn == old(cache).pages@[i].committed_lsn,
{
    lemma_page_index(old(cache).pages@, key);
    let n = page_index(old(cache).pages@, key);
    if i != n {
        assert(old(cache).pages@[i].key != old(cache).pages@[n].key);
    }
}

/// A permit that was not used is given back, and only such a one; the page is
/// then clean, and nothing else changes.
pub proof fn law_unused_permit_is_given_back(
    cache: &mut PageCache,
    key: PageKey,
    r: bool,
    i: int,
)
    requires
        old(cache).wf(),
        old(cache).cached(key),
        0 <= i < old(cache).pages@.len(),
        call_ensures(PageCache::release_write, (cache, key), r),
    ensures
        r <==> old(cache).page(key).state is HasPermit,
        old(cache).pages@[i].key != key || !r ==> final(cache).pages@[i] == old(cache).pages@[i],
        old(cache).pages@[i].key == key && r ==> final(cache).pages@[i].state is Clean
            && final(cache).pages@[i].data == old(cache).pages@[i].data,
        final(cache).dirty_count + (if r {
            1int
        } else {
            0
        }) == old(cache).dirty_count,
{
    lemma_page_index(old(cache).pages@, key);
    let n = page_index(old(cache).pages@, key);
    if i != n {
        assert(old(cache).pages@[i].key != old(cache).pages@[n].key);
    }
}

/// A page waits for the latest of the flushes that it was made to wait for.
pub proof fn law_page_waits_for_the_latest_flush(
    cache: &mut PageCache,
    key: PageKey,
    fsn: u64,
    i: int,
)
    requires
        old(cache).wf(),
        0 <= i < old(cache).pages@.len(),
        call_ensures(PageCache::set_pre_log_fsn, (cache, key, fsn), ()),
    ensures
        final(cache).pages@.len() == old(cache).pages@.len(),
        old(cache).pages@[i].key != key ==> final(cache).pages@[i] == old(cache).pages@[i],
        old(cache).pages@[i].key == key ==> {
            let before = old(cache).pages@[i];
            let after = final(cache).pages@[i];
            &&& after.pre_log_fsn matches Some(latest) && latest >= fsn && (latest == fsn
                || before.pre_log_fsn == Some(latest)) && (before.pre_log_fsn matches Some(f)
                ==> latest >= f)
            &&& after == (PageData { pre_log_fsn: after.pre_log_fsn, ..before })
        },
{
    lemma_page_index(old(cache).pages@, key);
    let n = page_index(old(cache).pages@, key);
    if i != n && n < old(cache).pages@.len() {
        assert(old(cache).pages@[i].key != old(cache).pages@[n].key);
    }
}

/// A batch that is made outside the cache gets the next number, and leaves the
/// pages as they are.
pub proof fn law_outside_batch_gets_the_next_number(
    cache: &mut PageCache,
    raw_pages: Vec<CommittedPage>,
    pre_log_fsn: Option<u64>,
    r: CommitBatch,
)
    requires
        old(cache).wf(),
        old(cache).current_lsn < u64::MAX,
        call_ensures(PageCache::commit_raw, (cache, raw_pages, pre_log_fsn), r),
    ensures
        r.lsn == old(cache).current_lsn + 1,
        final(cache).current_lsn == r.lsn,
        r.pages@ == raw_pages@,
        r.pre_log_fsn == pre_log_fsn,
        final(cache).pages@ == old(cache).pages@,
{
}

} // verus!
