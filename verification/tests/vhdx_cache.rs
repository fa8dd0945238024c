//! The cache of metadata pages.

use std::sync::Arc;

use vm_devices::vhdx::cache::{
    CommitBatch, CommittedPage, PageCache, PageKey, PageState, ReadAcquire, WriteAcquire, WriteMode,
    MAX_COMMIT_PAGES, PAGE_SIZE,
};

fn key(page: u64) -> PageKey {
    PageKey {
        tag: 1,
        offset: page * PAGE_SIZE as u64,
    }
}

fn cache(quota: usize) -> PageCache {
    let mut cache = PageCache::new(quota);
    cache.register_tag(1, 0x10_0000);
    cache
}

fn page(byte: u8) -> Arc<Vec<u8>> {
    Arc::new(vec![byte; PAGE_SIZE])
}

fn load(cache: &mut PageCache, k: PageKey, byte: u8) {
    assert!(matches!(
        cache.try_acquire_read(k, 0),
        ReadAcquire::Load(offset) if offset == 0x10_0000 + k.offset
    ));
    cache.complete_load(k, Some(page(byte)));
}

fn read(cache: &mut PageCache, k: PageKey) -> Option<Vec<u8>> {
    match cache.try_acquire_read(k, 0) {
        ReadAcquire::Ready(data) => Some(data.to_vec()),
        _ => None,
    }
}

/// Acquires the page for overwriting, and writes it.
fn write(cache: &mut PageCache, k: PageKey, byte: u8) {
    loop {
        match cache.try_acquire_write(k, false, 0) {
            WriteAcquire::Ready => break,
            WriteAcquire::AcquirePermit => cache.finalize_permit(k, true),
            other => panic!("unexpected {other:?}"),
        }
    }
    cache.write_page(k, page(byte));
    assert!(!cache.release_write(k));
}

fn batch(taken: (u64, Option<CommitBatch>)) -> CommitBatch {
    taken.1.unwrap()
}

#[test]
fn page_is_loaded_once() {
    let mut cache = cache(0);
    assert!(matches!(
        cache.try_acquire_read(key(2), 0),
        ReadAcquire::Load(0x10_2000)
    ));
    // Others wait for the load.
    assert!(matches!(
        cache.try_acquire_read(key(2), 0),
        ReadAcquire::Wait
    ));
    assert!(matches!(
        cache.try_acquire_write(key(2), true, 0),
        WriteAcquire::Wait
    ));
    cache.complete_load(key(2), Some(page(7)));
    assert_eq!(read(&mut cache, key(2)).unwrap(), vec![7; PAGE_SIZE]);
}

#[test]
fn failed_load_is_tried_again() {
    let mut cache = cache(0);
    assert!(matches!(
        cache.try_acquire_read(key(0), 0),
        ReadAcquire::Load(_)
    ));
    cache.complete_load(key(0), None);
    assert!(cache.pages.is_empty());
    assert!(matches!(
        cache.try_acquire_read(key(0), 0),
        ReadAcquire::Load(_)
    ));
}

#[test]
fn written_page_is_read_back() {
    let mut cache = cache(0);
    load(&mut cache, key(0), 1);
    assert!(matches!(
        cache.try_acquire_write(key(0), true, 0),
        WriteAcquire::AcquirePermit
    ));
    // Nobody reads it while it waits for the permit.
    assert!(matches!(
        cache.try_acquire_read(key(0), 0),
        ReadAcquire::Wait
    ));
    cache.finalize_permit(key(0), true);
    assert!(cache.is_populated(key(0)));
    assert_eq!(read(&mut cache, key(0)).unwrap(), vec![1; PAGE_SIZE]);
    cache.write_page(key(0), page(9));
    assert_eq!(read(&mut cache, key(0)).unwrap(), vec![9; PAGE_SIZE]);
    cache.commit();
    assert_eq!(read(&mut cache, key(0)).unwrap(), vec![9; PAGE_SIZE]);
}

#[test]
fn overwritten_page_starts_as_zeros() {
    let mut cache = cache(0);
    assert!(matches!(
        cache.try_acquire_write(key(0), WriteMode::Overwrite.loads(), 0),
        WriteAcquire::AcquirePermit
    ));
    cache.finalize_permit(key(0), true);
    assert!(!cache.is_populated(key(0)));
    assert_eq!(cache.pages[0].state, PageState::Overwritten);
    assert_eq!(read(&mut cache, key(0)).unwrap(), vec![0; PAGE_SIZE]);
    // To change a part of it, it has to be loaded.
    assert!(WriteMode::Modify.loads());
    assert!(matches!(
        cache.try_acquire_write(key(1), WriteMode::Modify.loads(), 0),
        WriteAcquire::Load(0x10_1000)
    ));
}

#[test]
fn unchanged_page_gives_its_permit_back() {
    let mut cache = cache(0);
    load(&mut cache, key(0), 1);
    assert!(matches!(
        cache.try_acquire_write(key(0), true, 0),
        WriteAcquire::AcquirePermit
    ));
    cache.finalize_permit(key(0), true);
    assert_eq!(cache.dirty_count, 1);
    assert!(cache.release_write(key(0)));
    assert_eq!(cache.dirty_count, 0);
    assert_eq!(cache.pages[0].state, PageState::Clean);
    assert!(cache.commit().1.is_none());
}

#[test]
fn failed_permit_leaves_the_page_clean() {
    let mut cache = cache(0);
    load(&mut cache, key(0), 1);
    assert!(matches!(
        cache.try_acquire_write(key(0), true, 0),
        WriteAcquire::AcquirePermit
    ));
    cache.finalize_permit(key(0), false);
    assert_eq!(cache.dirty_count, 0);
    assert_eq!(cache.pages[0].state, PageState::Clean);
}

#[test]
fn commit_takes_all_changes_at_once() {
    let mut cache = cache(0);
    write(&mut cache, key(3), 3);
    write(&mut cache, key(1), 1);
    load(&mut cache, key(2), 2);
    let taken = batch(cache.commit());
    assert_eq!(taken.lsn, 1);
    assert_eq!(taken.pre_log_fsn, None);
    let offsets: Vec<u64> = taken.pages.iter().map(|p| p.file_offset).collect();
    assert_eq!(offsets, [0x10_3000, 0x10_1000]);
    assert_eq!(*taken.pages[0].data, vec![3; PAGE_SIZE]);
    assert_eq!(cache.dirty_count, 0);
    // There is nothing left.
    let (lsn, none) = cache.commit();
    assert_eq!(lsn, 1);
    assert!(none.is_none());
    write(&mut cache, key(1), 8);
    assert_eq!(batch(cache.commit()).lsn, 2);
}

#[test]
fn full_batch_is_committed_before_the_next_page() {
    let mut cache = cache(0);
    for n in 0..MAX_COMMIT_PAGES as u64 {
        write(&mut cache, key(n), n as u8);
    }
    assert_eq!(cache.dirty_count, 62);
    // A page of the batch can still be written.
    assert!(matches!(
        cache.try_acquire_write(key(5), true, 0),
        WriteAcquire::Ready
    ));
    let WriteAcquire::Retry(Some(taken)) = cache.try_acquire_write(key(100), false, 0) else {
        panic!("expected a commit");
    };
    assert_eq!(taken.pages.len(), 62);
    assert_eq!(cache.dirty_count, 0);
    write(&mut cache, key(100), 1);
    assert_eq!(batch(cache.commit()).lsn, 2);
}

#[test]
fn latest_flush_counts_for_the_batch() {
    let mut cache = cache(0);
    write(&mut cache, key(0), 0);
    write(&mut cache, key(1), 1);
    cache.set_pre_log_fsn(key(0), 5);
    cache.set_pre_log_fsn(key(0), 3);
    cache.set_pre_log_fsn(key(1), 4);
    cache.set_pre_log_fsn(key(9), 100);
    assert_eq!(cache.get_pre_log_fsn(key(0)), Some(5));
    assert_eq!(cache.get_pre_log_fsn(key(9)), None);
    assert_eq!(batch(cache.commit()).pre_log_fsn, Some(5));
    assert_eq!(cache.get_pre_log_fsn(key(0)), None);
}

#[test]
fn eviction_waits_for_commits_to_be_applied() {
    let mut cache = cache(2);
    write(&mut cache, key(0), 1);
    cache.commit();
    load(&mut cache, key(1), 2);
    // The commit of the first page is not applied: the second one goes.
    assert!(matches!(
        cache.try_acquire_read(key(2), 0),
        ReadAcquire::Load(_)
    ));
    let kept: Vec<PageKey> = cache.pages.iter().map(|p| p.key).collect();
    assert_eq!(kept, [key(0), key(2)]);
    // Now it is.
    assert!(matches!(
        cache.try_acquire_read(key(3), 1),
        ReadAcquire::Load(_)
    ));
    let kept: Vec<PageKey> = cache.pages.iter().map(|p| p.key).collect();
    assert_eq!(kept, [key(2), key(3)]);
    // Pages that are being loaded stay, beyond the quota.
    assert!(matches!(
        cache.try_acquire_read(key(4), 1),
        ReadAcquire::Load(_)
    ));
    assert_eq!(cache.pages.len(), 3);
}

#[test]
fn raw_pages_are_committed_as_they_are() {
    let mut cache = cache(0);
    let pages = vec![CommittedPage {
        file_offset: 77 * 4096,
        data: page(6),
    }];
    let taken = cache.commit_raw(pages, Some(2));
    assert_eq!(taken.lsn, 1);
    assert_eq!(taken.pages[0].file_offset, 77 * 4096);
    assert_eq!(taken.pre_log_fsn, Some(2));
    assert_eq!(cache.current_lsn, 1);
}

#[test]
fn tags_have_their_own_base() {
    let mut cache = cache(0);
    cache.register_tag(2, 0x40_0000);
    let k = PageKey {
        tag: 2,
        offset: 4096,
    };
    assert_eq!(cache.resolve_offset(k), 0x40_1000);
    assert_eq!(cache.resolve_offset(key(1)), 0x10_1000);
    cache.update_tag_offset(1, 0x20_0000);
    assert_eq!(cache.resolve_offset(key(1)), 0x20_1000);
}
