//! Flushes, log sequence numbers, and the log and apply tasks.

use std::sync::Arc;

use vm_devices::vhdx::apply_task::{finish_batch, ApplyBatch, ApplyPage};
use vm_devices::vhdx::error::{IoErrorKind, VhdxError};
use vm_devices::vhdx::flush::{FlushSequencer, FlushStep};
use vm_devices::vhdx::log_task::{
    data_pages, page_total, CommitAction, CommitEvent, LogClient, LogData, LogTask, LogTaskError,
    Lsn, Transaction,
};
use vm_devices::vhdx::lsn_watermark::{LsnWatermark, WaitStep};

#[test]
fn flush_is_issued_and_completed() {
    let mut fsn = FlushSequencer::new();
    assert_eq!(fsn.current_fsn(), 1);
    assert_eq!(fsn.flush(), (1, FlushStep::Issue(1)));
    assert_eq!(fsn.completed_fsn(), 0);
    assert_eq!(fsn.complete(1, true), Some(1));
    assert_eq!(fsn.completed_fsn(), 1);
    assert_eq!(fsn.flush_through(1), FlushStep::Done(1));
    assert_eq!(fsn.flush(), (2, FlushStep::Issue(2)));
}

#[test]
fn waiting_flushes_share_the_next_one() {
    let mut fsn = FlushSequencer::new();
    assert_eq!(fsn.flush(), (1, FlushStep::Issue(1)));
    // Both came after the running flush, which does not cover them.
    assert_eq!(fsn.flush(), (2, FlushStep::Wait(1)));
    assert_eq!(fsn.flush(), (2, FlushStep::Wait(1)));
    fsn.complete(1, true);
    assert_eq!(fsn.flush_through(2), FlushStep::Issue(2));
    assert_eq!(fsn.flush_through(2), FlushStep::Wait(2));
    fsn.complete(2, true);
    assert_eq!(fsn.flush_through(2), FlushStep::Done(2));
}

#[test]
fn failed_flush_covers_nothing() {
    let mut fsn = FlushSequencer::new();
    assert_eq!(fsn.flush(), (1, FlushStep::Issue(1)));
    assert_eq!(fsn.complete(1, false), None);
    assert_eq!(fsn.completed_fsn(), 0);
    // The next attempt has a number of its own.
    assert_eq!(fsn.flush_through(1), FlushStep::Issue(2));
    assert_eq!(fsn.complete(2, true), Some(2));
    assert_eq!(fsn.flush_through(1), FlushStep::Done(2));
}

#[test]
fn watermark_only_rises() {
    let mut mark = LsnWatermark::new();
    assert_eq!(mark.get(), 0);
    assert!(matches!(mark.wait_for(0), WaitStep::Reached(0)));
    assert!(matches!(mark.wait_for(1), WaitStep::Pending));
    mark.advance(5, 2);
    mark.advance(3, 7);
    assert_eq!(mark.get_with_fsn(), (5, 7));
    assert!(matches!(mark.wait_for(5), WaitStep::Reached(7)));
    assert!(matches!(mark.wait_for(6), WaitStep::Pending));
}

#[test]
fn poisoned_watermark_fails_every_wait() {
    let mut mark = LsnWatermark::new();
    mark.advance(5, 1);
    mark.fail("disk on fire".to_string());
    for target in [5, 10] {
        let WaitStep::Failed(VhdxError::Io(e)) = mark.wait_for(target) else {
            panic!("expected a failure");
        };
        assert_eq!(e.kind, IoErrorKind::Other);
        assert_eq!(e.message, "disk on fire");
    }
    assert_eq!(mark.get(), 5);
}

fn batch(lsn: u64) -> ApplyBatch {
    ApplyBatch {
        pages: vec![ApplyPage {
            file_offset: 4096,
            data: Arc::new(vec![0; 4096]),
        }],
        lsn,
    }
}

#[test]
fn applied_batch_publishes_its_lsn() {
    let mut mark = LsnWatermark::new();
    let outcome = finish_batch(&mut mark, batch(4), Ok(()), 9);
    assert_eq!(outcome.release, 1);
    assert!(outcome.failure.is_none());
    assert_eq!(mark.get_with_fsn(), (4, 9));
}

#[test]
fn failed_batch_poisons_the_watermark() {
    let mut mark = LsnWatermark::new();
    let outcome = finish_batch(&mut mark, batch(4), Err("no space".to_string()), 9);
    assert_eq!(outcome.release, 1);
    assert_eq!(
        outcome.failure.as_deref(),
        Some("apply write failed: no space")
    );
    assert_eq!(mark.get_with_fsn(), (0, 0));
    assert!(matches!(mark.wait_for(0), WaitStep::Failed(_)));
}

fn data(offset: u64, pages: usize) -> LogData {
    let bytes = (0..pages * 4096).map(|i| (i / 4096) as u8).collect();
    LogData::new(offset, Arc::new(bytes))
}

#[test]
fn log_data_is_cut_into_sectors() {
    let parts = vec![data(0x8000, 2), data(0x1000, 1)];
    assert_eq!(parts[0].page_count(), 2);
    assert_eq!(page_total(&parts), 3);
    let pages = data_pages(&parts);
    let offsets: Vec<u64> = pages.iter().map(|p| p.file_offset).collect();
    assert_eq!(offsets, [0x8000, 0x9000, 0x1000]);
    assert_eq!(pages[0].payload, vec![0; 4096]);
    assert_eq!(pages[1].payload, vec![1; 4096]);
    assert_eq!(parts[1].data().len(), 4096);
    let (offset, bytes) = data(0x8000, 2).into_parts();
    assert_eq!(offset, 0x8000);
    assert_eq!(bytes.len(), 8192);
    // Data may end where the range of file offsets does.
    let last = vec![data(u64::MAX - 4095, 1)];
    assert_eq!(last[0].page_count(), 1);
    assert_eq!(data_pages(&last)[0].file_offset, u64::MAX - 4095);
}

#[test]
fn client_counts_transactions() {
    let mut client = LogClient::new();
    assert_eq!(client.current_lsn(), Lsn::zero());
    assert_eq!(client.next_lsn(), Lsn::new(1));
    let transaction = client.commit(vec![data(0, 1)], Some(6));
    assert_eq!(transaction.lsn, Lsn::new(1));
    assert_eq!(transaction.pre_log_fsn, Some(6));
    assert_eq!(transaction.data.len(), 1);
    assert_eq!(client.current_lsn(), Lsn::new(1));
}

fn publish(task: &mut LogTask, logged: &mut LsnWatermark, lsn: u64, new_tail: u32) {
    let transaction = Transaction {
        lsn: Lsn::new(lsn),
        data: vec![data(0x1000, 1)],
        pre_log_fsn: None,
    };
    let (applied_lsn, applied) = task.publish(logged, transaction, new_tail, 10 + lsn);
    assert_eq!(applied_lsn, Lsn::new(lsn));
    assert_eq!(applied.len(), 1);
}

#[test]
fn tails_move_once_applied_and_flushed() {
    let mut task = LogTask::new();
    assert_eq!(task.close_target(), None);
    let mut logged = LsnWatermark::new();
    publish(&mut task, &mut logged, 1, 0x1000);
    publish(&mut task, &mut logged, 2, 0x3000);
    publish(&mut task, &mut logged, 3, 0x4000);
    assert_eq!(logged.get_with_fsn(), (3, 13));
    // What was applied is not flushed yet.
    assert!(task.advance_tails(4, 2, 5).is_empty());
    assert_eq!(task.advance_tails(5, 2, 5), [0x1000, 0x3000]);
    assert!(task.advance_tails(5, 2, 5).is_empty());
    assert_eq!(task.log_full(9), Ok(Lsn::new(3)));
    assert_eq!(task.close_target(), Some(Lsn::new(3)));
    assert_eq!(task.drain(), [0x4000]);
    assert_eq!(task.log_full(9), Err(LogTaskError::TransactionTooBig(9)));
}

#[test]
fn commit_goes_step_by_step() {
    let mut task = LogTask::new();
    let step = |task: &LogTask, event| task.handle_commit(Some(7), 3, event);
    assert_eq!(
        step(&task, CommitEvent::Start),
        Ok(CommitAction::Flush(7))
    );
    assert_eq!(
        task.handle_commit(None, 3, CommitEvent::Start),
        Ok(CommitAction::WriteEntry)
    );
    assert_eq!(
        step(&task, CommitEvent::Flushed),
        Ok(CommitAction::WriteEntry)
    );
    assert_eq!(
        step(&task, CommitEvent::Written(true)),
        Ok(CommitAction::Publish)
    );
    // It never fits an empty log.
    assert_eq!(
        step(&task, CommitEvent::Written(false)),
        Err(LogTaskError::TransactionTooBig(3))
    );
    publish(&mut task, &mut LsnWatermark::new(), 4, 0);
    assert_eq!(
        step(&task, CommitEvent::Written(false)),
        Ok(CommitAction::WaitApplied(Lsn::new(4)))
    );
    assert_eq!(
        step(&task, CommitEvent::Applied(8)),
        Ok(CommitAction::FlushTails(8))
    );
    assert_eq!(
        step(&task, CommitEvent::TailsMoved),
        Ok(CommitAction::WriteEntry)
    );
}
