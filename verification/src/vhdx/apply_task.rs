//! The apply task: logged pages are written to their final file offsets, and
//! the progress is published.

use std::sync::Arc;

use vstd::prelude::*;
use vstd::string::StringExecFns;

use super::lsn_watermark::LsnWatermark;

verus! {

/// A batch of pages that is logged and has to be applied.
#[derive(Debug)]
pub struct ApplyBatch {
    /// The pages.
    pub pages: Vec<ApplyPage>,
    /// The LSN of the log entry that holds them.
    pub lsn: u64,
}

/// A page to apply.
#[derive(Debug)]
pub struct ApplyPage {
    /// Its final file offset.
    pub file_offset: u64,
    /// Its bytes.
    pub data: Arc<Vec<u8>>,
}

/// What the caller does after a batch.
#[derive(Debug)]
pub struct ApplyOutcome {
    /// The number of log permits to release.
    pub release: usize,
    /// Why the permits and the file are to be marked as failed, if they are.
    /// The task ends then.
    pub failure: Option<String>,
}

/// Takes the result of writing the pages of a batch, which is dropped by
/// then. On success the progress is published with `current_fsn`, the FSN
/// through which to flush to make it durable; nothing is flushed here. On
/// failure the watermark is poisoned. The permits are released either way.
pub fn finish_batch(
    applied_lsn: &mut LsnWatermark,
    batch: ApplyBatch,
    written: Result<(), String>,
    current_fsn: u64,
) -> (r: ApplyOutcome)
    ensures
        r.release == batch.pages@.len(),
        match written {
            Ok(_) => {
                &&& r.failure is None
                &&& *final(applied_lsn) == old(applied_lsn).raised(batch.lsn, current_fsn)
            },
            Err(error) => {
                &&& r.failure matches Some(text) && text@ == "apply write failed: "@ + error@
                &&& final(applied_lsn).failed matches Some(text) && text@ == "apply write failed: "@
                    + error@
                &&& final(applied_lsn).lsn == old(applied_lsn).lsn
                &&& final(applied_lsn).fsn == old(applied_lsn).fsn
            },
        },
{
    let release: usize = batch.pages.len();
    let lsn: u64 = batch.lsn;
    match written {
        Ok(_) => {
            applied_lsn.advance(lsn, current_fsn);
            ApplyOutcome { release, failure: None }
        },
        Err(error) => {
            let text: String = "apply write failed: ".to_string().concat(error.as_str());
            applied_lsn.fail("apply write failed: ".to_string().concat(error.as_str()));
            ApplyOutcome { release, failure: Some(text) }
        },
    }
}

/// A batch gives back a permit for each of its pages, whether it was written
/// or not. One that was written raises the watermark to it, one that was not
/// makes the watermark fail where it is.
pub proof fn law_batch_gives_its_permits_back(
    applied_lsn: &mut LsnWatermark,
    batch: ApplyBatch,
    written: Result<(), String>,
    current_fsn: u64,
    r: ApplyOutcome,
)
    requires
        call_ensures(finish_batch, (applied_lsn, batch, written, current_fsn), r),
    ensures
        r.release == batch.pages@.len(),
        r.failure is Some <==> written is Err,
        written is Ok ==> {
            &&& final(applied_lsn).lsn >= batch.lsn && final(applied_lsn).lsn
                >= old(applied_lsn).lsn
            &&& final(applied_lsn).lsn == batch.lsn || final(applied_lsn).lsn
                == old(applied_lsn).lsn
            &&& final(applied_lsn).fsn >= current_fsn
            &&& final(applied_lsn).failed == old(applied_lsn).failed
        },
        written is Err ==> final(applied_lsn).lsn == old(applied_lsn).lsn
            && final(applied_lsn).failed is Some,
{
}

} // verus!
