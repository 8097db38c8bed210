//! Decisions of the batch-job worker protocol.
use vstd::prelude::*;

verus! {

/// Status of a batch job.
#[derive(Debug, Clone, Copy, PartialEq, Eq, Structural)]
pub enum BatchJobStatus {
    Pending,
    Chunking,
    Processing,
    Completed,
    CompletedWithErrors,
    Failed,
    Cancelled,
}

/// Counts over a job's chunks, as the store reads them before finalizing.
#[derive(Debug, Clone, Copy, PartialEq, Eq)]
pub struct JobChunkSummary {
    pub total_chunks: i64,
    /// Chunks still pending or processing.
    pub active_chunks: i64,
    pub failed_chunks: i64,
    /// Items that failed across all chunks.
    pub total_failed: i64,
}

/// The final status of a job from its chunk summary, or `None` while chunks
/// are still active: failed when every chunk failed, completed with errors when
/// some chunk or item failed, completed otherwise.
pub open spec fn final_status(s: JobChunkSummary) -> Option<BatchJobStatus> {
    if s.active_chunks > 0 {
        None
    } else if s.failed_chunks == s.total_chunks {
        Some(BatchJobStatus::Failed)
    } else if s.failed_chunks > 0 || s.total_failed > 0 {
        Some(BatchJobStatus::CompletedWithErrors)
    } else {
        Some(BatchJobStatus::Completed)
    }
}

/// Decides how a job ends once its chunks are done (see [`final_status`]).
pub fn job_final_status(summary: &JobChunkSummary) -> (r: Option<BatchJobStatus>)
    ensures
        r == final_status(*summary),
{
    if summary.active_chunks > 0 {
        None
    } else if summary.failed_chunks == summary.total_chunks {
        Some(BatchJobStatus::Failed)
    } else if summary.failed_chunks > 0 || summary.total_failed > 0 {
        Some(BatchJobStatus::CompletedWithErrors)
    } else {
        Some(BatchJobStatus::Completed)
    }
}

/// A chunk to create: its position, and the slice of items it covers.
#[derive(Debug, Clone, Copy, PartialEq, Eq)]
pub struct ChunkPlan {
    pub chunk_index: i32,
    pub item_offset: i32,
    pub item_count: i32,
    pub max_retries: i32,
}

/// Numbers the chunks of a job in order, each with the job's retry budget.
pub fn plan_chunks(chunks: &[(i32, i32)], max_retries: i32) -> (r: Vec<ChunkPlan>)
    requires
        chunks@.len() <= i32::MAX,
    ensures
        r@.len() == chunks@.len(),
        forall|i: int| 0 <= i < r@.len() ==> #[trigger] r@[i] == (ChunkPlan {
            chunk_index: i as i32,
            item_offset: chunks@[i].0,
            item_count: chunks@[i].1,
            max_retries,
        }),
{
    let mut out: Vec<ChunkPlan> = Vec::new();
    let mut i: usize = 0;
    while i < chunks.len()
        invariant
            i <= chunks@.len(),
            chunks@.len() <= i32::MAX,
            out@.len() == i,
            forall|k: int| 0 <= k < i ==> #[trigger] out@[k] == (ChunkPlan {
                chunk_index: k as i32,
                item_offset: chunks@[k].0,
                item_count: chunks@[k].1,
                max_retries,
            }),
        decreases chunks@.len() - i,
    {
        let (offset, count) = chunks[i];
        out.push(ChunkPlan { chunk_index: i as i32, item_offset: offset, item_count: count, max_retries });
        i = i + 1;
    }
    out
}

} // verus!
