//! Progress reports sent to the interface, and the report that closes a
//! task.

use vstd::prelude::*;
use crate::models::TaskStatus;

verus! {

/// A progress report of one task. Its transfer speed, a floating point
/// figure, is kept by the application layer beside it.
#[derive(Debug, Clone)]
pub struct TaskProgressUpdate {
    pub id: String,
    pub downloaded_bytes: u64,
    pub total_bytes: u64,
    pub eta: u64,
    pub status: TaskStatus,
}

/// The state and byte count a task ends with: completed with the size the
/// engine reported, or failed with the size it was known to have.
pub open spec fn task_outcome(result: Result<u64, String>, known_total: u64) -> (TaskStatus, u64) {
    match result {
        Ok(size) => (TaskStatus::Completed, size),
        Err(_) => (TaskStatus::Error, known_total),
    }
}

/// The state and byte count a task ends with (see `task_outcome`).
pub fn finish_outcome(result: &Result<u64, String>, known_total: u64) -> (r: (TaskStatus, u64))
    ensures
        r == task_outcome(*result, known_total),
{
    match result {
        Ok(size) => (TaskStatus::Completed, *size),
        Err(_) => (TaskStatus::Error, known_total),
    }
}

/// The last report of a finished task: its final state, with both byte
/// counts set to its final size and nothing left to wait for.
pub fn final_report(task_id: &str, result: &Result<u64, String>, known_total: u64) -> (u:
    TaskProgressUpdate)
    ensures
        u.id@ == task_id@,
        u.status == task_outcome(*result, known_total).0,
        u.downloaded_bytes == task_outcome(*result, known_total).1,
        u.total_bytes == task_outcome(*result, known_total).1,
        u.eta == 0,
{
    let (status, bytes) = finish_outcome(result, known_total);
    TaskProgressUpdate {
        id: String::from_str(task_id),
        downloaded_bytes: bytes,
        total_bytes: bytes,
        eta: 0,
        status,
    }
}

/// A transfer of known size is over once the bytes counted reach it.
pub fn transfer_complete(total: u64, current: u64) -> (r: bool)
    ensures
        r == (total > 0 && current >= total),
{
    total > 0 && current >= total
}

/// The number of tasks allowed to download at once: the configured
/// number, at least one.
pub open spec fn concurrency_limit(max_concurrent_tasks: u8) -> nat {
    if max_concurrent_tasks == 0 {
        1
    } else {
        max_concurrent_tasks as nat
    }
}

/// Whether another task may start while `running` tasks download: only
/// while fewer than the limit run; otherwise it waits its turn.
pub fn may_start(running: usize, max_concurrent_tasks: u8) -> (r: bool)
    ensures
        r == (running < concurrency_limit(max_concurrent_tasks)),
{
    let limit: usize = if max_concurrent_tasks == 0 {
        1
    } else {
        max_concurrent_tasks as usize
    };
    running < limit
}

} // verus!
