//! Play history is offline-first: plays queue in a local outbox and a flush
//! pushes a batch to the server. What a flush does with its batch once the
//! server has answered is decided here.
use vstd::prelude::*;

use crate::error::AppError;

verus! {

/// Most plays pushed in one flush; the rest go on the next pass.
pub const FLUSH_BATCH: i64 = 200;

/// The played time that is queued: a negative count is stored as zero.
pub fn queued_ms_played(ms_played: i64) -> (r: i64)
    ensures
        r == if ms_played < 0 {
            0
        } else {
            ms_played
        },
{
    if ms_played < 0 {
        0
    } else {
        ms_played
    }
}

/// Whether a failure is worth retrying later: the server was unreachable or
/// no server is configured yet.
pub open spec fn is_retryable(e: AppError) -> bool {
    e is Transport || e is AuthNotConfigured
}

/// After the server answered a flush: whether the batch leaves the outbox,
/// and the count the flush reports. Recorded plays leave and are counted; a
/// retryable failure keeps the batch and reports nothing; any other failure
/// drops the batch (so the outbox cannot grow without bound) and reports
/// nothing.
pub fn settle_flush(recorded: &Result<u64, AppError>) -> (r: (bool, u64))
    ensures
        match recorded {
            Ok(n) => r == (true, *n),
            Err(e) => r == (!is_retryable(*e), 0u64),
        },
{
    match recorded {
        Ok(n) => (true, *n),
        Err(AppError::Transport(_)) => (false, 0),
        Err(AppError::AuthNotConfigured(_)) => (false, 0),
        Err(_) => (true, 0),
    }
}

} // verus!
