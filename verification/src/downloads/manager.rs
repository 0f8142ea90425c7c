//! Download results, progress events and the bookkeeping of a batch (album
//! or playlist) download. The downloads themselves are the application's
//! work: it feeds each track's outcome to `BatchRun` and emits the events
//! it returns.
use vstd::prelude::*;

use crate::downloads::paths::first_index_of;
use crate::error::{error_text, AppError};
use crate::text::{
    chars_of, decimal_digits, decimal_string, parse_u64, parse_u64_exec, push_all, push_str,
    slice_chars, string_from_chars,
};

verus! {

/// Event channel for progress updates.
pub const PROGRESS_EVENT: &'static str = "download-progress";

#[derive(Debug, Clone, Copy, PartialEq, Eq, Structural)]
pub enum ProgressScope {
    Track,
    Batch,
}

#[derive(Debug, Clone, Copy, PartialEq, Eq, Structural)]
pub enum ProgressPhase {
    Start,
    Progress,
    Done,
    Error,
}

/// One progress event; `scope` tells a single-track update from a batch
/// aggregate.
#[derive(Debug, Clone)]
pub struct ProgressEvent {
    pub scope: ProgressScope,
    pub id: String,
    pub phase: ProgressPhase,
    /// Bytes (or, for a batch, tracks) done so far.
    pub received: Option<u64>,
    /// Total bytes (or tracks) when known.
    pub total: Option<u64>,
    /// For batch scope: which track this update is about.
    pub track_id: Option<String>,
    /// For batch scope: 1-based index of the current track.
    pub index: Option<u32>,
    /// For batch scope: total tracks in the batch.
    pub total_tracks: Option<u32>,
    /// Error message on the `Error` phase.
    pub message: Option<String>,
}

/// Result of a single track download.
#[derive(Debug, Clone)]
pub struct TrackDownloadResult {
    pub track_id: String,
    /// Final on-disk path (set even when skipped).
    pub local_path: String,
    pub bytes: u64,
    /// The file was already present and nothing was fetched.
    pub skipped: bool,
}

#[derive(Debug, Clone, Copy, PartialEq, Eq, Structural)]
pub enum BatchKind {
    Album,
    Playlist,
}

/// Result of a bulk (album / playlist) download.
#[derive(Debug, Clone)]
pub struct BatchDownloadResult {
    pub id: String,
    pub kind: BatchKind,
    pub total: u32,
    pub succeeded: u32,
    pub skipped: u32,
    pub failed: u32,
    /// Per-track error messages for the failures.
    pub errors: Vec<String>,
}

/// Storage usage summary.
#[derive(Debug, Clone)]
pub struct StorageUsage {
    pub bytes: i64,
    pub track_count: i64,
    pub cover_count: i64,
}

/// A batch in progress: the tracks seen so far and how each ended.
pub struct BatchRun {
    id: String,
    kind: BatchKind,
    total: u32,
    done: u32,
    succeeded: u32,
    skipped: u32,
    failed: u32,
    errors: Vec<String>,
}

/// The text recorded for a failed track.
pub open spec fn track_error_text(track_id: Seq<char>, e: AppError) -> Seq<char> {
    "track "@ + track_id + ": "@ + error_text(e)
}

impl BatchRun {
    pub closed spec fn id_spec(&self) -> Seq<char> {
        self.id@
    }

    pub closed spec fn total_spec(&self) -> u32 {
        self.total
    }

    pub closed spec fn kind_spec(&self) -> BatchKind {
        self.kind
    }

    pub closed spec fn done_spec(&self) -> u32 {
        self.done
    }

    pub closed spec fn succeeded_spec(&self) -> u32 {
        self.succeeded
    }

    pub closed spec fn skipped_spec(&self) -> u32 {
        self.skipped
    }

    pub closed spec fn failed_spec(&self) -> u32 {
        self.failed
    }

    pub closed spec fn errors_spec(&self) -> Seq<Seq<char>> {
        self.errors@.map_values(|s: String| s@)
    }

    /// The counts add up: every track seen ended exactly one way, one error
    /// message per failure, and no more tracks than the batch holds.
    pub open spec fn well_formed(&self) -> bool {
        &&& self.done_spec() <= self.total_spec()
        &&& self.succeeded_spec() + self.skipped_spec() + self.failed_spec() == self.done_spec()
        &&& self.errors_spec().len() == self.failed_spec()
    }

    /// Start a batch of `total` tracks; gives the start event.
    pub fn start(id: &str, kind: BatchKind, total: u32) -> (r: (BatchRun, ProgressEvent))
        ensures
            r.0.well_formed(),
            r.0.id_spec() == id@,
            r.0.kind_spec() == kind,
            r.0.total_spec() == total,
            r.0.done_spec() == 0,
            r.1.scope == ProgressScope::Batch,
            r.1.id@ == id@,
            r.1.phase == ProgressPhase::Start,
            r.1.received is None,
            r.1.total is None,
            r.1.track_id is None,
            r.1.index is None,
            r.1.total_tracks == Some(total),
            r.1.message is None,
    {
        let run = BatchRun {
            id: id.to_owned(),
            kind,
            total,
            done: 0,
            succeeded: 0,
            skipped: 0,
            failed: 0,
            errors: Vec::new(),
        };
        assert(run.errors_spec() =~= Seq::<Seq<char>>::empty());
        let ev = ProgressEvent {
            scope: ProgressScope::Batch,
            id: id.to_owned(),
            phase: ProgressPhase::Start,
            received: None,
            total: None,
            track_id: None,
            index: None,
            total_tracks: Some(total),
            message: None,
        };
        (run, ev)
    }

    /// Record how the next track ended; gives the events to emit: an error
    /// event for a failure, then the progress event.
    pub fn record(&mut self, track_id: &str, outcome: &Result<TrackDownloadResult, AppError>) -> (evs:
        Vec<ProgressEvent>)
        requires
            old(self).well_formed(),
            old(self).done_spec() < old(self).total_spec(),
        ensures
            final(self).well_formed(),
            final(self).id_spec() == old(self).id_spec(),
            final(self).kind_spec() == old(self).kind_spec(),
            final(self).total_spec() == old(self).total_spec(),
            final(self).done_spec() == old(self).done_spec() + 1,
            match outcome {
                Ok(r) => {
                    &&& final(self).failed_spec() == old(self).failed_spec()
                    &&& final(self).errors_spec() == old(self).errors_spec()
                    &&& if r.skipped {
                        final(self).skipped_spec() == old(self).skipped_spec() + 1
                            && final(self).succeeded_spec() == old(self).succeeded_spec()
                    } else {
                        final(self).succeeded_spec() == old(self).succeeded_spec() + 1
                            && final(self).skipped_spec() == old(self).skipped_spec()
                    }
                    &&& evs@.len() == 1
                },
                Err(e) => {
                    &&& final(self).failed_spec() == old(self).failed_spec() + 1
                    &&& final(self).succeeded_spec() == old(self).succeeded_spec()
                    &&& final(self).skipped_spec() == old(self).skipped_spec()
                    &&& final(self).errors_spec() == old(self).errors_spec().push(
                        track_error_text(track_id@, *e),
                    )
                    &&& evs@.len() == 2
                    &&& evs@[0].phase == ProgressPhase::Error
                    &&& evs@[0].message matches Some(m) && m@ == error_text(*e)
                    &&& evs@[0].index == Some(final(self).done_spec() as u32)
                },
            },
            evs@.last().phase == ProgressPhase::Progress,
            evs@.last().received == Some(final(self).done_spec() as u64),
            evs@.last().total == Some(final(self).total_spec() as u64),
            evs@.last().index == Some(final(self).done_spec() as u32),
            evs@.last().total_tracks == Some(final(self).total_spec()),
            evs@.last().track_id matches Some(t) && t@ == track_id@,
            forall|i: int|
                0 <= i < evs@.len() ==> (#[trigger] evs@[i]).scope == ProgressScope::Batch
                    && evs@[i].id@ == old(self).id_spec(),
    {
        self.done = self.done + 1;
        let idx = self.done;
        let mut evs: Vec<ProgressEvent> = Vec::new();
        match outcome {
            Ok(r) => {
                if r.skipped {
                    self.skipped = self.skipped + 1;
                } else {
                    self.succeeded = self.succeeded + 1;
                }
            },
            Err(e) => {
                self.failed = self.failed + 1;
                let text = e.to_string();
                let mut v = chars_of("track ");
                push_str(&mut v, track_id);
                push_str(&mut v, ": ");
                push_str(&mut v, text.as_str());
                let ghost before = self.errors@;
                self.errors.push(string_from_chars(&v));
                assert(self.errors@.map_values(|s: String| s@) =~= before.map_values(
                    |s: String| s@,
                ).push(track_error_text(track_id@, *e)));
                evs.push(
                    ProgressEvent {
                        scope: ProgressScope::Batch,
                        id: self.id.clone(),
                        phase: ProgressPhase::Error,
                        received: None,
                        total: None,
                        track_id: Some(track_id.to_owned()),
                        index: Some(idx),
                        total_tracks: Some(self.total),
                        message: Some(text),
                    },
                );
            },
        }
        evs.push(
            ProgressEvent {
                scope: ProgressScope::Batch,
                id: self.id.clone(),
                phase: ProgressPhase::Progress,
                received: Some(idx as u64),
                total: Some(self.total as u64),
                track_id: Some(track_id.to_owned()),
                index: Some(idx),
                total_tracks: Some(self.total),
                message: None,
            },
        );
        evs
    }

    /// Close the batch: the done event and the result.
    pub fn finish(self) -> (r: (ProgressEvent, BatchDownloadResult))
        requires
            self.well_formed(),
        ensures
            r.0.scope == ProgressScope::Batch,
            r.0.id@ == self.id_spec(),
            r.0.phase == ProgressPhase::Done,
            r.0.received == Some(self.total_spec() as u64),
            r.0.total == Some(self.total_spec() as u64),
            r.0.track_id is None,
            r.0.index is None,
            r.0.total_tracks == Some(self.total_spec()),
            r.0.message is None,
            r.1.id@ == self.id_spec(),
            r.1.kind == self.kind_spec(),
            r.1.total == self.total_spec(),
            r.1.succeeded == self.succeeded_spec(),
            r.1.skipped == self.skipped_spec(),
            r.1.failed == self.failed_spec(),
            r.1.errors@.map_values(|s: String| s@) == self.errors_spec(),
            r.1.succeeded + r.1.skipped + r.1.failed == self.done_spec(),
            r.1.errors@.len() == r.1.failed,
    {
        let ev = ProgressEvent {
            scope: ProgressScope::Batch,
            id: self.id.clone(),
            phase: ProgressPhase::Done,
            received: Some(self.total as u64),
            total: Some(self.total as u64),
            track_id: None,
            index: None,
            total_tracks: Some(self.total),
            message: None,
        };
        let res = BatchDownloadResult {
            id: self.id,
            kind: self.kind,
            total: self.total,
            succeeded: self.succeeded,
            skipped: self.skipped,
            failed: self.failed,
            errors: self.errors,
        };
        (ev, res)
    }
}

// ---------------------------------------------------------------------------
// Resuming a track download
// ---------------------------------------------------------------------------

/// The `Range` header asking for the rest of a partial file, when there is
/// one: `bytes=<existing>-`.
pub fn resume_range(existing: u64) -> (r: Option<String>)
    ensures
        existing == 0 ==> r is None,
        existing > 0 ==> (r matches Some(h) && h@ == "bytes="@ + decimal_digits(existing as nat)
            + "-"@),
{
    if existing == 0 {
        None
    } else {
        let mut v = chars_of("bytes=");
        let d = decimal_string(existing);
        push_all(&mut v, &d);
        push_str(&mut v, "-");
        Some(string_from_chars(&v))
    }
}

/// The second `/`-separated field of a header value (`split('/').nth(1)`).
pub open spec fn second_field(s: Seq<char>) -> Option<Seq<char>> {
    let k = first_index_of(s, '/');
    if k >= s.len() {
        None
    } else {
        let rest = s.skip(k + 1);
        Some(rest.take(first_index_of(rest, '/')))
    }
}

proof fn lemma_first_index_of_bounds(s: Seq<char>, c: char)
    ensures
        0 <= first_index_of(s, c) <= s.len(),
        first_index_of(s, c) < s.len() ==> s[first_index_of(s, c)] == c,
        forall|j: int| 0 <= j < first_index_of(s, c) ==> s[j] != c,
    decreases s.len(),
{
    if s.len() > 0 && s[0] != c {
        lemma_first_index_of_bounds(s.drop_first(), c);
        assert forall|j: int| 0 <= j < first_index_of(s, c) implies s[j] != c by {
            if j > 0 {
                assert(s[j] == s.drop_first()[j - 1]);
            }
        }
    }
}

fn find_slash(v: &Vec<char>, from: usize) -> (r: usize)
    requires
        from <= v@.len(),
    ensures
        r == from + first_index_of(v@.skip(from as int), '/'),
{
    let n = v.len();
    let mut i = from;
    proof {
        lemma_first_index_of_bounds(v@.skip(from as int), '/');
    }
    while i < n && v[i] != '/'
        invariant
            from <= i <= n,
            n == v@.len(),
            first_index_of(v@.skip(from as int), '/') == (i - from) + first_index_of(
                v@.skip(i as int),
                '/',
            ),
        decreases n - i,
    {
        assert(v@.skip(i as int).drop_first() =~= v@.skip(i + 1));
        i = i + 1;
    }
    if i < n {
        assert(v@.skip(i as int)[0] == '/');
    } else {
        assert(v@.skip(i as int).len() == 0);
    }
    i
}

/// How a track download goes on once the server answered with success.
#[derive(Debug, Clone, Copy, PartialEq, Eq, Structural)]
pub struct ResumePlan {
    /// Append to the partial file (else start it over).
    pub appending: bool,
    /// Bytes already on disk that count as received.
    pub received: u64,
    /// The file's full size, 0 when unknown.
    pub total: u64,
    /// A stale partial file is to be removed first.
    pub drop_stale_part: bool,
}

/// The plan for a successful response: a `206` to a resumed request
/// appends, taking the total from `Content-Range` (`bytes a-b/total`, else
/// the existing length); anything else starts over from zero, dropping a
/// stale partial file, with the total from `Content-Length` (else 0).
pub fn resume_plan(existing: u64, partial_content: bool, content_range: Option<&str>, content_length: Option<u64>) -> (r: ResumePlan)
    ensures
        r.appending == (partial_content && existing > 0),
        r.appending ==> r.received == existing && !r.drop_stale_part && r.total == match content_range {
            Some(v) => match second_field(v@) {
                Some(f) => match parse_u64(f) {
                    Some(t) => t,
                    None => existing,
                },
                None => existing,
            },
            None => existing,
        },
        !r.appending ==> r.received == 0 && r.drop_stale_part == (existing > 0) && r.total
            == match content_length {
            Some(l) => l,
            None => 0,
        },
{
    let appending = partial_content && existing > 0;
    if !appending {
        let total = match content_length {
            Some(l) => l,
            None => 0,
        };
        return ResumePlan { appending: false, received: 0, total, drop_stale_part: existing > 0 };
    }
    let total = match content_range {
        None => existing,
        Some(v) => {
            let c = chars_of(v);
            let k = find_slash(&c, 0);
            assert(c@.skip(0) =~= c@);
            if k >= c.len() {
                existing
            } else {
                let e = find_slash(&c, k + 1);
                proof {
                    let rest = c@.skip(k + 1);
                    lemma_first_index_of_bounds(rest, '/');
                    assert(c@.subrange(k + 1, e as int) =~= rest.take(first_index_of(rest, '/')));
                }
                let field = slice_chars(&c, k + 1, e);
                match parse_u64_exec(&field) {
                    Some(t) => t,
                    None => existing,
                }
            }
        },
    };
    ResumePlan { appending: true, received: existing, total, drop_stale_part: false }
}

} // verus!
