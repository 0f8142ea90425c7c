//! Bookkeeping for the look-ahead prefetch of the next streamed track.
//!
//! The cache remembers, in claim order, at most `MAX_ENTRIES` tracks: where
//! each one's temp file lives, whether its download finished, and the
//! Content-Type the stream reported. Only a finished download is ever handed
//! out, so a partial file is never served. Deleting files and downloading
//! are the caller's work: the operations here say which paths to delete.
use vstd::prelude::*;

use crate::downloads::paths::{path_join, path_join_exec};
use crate::text::{chars_of, char_is_ascii_alphanumeric, is_ascii_alphanumeric, string_from_chars};

verus! {

/// Files kept at once: the just-played, the currently served and the next
/// track, with one to spare.
pub const MAX_ENTRIES: usize = 4;

/// Content-Type reported for a prefetched file whose stream named none.
pub const FALLBACK_CONTENT_TYPE: &'static str = "application/octet-stream";

/// One prefetched (or prefetching) track.
pub struct PrefetchEntry {
    pub track_id: String,
    pub path: String,
    pub complete: bool,
    pub content_type: Option<String>,
}

/// What an entry holds, as plain values.
pub struct EntryView {
    pub track_id: Seq<char>,
    pub path: Seq<char>,
    pub complete: bool,
    pub content_type: Option<Seq<char>>,
}

pub open spec fn opt_view(o: Option<String>) -> Option<Seq<char>> {
    match o {
        Some(s) => Some(s@),
        None => None,
    }
}

impl View for PrefetchEntry {
    type V = EntryView;

    open spec fn view(&self) -> EntryView {
        EntryView {
            track_id: self.track_id@,
            path: self.path@,
            complete: self.complete,
            content_type: opt_view(self.content_type),
        }
    }
}

/// The prefetch directory and the entries, oldest claim first.
pub struct PrefetchCache {
    dir: String,
    entries: Vec<PrefetchEntry>,
}

/// The cache as plain values.
pub struct PrefetchView {
    pub dir: Seq<char>,
    pub entries: Seq<EntryView>,
}

pub open spec fn entries_view(es: Seq<PrefetchEntry>) -> Seq<EntryView> {
    es.map_values(|e: PrefetchEntry| e@)
}

impl View for PrefetchCache {
    type V = PrefetchView;

    closed spec fn view(&self) -> PrefetchView {
        PrefetchView { dir: self.dir@, entries: entries_view(self.entries@) }
    }
}

/// A filesystem-safe stem for a track id: ASCII alphanumerics, `-` and `_`
/// are kept, anything else becomes `_`.
pub open spec fn stem_char(c: char) -> char {
    if is_ascii_alphanumeric(c) || c == '-' || c == '_' {
        c
    } else {
        '_'
    }
}

pub open spec fn file_stem_spec(track_id: Seq<char>) -> Seq<char> {
    track_id.map_values(|c: char| stem_char(c))
}

/// Where the temp file for `track_id` goes.
pub open spec fn entry_path(dir: Seq<char>, track_id: Seq<char>) -> Seq<char> {
    path_join(dir, file_stem_spec(track_id))
}

/// Index of the entry for `id`, or -1 (searching from the newest).
pub open spec fn find(es: Seq<EntryView>, id: Seq<char>) -> int
    decreases es.len(),
{
    if es.len() == 0 {
        -1
    } else if es.last().track_id == id {
        es.len() - 1
    } else {
        find(es.drop_last(), id)
    }
}

/// The cache's invariant: at most `MAX_ENTRIES` entries, no track twice, and
/// each file where `entry_path` puts it.
pub open spec fn well_formed(v: PrefetchView) -> bool {
    &&& v.entries.len() <= MAX_ENTRIES
    &&& forall|i: int, j: int|
        0 <= i < j < v.entries.len() ==> #[trigger] v.entries[i].track_id
            != #[trigger] v.entries[j].track_id
    &&& forall|i: int|
        0 <= i < v.entries.len() ==> #[trigger] v.entries[i].path == entry_path(
            v.dir,
            v.entries[i].track_id,
        )
}

/// What `ready` answers: the path and Content-Type of a complete entry.
pub open spec fn ready_spec(v: PrefetchView, id: Seq<char>) -> Option<(Seq<char>, Seq<char>)> {
    let i = find(v.entries, id);
    if i >= 0 && v.entries[i].complete {
        Some(
            (
                v.entries[i].path,
                match v.entries[i].content_type {
                    Some(ct) => ct,
                    None => FALLBACK_CONTENT_TYPE@,
                },
            ),
        )
    } else {
        None
    }
}

/// How many of the oldest entries a claim pushes out.
pub open spec fn overflow(n: nat) -> nat {
    if n > MAX_ENTRIES {
        (n - MAX_ENTRIES) as nat
    } else {
        0
    }
}

/// The state after claiming `id`, with the claimed path and the paths of the
/// evicted entries; a claim of a known id changes nothing and yields `None`.
pub open spec fn claim_spec(v: PrefetchView, id: Seq<char>) -> (
    PrefetchView,
    Option<(Seq<char>, Seq<Seq<char>>)>,
) {
    if find(v.entries, id) >= 0 {
        (v, None)
    } else {
        let path = entry_path(v.dir, id);
        let grown = v.entries.push(
            EntryView { track_id: id, path: path, complete: false, content_type: None },
        );
        let k = overflow(grown.len());
        (
            PrefetchView { dir: v.dir, entries: grown.skip(k as int) },
            Some((path, grown.take(k as int).map_values(|e: EntryView| e.path))),
        )
    }
}

/// The state after the download for `id` finished with `content_type`.
pub open spec fn mark_complete_spec(
    v: PrefetchView,
    id: Seq<char>,
    content_type: Option<Seq<char>>,
) -> PrefetchView {
    let i = find(v.entries, id);
    if i >= 0 {
        PrefetchView {
            dir: v.dir,
            entries: v.entries.update(
                i,
                EntryView {
                    track_id: v.entries[i].track_id,
                    path: v.entries[i].path,
                    complete: true,
                    content_type: content_type,
                },
            ),
        }
    } else {
        v
    }
}

/// The state after dropping `id`, with the path of its file if it had one.
pub open spec fn discard_spec(v: PrefetchView, id: Seq<char>) -> (PrefetchView, Option<Seq<char>>) {
    let i = find(v.entries, id);
    if i >= 0 {
        (PrefetchView { dir: v.dir, entries: v.entries.remove(i) }, Some(v.entries[i].path))
    } else {
        (v, None)
    }
}

pub proof fn lemma_find(es: Seq<EntryView>, id: Seq<char>)
    ensures
        -1 <= find(es, id) < es.len(),
        find(es, id) >= 0 ==> es[find(es, id)].track_id == id,
        find(es, id) == -1 <==> forall|i: int| 0 <= i < es.len() ==> #[trigger] es[i].track_id != id,
    decreases es.len(),
{
    if es.len() > 0 {
        lemma_find(es.drop_last(), id);
        if es.last().track_id != id {
            assert forall|i: int| 0 <= i < es.len() - 1 implies #[trigger] es[i].track_id
                == es.drop_last()[i].track_id by {}
        }
    }
}

/// With no id twice, the entry for `id` is the one at any index holding it.
pub proof fn lemma_find_unique(es: Seq<EntryView>, id: Seq<char>, j: int)
    requires
        forall|a: int, b: int|
            0 <= a < b < es.len() ==> #[trigger] es[a].track_id != #[trigger] es[b].track_id,
        0 <= j < es.len(),
        es[j].track_id == id,
    ensures
        find(es, id) == j,
{
    lemma_find(es, id);
    let f = find(es, id);
    if f != j {
        if f < j {
            assert(es[f].track_id != es[j].track_id);
        } else {
            assert(es[j].track_id != es[f].track_id);
        }
    }
}

/// Two entry lists with the same ids at the same places find an id at the
/// same place.
pub proof fn lemma_find_same_ids(a: Seq<EntryView>, b: Seq<EntryView>, id: Seq<char>)
    requires
        a.len() == b.len(),
        forall|i: int| 0 <= i < a.len() ==> #[trigger] a[i].track_id == b[i].track_id,
    ensures
        find(a, id) == find(b, id),
    decreases a.len(),
{
    if a.len() > 0 {
        assert(a.last().track_id == b.last().track_id);
        assert forall|i: int| 0 <= i < a.len() - 1 implies #[trigger] a.drop_last()[i].track_id
            == b.drop_last()[i].track_id by {
            assert(a.drop_last()[i] == a[i]);
            assert(b.drop_last()[i] == b[i]);
        }
        lemma_find_same_ids(a.drop_last(), b.drop_last(), id);
    }
}

/// Discarding keeps the invariant.
pub proof fn lemma_discard_well_formed(v: PrefetchView, id: Seq<char>)
    requires
        well_formed(v),
    ensures
        well_formed(discard_spec(v, id).0),
{
    lemma_find(v.entries, id);
    let i = find(v.entries, id);
    if i >= 0 {
        let es = discard_spec(v, id).0.entries;
        assert forall|a: int, b: int| 0 <= a < b < es.len() implies #[trigger] es[a].track_id
            != #[trigger] es[b].track_id by {
            let a0 = if a < i {
                a
            } else {
                a + 1
            };
            let b0 = if b < i {
                b
            } else {
                b + 1
            };
            assert(es[a] == v.entries[a0]);
            assert(es[b] == v.entries[b0]);
        }
        assert forall|a: int| 0 <= a < es.len() implies #[trigger] es[a].path == entry_path(
            v.dir,
            es[a].track_id,
        ) by {
            let a0 = if a < i {
                a
            } else {
                a + 1
            };
            assert(es[a] == v.entries[a0]);
        }
    }
}

/// A fresh claim is not ready: the download it starts has not finished.
pub proof fn law_fresh_claim_not_ready(v: PrefetchView, id: Seq<char>)
    requires
        well_formed(v),
        find(v.entries, id) == -1,
    ensures
        claim_spec(v, id).1 is Some,
        ready_spec(claim_spec(v, id).0, id) is None,
{
    let es = claim_spec(v, id).0.entries;
    assert(es.last().track_id == id);
}

/// A track cannot be claimed twice: the second claim is refused and changes
/// nothing.
pub proof fn law_double_claim_refused(v: PrefetchView, id: Seq<char>)
    requires
        well_formed(v),
    ensures
        claim_spec(claim_spec(v, id).0, id).1 is None,
        claim_spec(claim_spec(v, id).0, id).0 == claim_spec(v, id).0,
{
    if find(v.entries, id) == -1 {
        let es = claim_spec(v, id).0.entries;
        assert(es.last().track_id == id);
    }
}

/// Claiming keeps at most `MAX_ENTRIES` entries and evicts only the oldest
/// ones.
pub proof fn law_claim_evicts_oldest(v: PrefetchView, id: Seq<char>)
    requires
        well_formed(v),
        find(v.entries, id) == -1,
    ensures
        claim_spec(v, id).0.entries.len() <= MAX_ENTRIES,
        claim_spec(v, id).1 matches Some((p, evicted)) && evicted.len() == overflow(
            v.entries.len() + 1,
        ) && forall|i: int| 0 <= i < evicted.len() ==> #[trigger] evicted[i] == v.entries[i].path,
{
}

/// Once the download for a claimed track finishes, `ready` hands out the
/// claimed path with the stream's Content-Type (or the fallback).
pub proof fn law_ready_after_complete(v: PrefetchView, id: Seq<char>, ct: Option<Seq<char>>)
    requires
        well_formed(v),
        find(v.entries, id) == -1,
    ensures
        claim_spec(v, id).1 matches Some((p, evicted)) && ready_spec(
            mark_complete_spec(claim_spec(v, id).0, id, ct),
            id,
        ) == Some(
            (
                p,
                match ct {
                    Some(c) => c,
                    None => FALLBACK_CONTENT_TYPE@,
                },
            ),
        ),
{
    let v1 = claim_spec(v, id).0;
    assert(v1.entries.last().track_id == id);
    let v2 = mark_complete_spec(v1, id, ct);
    lemma_find_same_ids(v2.entries, v1.entries, id);
}

/// A discarded track is not ready.
pub proof fn law_discard_not_ready(v: PrefetchView, id: Seq<char>)
    requires
        well_formed(v),
    ensures
        ready_spec(discard_spec(v, id).0, id) is None,
{
    lemma_find(v.entries, id);
    let i = find(v.entries, id);
    let es = discard_spec(v, id).0.entries;
    lemma_find(es, id);
    if i >= 0 {
        assert forall|a: int| 0 <= a < es.len() implies #[trigger] es[a].track_id != id by {
            let a0 = if a < i {
                a
            } else {
                a + 1
            };
            assert(es[a] == v.entries[a0]);
            if a0 < i {
                assert(v.entries[a0].track_id != v.entries[i].track_id);
            } else {
                assert(v.entries[i].track_id != v.entries[a0].track_id);
            }
        }
    }
}

/// Finishing or discarding one track leaves what `ready` says of any other.
pub proof fn law_other_tracks_unaffected(
    v: PrefetchView,
    id: Seq<char>,
    other: Seq<char>,
    ct: Option<Seq<char>>,
)
    requires
        well_formed(v),
        other != id,
    ensures
        ready_spec(mark_complete_spec(v, id, ct), other) == ready_spec(v, other),
        ready_spec(discard_spec(v, id).0, other) == ready_spec(v, other),
{
    lemma_find(v.entries, id);
    lemma_find(v.entries, other);
    let i = find(v.entries, id);
    let j = find(v.entries, other);
    let m = mark_complete_spec(v, id, ct);
    lemma_find_same_ids(m.entries, v.entries, other);
    if i >= 0 && j >= 0 {
        assert(j != i);
        assert(m.entries[j] == v.entries[j]);
    }
    lemma_discard_well_formed(v, id);
    let d = discard_spec(v, id).0;
    lemma_find(d.entries, other);
    if i >= 0 {
        if j >= 0 {
            let j1 = if j < i {
                j
            } else {
                j - 1
            };
            assert(d.entries[j1] == v.entries[j]);
            lemma_find_unique(d.entries, other, j1);
        } else {
            assert forall|a: int| 0 <= a < d.entries.len() implies #[trigger] d.entries[a].track_id
                != other by {
                let a0 = if a < i {
                    a
                } else {
                    a + 1
                };
                assert(d.entries[a] == v.entries[a0]);
            }
        }
    }
}

pub fn file_stem(track_id: &str) -> (out: String)
    ensures
        out@ == file_stem_spec(track_id@),
{
    let v = chars_of(track_id);
    let mut out: Vec<char> = Vec::new();
    let n = v.len();
    for i in 0..n
        invariant
            n == v@.len(),
            out@ == v@.take(i as int).map_values(|c: char| stem_char(c)),
    {
        let c = v[i];
        let keep = char_is_ascii_alphanumeric(c) || c == '-' || c == '_';
        out.push(
            if keep {
                c
            } else {
                '_'
            },
        );
        assert(v@.take(i + 1).map_values(|c: char| stem_char(c)) =~= v@.take(i as int).map_values(
            |c: char| stem_char(c),
        ).push(stem_char(c)));
    }
    assert(v@.take(n as int) == v@);
    string_from_chars(&out)
}

fn clone_opt(o: &Option<String>) -> (r: Option<String>)
    ensures
        opt_view(r) == opt_view(*o),
{
    match o {
        Some(s) => Some(s.clone()),
        None => None,
    }
}

impl PrefetchCache {
    /// An empty cache over `dir` (the caller clears the directory).
    pub fn new(dir: String) -> (c: Self)
        ensures
            c@.dir == dir@,
            c@.entries.len() == 0,
            well_formed(c@),
    {
        let c = PrefetchCache { dir, entries: Vec::new() };
        assert(c@.entries =~= Seq::<EntryView>::empty());
        c
    }

    fn find_exec(&self, id: &String) -> (r: Option<usize>)
        ensures
            match r {
                None => find(self@.entries, id@) == -1,
                Some(i) => find(self@.entries, id@) == i && i < self.entries@.len(),
            },
    {
        let ghost ev = self@.entries;
        let mut k = self.entries.len();
        assert(ev.take(k as int) =~= ev);
        while k > 0 && !(self.entries[k - 1].track_id == *id)
            invariant
                k <= self.entries@.len(),
                ev == entries_view(self.entries@),
                find(ev, id@) == find(ev.take(k as int), id@),
            decreases k,
        {
            assert(ev.take(k as int).drop_last() =~= ev.take(k - 1));
            k = k - 1;
        }
        if k == 0 {
            None
        } else {
            Some(k - 1)
        }
    }

    /// Path and Content-Type of a complete prefetched file for `track_id`;
    /// an in-progress download gives `None`, so a partial file is never
    /// served.
    pub fn ready(&self, track_id: &str) -> (r: Option<(String, String)>)
        ensures
            match r {
                Some((p, ct)) => ready_spec(self@, track_id@) == Some((p@, ct@)),
                None => ready_spec(self@, track_id@) is None,
            },
    {
        let id = track_id.to_owned();
        match self.find_exec(&id) {
            None => None,
            Some(i) => {
                let e = &self.entries[i];
                if e.complete {
                    let ct = match &e.content_type {
                        Some(c) => c.clone(),
                        None => FALLBACK_CONTENT_TYPE.to_owned(),
                    };
                    proof {
                        reveal_strlit("application/octet-stream");
                    }
                    Some((e.path.clone(), ct))
                } else {
                    None
                }
            },
        }
    }

    /// Claim a slot for `track_id`: the path to download to and the files of
    /// the entries evicted past the cap, or `None` if the track is already
    /// prefetching or done.
    pub fn claim(&mut self, track_id: &str) -> (r: Option<(String, Vec<String>)>)
        requires
            well_formed(old(self)@),
        ensures
            well_formed(final(self)@),
            final(self)@ == claim_spec(old(self)@, track_id@).0,
            match r {
                Some((p, ev)) => claim_spec(old(self)@, track_id@).1 == Some(
                    (p@, ev@.map_values(|s: String| s@)),
                ),
                None => claim_spec(old(self)@, track_id@).1 is None,
            },
    {
        let id = track_id.to_owned();
        if self.find_exec(&id).is_some() {
            return None;
        }
        proof {
            lemma_find(self@.entries, id@);
        }
        let ghost v0 = self@;
        let stem = file_stem(track_id);
        let pv = path_join_exec(&chars_of(self.dir.as_str()), &chars_of(stem.as_str()));
        let path = string_from_chars(&pv);
        self.entries.push(
            PrefetchEntry { track_id: id, path: path.clone(), complete: false, content_type: None },
        );
        let ghost grown = entries_view(self.entries@);
        assert(grown =~= v0.entries.push(
            EntryView { track_id: track_id@, path: path@, complete: false, content_type: None },
        ));
        let mut evicted: Vec<String> = Vec::new();
        let ghost k = overflow(grown.len());
        assert(k <= 1);
        if self.entries.len() > MAX_ENTRIES {
            let old = self.entries.remove(0);
            evicted.push(old.path);
            assert(entries_view(self.entries@) =~= grown.skip(1));
            assert(evicted@.map_values(|s: String| s@) =~= grown.take(1).map_values(
                |e: EntryView| e.path,
            ));
        } else {
            assert(grown.skip(0) =~= grown);
            assert(evicted@.map_values(|s: String| s@) =~= grown.take(0).map_values(
                |e: EntryView| e.path,
            ));
        }
        assert(self@.entries == grown.skip(k as int));
        proof {
            let es = self@.entries;
            assert forall|i: int, j: int| 0 <= i < j < es.len() implies #[trigger] es[i].track_id
                != #[trigger] es[j].track_id by {
                assert(es[i] == grown[i + k]);
                assert(es[j] == grown[j + k]);
                if j + k < grown.len() - 1 {
                    assert(grown[i + k] == v0.entries[i + k]);
                    assert(grown[j + k] == v0.entries[j + k]);
                } else {
                    assert(grown[i + k] == v0.entries[i + k]);
                }
            }
            assert forall|i: int| 0 <= i < es.len() implies #[trigger] es[i].path == entry_path(
                v0.dir,
                es[i].track_id,
            ) by {
                assert(es[i] == grown[i + k]);
                if i + k < grown.len() - 1 {
                    assert(grown[i + k] == v0.entries[i + k]);
                }
            }
        }
        Some((path, evicted))
    }

    /// Record that the download for `track_id` finished with `content_type`.
    pub fn mark_complete(&mut self, track_id: &str, content_type: Option<String>)
        requires
            well_formed(old(self)@),
        ensures
            well_formed(final(self)@),
            final(self)@ == mark_complete_spec(old(self)@, track_id@, opt_view(content_type)),
    {
        let id = track_id.to_owned();
        match self.find_exec(&id) {
            None => {},
            Some(i) => {
                proof {
                    lemma_find(self@.entries, id@);
                }
                let ghost v0 = self@;
                let e = self.entries.remove(i);
                let ghost ct = opt_view(content_type);
                let ne = PrefetchEntry {
                    track_id: e.track_id,
                    path: e.path,
                    complete: true,
                    content_type,
                };
                self.entries.insert(i, ne);
                assert(entries_view(self.entries@) =~= v0.entries.update(
                    i as int,
                    EntryView {
                        track_id: v0.entries[i as int].track_id,
                        path: v0.entries[i as int].path,
                        complete: true,
                        content_type: ct,
                    },
                ));
            },
        }
    }

    /// Drop a failed or aborted entry; gives the path of its partial file.
    pub fn discard(&mut self, track_id: &str) -> (r: Option<String>)
        requires
            well_formed(old(self)@),
        ensures
            well_formed(final(self)@),
            final(self)@ == discard_spec(old(self)@, track_id@).0,
            opt_view(r) == discard_spec(old(self)@, track_id@).1,
    {
        let id = track_id.to_owned();
        match self.find_exec(&id) {
            None => None,
            Some(i) => {
                proof {
                    lemma_find(self@.entries, id@);
                }
                let ghost v0 = self@;
                let e = self.entries.remove(i);
                assert(entries_view(self.entries@) =~= v0.entries.remove(i as int));
                proof {
                    lemma_discard_well_formed(v0, id@);
                }
                Some(e.path)
            },
        }
    }
}

} // verus!
