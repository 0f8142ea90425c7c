//! How library reads combine the server and the offline cache: which source
//! served a view, when a server failure falls back to the cache, and the
//! cache-side search.
use vstd::prelude::*;

use crate::cache::model as cache_model;
use crate::error::AppError;
use crate::library::merged::{MergedArtist, MergedTrack};
use crate::text::{
    ascii_lower_seq, chars_of, contains_exec, contains_seq, string_from_chars, to_ascii_lower,
};

verus! {

/// Which data source serviced a call.
#[derive(Debug, Clone, Copy, PartialEq, Eq, Structural)]
pub enum LibrarySource {
    Server,
    Cache,
}

/// A result with its source and, for paginated server lists, the
/// server-reported total.
#[derive(Debug, Clone)]
pub struct LibraryView<T> {
    pub source: LibrarySource,
    pub items: Vec<T>,
    pub total: Option<i64>,
}

impl<T> LibraryView<T> {
    pub fn server_with_total(items: Vec<T>, total: i64) -> (r: Self)
        ensures
            r.source == LibrarySource::Server,
            r.items == items,
            r.total == Some(total),
    {
        LibraryView { source: LibrarySource::Server, items, total: Some(total) }
    }

    pub fn server(items: Vec<T>) -> (r: Self)
        ensures
            r.source == LibrarySource::Server,
            r.items == items,
            r.total is None,
    {
        LibraryView { source: LibrarySource::Server, items, total: None }
    }

    pub fn cache(items: Vec<T>) -> (r: Self)
        ensures
            r.source == LibrarySource::Cache,
            r.items == items,
            r.total is None,
    {
        LibraryView { source: LibrarySource::Cache, items, total: None }
    }
}

/// Errors that mean "serve the cache instead": the server is unreachable,
/// or no credential is configured locally. Auth rejections are not among
/// them: those need a re-login, not stale data.
pub open spec fn offline_signal(err: AppError) -> bool {
    err is Transport || err is AuthNotConfigured
}

pub fn is_offline_signal(err: &AppError) -> (r: bool)
    ensures
        r == offline_signal(*err),
{
    match err {
        AppError::Transport(_) | AppError::AuthNotConfigured(_) => true,
        _ => false,
    }
}

/// Case-insensitive (ASCII) substring match used by cache search.
pub open spec fn matches_query(text: Seq<char>, query: Seq<char>) -> bool {
    contains_seq(ascii_lower_seq(text), ascii_lower_seq(query))
}

pub fn matches_query_exec(text: &str, query: &str) -> (r: bool)
    ensures
        r == matches_query(text@, query@),
{
    let t = to_ascii_lower(&chars_of(text));
    let q = string_from_chars(&to_ascii_lower(&chars_of(query)));
    contains_exec(&t, q.as_str())
}

/// The cached artists whose name matches the query, in order.
pub open spec fn artists_matching(rows: Seq<cache_model::Artist>, query: Seq<char>) -> Seq<
    cache_model::Artist,
>
    decreases rows.len(),
{
    if rows.len() == 0 {
        rows
    } else {
        let s = artists_matching(rows.drop_last(), query);
        if matches_query(rows.last().name@, query) {
            s.push(rows.last())
        } else {
            s
        }
    }
}

/// The downloaded tracks whose title matches the query, in order.
pub open spec fn tracks_matching(rows: Seq<cache_model::Track>, query: Seq<char>) -> Seq<
    cache_model::Track,
>
    decreases rows.len(),
{
    if rows.len() == 0 {
        rows
    } else {
        let s = tracks_matching(rows.drop_last(), query);
        if matches_query(rows.last().title@, query) {
            s.push(rows.last())
        } else {
            s
        }
    }
}

/// `m` is the merged view of cached artist `a`.
pub open spec fn artist_from_cache<A>(m: MergedArtist<A>, a: cache_model::Artist) -> bool {
    &&& m.id == a.id
    &&& m.name == a.name
    &&& m.sort_name == a.sort_name
    &&& m.image_path is None
    &&& m.aliases@.len() == 0
    &&& m.storage_bytes == a.storage_bytes
    &&& m.downloaded
}

/// `m` is the merged view of cached track `t`.
pub open spec fn track_from_cache<A>(m: MergedTrack<A>, t: cache_model::Track) -> bool {
    &&& m.id == t.id
    &&& m.album_id == t.album_id
    &&& m.artist_id == t.artist_id
    &&& m.title == t.title
    &&& m.track_no == t.track_no
    &&& m.disc_no == t.disc_no
    &&& m.duration_ms == t.duration_ms
    &&& m.codec == t.codec
    &&& m.bitrate_kbps == t.bitrate_kbps
    &&& m.file_path == t.local_file_path
    &&& m.file_size == t.file_size
    &&& m.sample_rate_hz == t.sample_rate_hz
    &&& m.bit_depth == t.bit_depth
    &&& m.channels == t.channels
    &&& m.local_file_path == Some(t.local_file_path)
    &&& !m.is_single_release
    &&& m.aliases@.len() == 0
    &&& m.downloaded
}

/// Offline artist search: the cached artists whose name contains the query
/// (ASCII case-insensitively), as a cache view.
pub fn search_artists_in_cache<A>(rows: Vec<cache_model::Artist>, query: &str) -> (r: LibraryView<
    MergedArtist<A>,
>)
    ensures
        r.source == LibrarySource::Cache,
        r.total is None,
        r.items@.len() == artists_matching(rows@, query@).len(),
        forall|j: int|
            0 <= j < r.items@.len() ==> artist_from_cache(
                #[trigger] r.items@[j],
                artists_matching(rows@, query@)[j],
            ),
{
    let ghost all = rows@;
    let mut rest = rows;
    let mut items: Vec<MergedArtist<A>> = Vec::new();
    assert(all.skip(0) =~= all);
    while rest.len() > 0
        invariant
            rest@.len() <= all.len(),
            rest@ == all.skip(all.len() - rest@.len()),
            items@.len() == artists_matching(all.take(all.len() - rest@.len()), query@).len(),
            forall|j: int|
                0 <= j < items@.len() ==> artist_from_cache(
                    #[trigger] items@[j],
                    artists_matching(all.take(all.len() - rest@.len()), query@)[j],
                ),
        decreases rest@.len(),
    {
        let ghost i = all.len() - rest@.len();
        let a = rest.remove(0);
        assert(rest@ =~= all.skip(i + 1));
        assert(all.take(i + 1).drop_last() =~= all.take(i));
        assert(all.take(i + 1).last() == a);
        if matches_query_exec(a.name.as_str(), query) {
            let m = MergedArtist::<A>::from_cache(a);
            items.push(m);
        }
    }
    assert(all.take(all.len() as int) =~= all);
    LibraryView::cache(items)
}

/// Offline track search: the downloaded tracks whose title contains the
/// query (ASCII case-insensitively), as a cache view.
pub fn search_tracks_in_cache<A>(rows: Vec<cache_model::Track>, query: &str) -> (r: LibraryView<
    MergedTrack<A>,
>)
    ensures
        r.source == LibrarySource::Cache,
        r.total is None,
        r.items@.len() == tracks_matching(rows@, query@).len(),
        forall|j: int|
            0 <= j < r.items@.len() ==> track_from_cache(
                #[trigger] r.items@[j],
                tracks_matching(rows@, query@)[j],
            ),
{
    let ghost all = rows@;
    let mut rest = rows;
    let mut items: Vec<MergedTrack<A>> = Vec::new();
    assert(all.skip(0) =~= all);
    while rest.len() > 0
        invariant
            rest@.len() <= all.len(),
            rest@ == all.skip(all.len() - rest@.len()),
            items@.len() == tracks_matching(all.take(all.len() - rest@.len()), query@).len(),
            forall|j: int|
                0 <= j < items@.len() ==> track_from_cache(
                    #[trigger] items@[j],
                    tracks_matching(all.take(all.len() - rest@.len()), query@)[j],
                ),
        decreases rest@.len(),
    {
        let ghost i = all.len() - rest@.len();
        let t = rest.remove(0);
        assert(rest@ =~= all.skip(i + 1));
        assert(all.take(i + 1).drop_last() =~= all.take(i));
        assert(all.take(i + 1).last() == t);
        if matches_query_exec(t.title.as_str(), query) {
            let m = MergedTrack::<A>::from_cache(t);
            items.push(m);
        }
    }
    assert(all.take(all.len() as int) =~= all);
    LibraryView::cache(items)
}

} // verus!
