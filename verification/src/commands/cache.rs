//! Downloaded podcast episodes, grouped by show in the Downloads view.
use vstd::prelude::*;

use crate::cache::model::PodcastEpisode;

verus! {

/// A downloaded episode with its show's display fields.
#[derive(Debug, Clone)]
pub struct DownloadedEpisode {
    pub id: String,
    pub podcast_id: String,
    pub podcast_title: String,
    pub image_url: Option<String>,
    pub title: String,
    pub duration_ms: Option<i64>,
    pub file_size: Option<i64>,
}

/// Title shown for an episode whose show is not cached.
pub const FALLBACK_SHOW_TITLE: &'static str = "Podcast";

/// The show entry for `id` among `(id, title, image_url)` rows: the last
/// one holding it, as a map built from the rows keeps.
pub open spec fn show_for(shows: Seq<(String, String, Option<String>)>, id: Seq<char>) -> Option<
    (String, Option<String>),
>
    decreases shows.len(),
{
    if shows.len() == 0 {
        None
    } else if shows.last().0@ == id {
        Some((shows.last().1, shows.last().2))
    } else {
        show_for(shows.drop_last(), id)
    }
}

/// Enrich a downloaded episode with its show's title and art (a fallback
/// title and no art when the show is unknown).
pub fn downloaded_episode(e: PodcastEpisode, shows: &Vec<(String, String, Option<String>)>) -> (r:
    DownloadedEpisode)
    ensures
        r.id == e.id,
        r.podcast_id == e.podcast_id,
        r.title == e.title,
        r.duration_ms == e.duration_ms,
        r.file_size == e.file_size,
        match show_for(shows@, e.podcast_id@) {
            Some((t, img)) => r.podcast_title == t && r.image_url == img,
            None => r.podcast_title@ == FALLBACK_SHOW_TITLE@ && r.image_url is None,
        },
{
    let mut k = shows.len();
    assert(shows@.take(k as int) =~= shows@);
    while k > 0 && !(shows[k - 1].0 == e.podcast_id)
        invariant
            k <= shows@.len(),
            show_for(shows@, e.podcast_id@) == show_for(shows@.take(k as int), e.podcast_id@),
        decreases k,
    {
        assert(shows@.take(k as int).drop_last() =~= shows@.take(k - 1));
        k = k - 1;
    }
    let (podcast_title, image_url) = if k == 0 {
        (FALLBACK_SHOW_TITLE.to_owned(), None)
    } else {
        let s = &shows[k - 1];
        (
            s.1.clone(),
            match &s.2 {
                Some(u) => Some(u.clone()),
                None => None,
            },
        )
    };
    DownloadedEpisode {
        id: e.id,
        podcast_id: e.podcast_id,
        podcast_title,
        image_url,
        title: e.title,
        duration_ms: e.duration_ms,
        file_size: e.file_size,
    }
}

} // verus!
