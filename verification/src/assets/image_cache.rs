//! The bounded in-memory image cache behind `cover://`.
//!
//! Entries are keyed by request path and query, expire after a TTL, and the
//! cache holds at most `max_bytes` of image bodies: a put evicts the oldest
//! entries (by insertion sequence) until the total is back under the cap,
//! never evicting the entry just put. Times are milliseconds on the caller's
//! monotonic clock.
use vstd::prelude::*;

use crate::assets::{IMAGE_CACHE_MAX_BYTES, IMAGE_CACHE_TTL_MS};
use crate::player::prefetch::opt_view;
use crate::text::slice_bytes;

verus! {

/// One cached image.
pub struct CachedImage {
    pub key: String,
    pub body: Vec<u8>,
    pub content_type: Option<String>,
    pub seq: u64,
    pub at: u64,
}

/// A cached image as plain values.
pub struct ImageView {
    pub key: Seq<char>,
    pub body: Seq<u8>,
    pub content_type: Option<Seq<char>>,
    pub seq: u64,
    pub at: u64,
}

impl View for CachedImage {
    type V = ImageView;

    open spec fn view(&self) -> ImageView {
        ImageView {
            key: self.key@,
            body: self.body@,
            content_type: opt_view(self.content_type),
            seq: self.seq,
            at: self.at,
        }
    }
}

/// Entries in insertion order (oldest first), the byte total, the next
/// insertion sequence number, the byte cap and the TTL.
pub struct ImageCache {
    entries: Vec<CachedImage>,
    bytes: usize,
    next_seq: u64,
    max_bytes: usize,
    ttl: u64,
}

pub struct ImageCacheView {
    pub entries: Seq<ImageView>,
    pub bytes: nat,
    pub next_seq: u64,
    pub max_bytes: nat,
    pub ttl: u64,
}

pub open spec fn images_view(es: Seq<CachedImage>) -> Seq<ImageView> {
    es.map_values(|e: CachedImage| e@)
}

impl View for ImageCache {
    type V = ImageCacheView;

    closed spec fn view(&self) -> ImageCacheView {
        ImageCacheView {
            entries: images_view(self.entries@),
            bytes: self.bytes as nat,
            next_seq: self.next_seq,
            max_bytes: self.max_bytes as nat,
            ttl: self.ttl,
        }
    }
}

/// Total length of the bodies.
pub open spec fn total(es: Seq<ImageView>) -> nat
    decreases es.len(),
{
    if es.len() == 0 {
        0
    } else {
        es[0].body.len() + total(es.drop_first())
    }
}

/// Index of the entry for `key`, or -1.
pub open spec fn find_key(es: Seq<ImageView>, key: Seq<char>) -> int
    decreases es.len(),
{
    if es.len() == 0 {
        -1
    } else if es.last().key == key {
        es.len() - 1
    } else {
        find_key(es.drop_last(), key)
    }
}

/// The cache's invariant: keys unique, sequence numbers increasing and
/// below `next_seq`, every body non-empty and within the cap, the byte count
/// exact and within the cap (which leaves room to add one more body).
pub open spec fn well_formed(v: ImageCacheView) -> bool {
    &&& v.max_bytes <= usize::MAX / 2
    &&& v.bytes == total(v.entries)
    &&& v.bytes <= v.max_bytes
    &&& forall|i: int, j: int|
        0 <= i < j < v.entries.len() ==> #[trigger] v.entries[i].key != #[trigger] v.entries[j].key
            && v.entries[i].seq < v.entries[j].seq
    &&& forall|i: int|
        0 <= i < v.entries.len() ==> #[trigger] v.entries[i].seq < v.next_seq && 0
            < v.entries[i].body.len() <= v.max_bytes
}

/// Time since `at`, zero when the clock reads earlier.
pub open spec fn elapsed(now: u64, at: u64) -> u64 {
    if now >= at {
        (now - at) as u64
    } else {
        0
    }
}

/// `get`: a fresh entry is returned; a stale one is dropped and `None`
/// returned.
pub open spec fn get_spec(v: ImageCacheView, key: Seq<char>, now: u64) -> (
    ImageCacheView,
    Option<(Seq<u8>, Option<Seq<char>>)>,
) {
    let i = find_key(v.entries, key);
    if i < 0 {
        (v, None)
    } else if elapsed(now, v.entries[i].at) <= v.ttl {
        (v, Some((v.entries[i].body, v.entries[i].content_type)))
    } else {
        (
            ImageCacheView {
                entries: v.entries.remove(i),
                bytes: (v.bytes - v.entries[i].body.len()) as nat,
                ..v
            },
            None,
        )
    }
}

/// Eviction: drop the oldest entries while over the cap and more than one
/// is left.
pub open spec fn evict(es: Seq<ImageView>, max_bytes: nat) -> Seq<ImageView>
    decreases es.len(),
{
    if total(es) > max_bytes && es.len() > 1 {
        evict(es.drop_first(), max_bytes)
    } else {
        es
    }
}

/// `put`: an empty body, or one larger than the whole cache, is not cached;
/// otherwise the body replaces any entry for `key`, takes the next sequence
/// number, and the oldest entries are evicted.
pub open spec fn put_spec(
    v: ImageCacheView,
    key: Seq<char>,
    body: Seq<u8>,
    content_type: Option<Seq<char>>,
    now: u64,
) -> ImageCacheView {
    if body.len() == 0 || body.len() > v.max_bytes {
        v
    } else {
        let i = find_key(v.entries, key);
        let rest = if i >= 0 {
            v.entries.remove(i)
        } else {
            v.entries
        };
        let added = rest.push(
            ImageView { key: key, body: body, content_type: content_type, seq: v.next_seq, at: now },
        );
        let kept = evict(added, v.max_bytes);
        ImageCacheView {
            entries: kept,
            bytes: total(kept),
            next_seq: (v.next_seq + 1) as u64,
            ..v
        }
    }
}

pub proof fn lemma_total_push(es: Seq<ImageView>, x: ImageView)
    ensures
        total(es.push(x)) == total(es) + x.body.len(),
    decreases es.len(),
{
    if es.len() > 0 {
        assert(es.push(x).drop_first() =~= es.drop_first().push(x));
        assert(es.push(x)[0] == es[0]);
        lemma_total_push(es.drop_first(), x);
        assert(total(es.push(x)) == es[0].body.len() + total(es.push(x).drop_first()));
        assert(total(es) == es[0].body.len() + total(es.drop_first()));
    } else {
        assert(es.push(x).drop_first() =~= Seq::<ImageView>::empty());
        assert(es.push(x)[0] == x);
        assert(total(es.push(x)) == x.body.len() + total(es.push(x).drop_first()));
    }
}

pub proof fn lemma_total_remove(es: Seq<ImageView>, i: int)
    requires
        0 <= i < es.len(),
    ensures
        total(es.remove(i)) == total(es) - es[i].body.len(),
    decreases es.len(),
{
    if i > 0 {
        assert(es.remove(i).drop_first() =~= es.drop_first().remove(i - 1));
        lemma_total_remove(es.drop_first(), i - 1);
    } else {
        assert(es.remove(0) =~= es.drop_first());
    }
}

pub proof fn lemma_find_key(es: Seq<ImageView>, key: Seq<char>)
    ensures
        -1 <= find_key(es, key) < es.len(),
        find_key(es, key) >= 0 ==> es[find_key(es, key)].key == key,
        find_key(es, key) == -1 <==> forall|i: int| 0 <= i < es.len() ==> #[trigger] es[i].key != key,
    decreases es.len(),
{
    if es.len() > 0 {
        lemma_find_key(es.drop_last(), key);
        if es.last().key != key {
            assert forall|i: int| 0 <= i < es.len() - 1 implies #[trigger] es[i].key
                == es.drop_last()[i].key by {}
        }
    }
}

/// Eviction keeps a non-empty suffix ending with the newest entry, under
/// the cap unless only that entry is left.
pub proof fn lemma_evict(es: Seq<ImageView>, max_bytes: nat)
    requires
        es.len() >= 1,
    ensures
        1 <= evict(es, max_bytes).len() <= es.len(),
        evict(es, max_bytes) == es.skip(es.len() - evict(es, max_bytes).len()),
        total(evict(es, max_bytes)) <= max_bytes || evict(es, max_bytes).len() == 1,
    decreases es.len(),
{
    if total(es) > max_bytes && es.len() > 1 {
        lemma_evict(es.drop_first(), max_bytes);
        let r = evict(es.drop_first(), max_bytes);
        assert(es.drop_first().skip(es.len() - 1 - r.len()) =~= es.skip(es.len() - r.len()));
    } else {
        assert(es.skip(0) =~= es);
    }
}

/// Removing one entry keeps the other entries' pairwise facts.
proof fn lemma_remove_keeps(v: ImageCacheView, i: int)
    requires
        well_formed(v),
        0 <= i < v.entries.len(),
    ensures
        forall|a: int, b: int|
            0 <= a < b < v.entries.remove(i).len() ==> #[trigger] v.entries.remove(i)[a].key
                != #[trigger] v.entries.remove(i)[b].key && v.entries.remove(i)[a].seq
                < v.entries.remove(i)[b].seq,
        forall|a: int|
            0 <= a < v.entries.remove(i).len() ==> #[trigger] v.entries.remove(i)[a].seq
                < v.next_seq && 0 < v.entries.remove(i)[a].body.len() <= v.max_bytes,
        total(v.entries.remove(i)) == total(v.entries) - v.entries[i].body.len(),
{
    let es = v.entries.remove(i);
    assert forall|a: int, b: int| 0 <= a < b < es.len() implies #[trigger] es[a].key
        != #[trigger] es[b].key && es[a].seq < es[b].seq by {
        let a0 = if a < i {
            a
        } else {
            a + 1
        };
        let b0 = if b < i {
            b
        } else {
            b + 1
        };
        assert(es[a] == v.entries[a0]);
        assert(es[b] == v.entries[b0]);
        assert(0 <= a0 < b0 < v.entries.len());
        assert(v.entries[a0].key != v.entries[b0].key);
        assert(v.entries[a0].seq < v.entries[b0].seq);
    }
    assert forall|a: int| 0 <= a < es.len() implies #[trigger] es[a].seq < v.next_seq && 0
        < es[a].body.len() <= v.max_bytes by {
        let a0 = if a < i {
            a
        } else {
            a + 1
        };
        assert(es[a] == v.entries[a0]);
    }
    lemma_total_remove(v.entries, i);
}

/// `get` keeps the invariant.
pub proof fn lemma_get_well_formed(v: ImageCacheView, key: Seq<char>, now: u64)
    requires
        well_formed(v),
    ensures
        well_formed(get_spec(v, key, now).0),
{
    lemma_find_key(v.entries, key);
    let i = find_key(v.entries, key);
    if i >= 0 && elapsed(now, v.entries[i].at) > v.ttl {
        lemma_remove_keeps(v, i);
    }
}

/// `put` keeps the invariant.
pub proof fn lemma_put_well_formed(
    v: ImageCacheView,
    key: Seq<char>,
    body: Seq<u8>,
    content_type: Option<Seq<char>>,
    now: u64,
)
    requires
        well_formed(v),
        v.next_seq < u64::MAX,
    ensures
        well_formed(put_spec(v, key, body, content_type, now)),
{
    if !(body.len() == 0 || body.len() > v.max_bytes) {
        lemma_find_key(v.entries, key);
        let i = find_key(v.entries, key);
        let rest = if i >= 0 {
            v.entries.remove(i)
        } else {
            v.entries
        };
        if i >= 0 {
            lemma_remove_keeps(v, i);
        }
        let x = ImageView {
            key: key,
            body: body,
            content_type: content_type,
            seq: v.next_seq,
            at: now,
        };
        let added = rest.push(x);
        lemma_total_push(rest, x);
        assert forall|a: int| 0 <= a < rest.len() implies #[trigger] rest[a].key != key by {
            if i >= 0 {
                let a0 = if a < i {
                    a
                } else {
                    a + 1
                };
                assert(rest[a] == v.entries[a0]);
                if a0 < i {
                    assert(v.entries[a0].key != v.entries[i].key);
                } else {
                    assert(v.entries[i].key != v.entries[a0].key);
                }
            }
        }
        assert forall|a: int, b: int| 0 <= a < b < added.len() implies #[trigger] added[a].key
            != #[trigger] added[b].key && added[a].seq < added[b].seq by {
            assert(added[a] == rest[a]);
            if b < rest.len() {
                assert(added[b] == rest[b]);
                if i >= 0 {
                    assert(rest[a].key != rest[b].key);
                    assert(rest[a].seq < rest[b].seq);
                } else {
                    assert(v.entries[a].key != v.entries[b].key);
                    assert(v.entries[a].seq < v.entries[b].seq);
                }
            } else {
                assert(added[b] == x);
                assert(rest[a].key != key);
                if i < 0 {
                    assert(v.entries[a].seq < v.next_seq);
                } else {
                    assert(rest[a].seq < v.next_seq);
                }
            }
        }
        assert forall|a: int| 0 <= a < added.len() implies #[trigger] added[a].seq < v.next_seq
            + 1 && 0 < added[a].body.len() <= v.max_bytes by {
            if a < rest.len() {
                assert(added[a] == rest[a]);
                if i < 0 {
                    assert(v.entries[a].seq < v.next_seq && 0 < v.entries[a].body.len()
                        <= v.max_bytes);
                } else {
                    assert(rest[a].seq < v.next_seq && 0 < rest[a].body.len() <= v.max_bytes);
                }
            }
        }
        lemma_evict(added, v.max_bytes);
        let kept = evict(added, v.max_bytes);
        let d = added.len() - kept.len();
        assert forall|a: int, b: int| 0 <= a < b < kept.len() implies #[trigger] kept[a].key
            != #[trigger] kept[b].key && kept[a].seq < kept[b].seq by {
            assert(kept[a] == added[a + d]);
            assert(kept[b] == added[b + d]);
            assert(added[a + d].key != added[b + d].key);
            assert(added[a + d].seq < added[b + d].seq);
        }
        assert forall|a: int| 0 <= a < kept.len() implies #[trigger] kept[a].seq < v.next_seq
            + 1 && 0 < kept[a].body.len() <= v.max_bytes by {
            assert(kept[a] == added[a + d]);
            assert(added[a + d].seq < v.next_seq + 1 && 0 < added[a + d].body.len()
                <= v.max_bytes);
        }
        if kept.len() == 1 {
            assert(kept[0] == added[added.len() - 1]);
            assert(kept.drop_first() =~= Seq::<ImageView>::empty());
            assert(total(kept) == kept[0].body.len() + total(kept.drop_first()));
        }
        assert((v.next_seq + 1) as u64 == v.next_seq + 1);
        let r = put_spec(v, key, body, content_type, now);
        assert(r.entries == kept);
        assert(r.bytes == total(kept));
        assert(r.bytes <= r.max_bytes);
    }
}

/// Read after write: a body just put (non-empty and within the cap) is what
/// `get` returns for its key while it is fresh.
pub proof fn law_get_after_put(
    v: ImageCacheView,
    key: Seq<char>,
    body: Seq<u8>,
    content_type: Option<Seq<char>>,
    now: u64,
    later: u64,
)
    requires
        well_formed(v),
        v.next_seq < u64::MAX,
        0 < body.len() <= v.max_bytes,
        elapsed(later, now) <= v.ttl,
    ensures
        get_spec(put_spec(v, key, body, content_type, now), key, later).1 == Some(
            (body, content_type),
        ),
{
    lemma_put_well_formed(v, key, body, content_type, now);
    lemma_find_key(v.entries, key);
    let i = find_key(v.entries, key);
    let rest = if i >= 0 {
        v.entries.remove(i)
    } else {
        v.entries
    };
    let x = ImageView { key: key, body: body, content_type: content_type, seq: v.next_seq, at: now };
    let added = rest.push(x);
    lemma_evict(added, v.max_bytes);
    let kept = evict(added, v.max_bytes);
    assert(kept.last() == x);
}

/// The entries a put considers before evicting: the cache without any
/// entry for `key`, then the new entry.
pub open spec fn put_candidates(
    v: ImageCacheView,
    key: Seq<char>,
    body: Seq<u8>,
    content_type: Option<Seq<char>>,
    now: u64,
) -> Seq<ImageView> {
    let i = find_key(v.entries, key);
    let rest = if i >= 0 {
        v.entries.remove(i)
    } else {
        v.entries
    };
    rest.push(
        ImageView { key: key, body: body, content_type: content_type, seq: v.next_seq, at: now },
    )
}

proof fn lemma_candidates_in_order(
    v: ImageCacheView,
    key: Seq<char>,
    body: Seq<u8>,
    content_type: Option<Seq<char>>,
    now: u64,
)
    requires
        well_formed(v),
    ensures
        forall|a: int, b: int|
            0 <= a < b < put_candidates(v, key, body, content_type, now).len() ==> (
            #[trigger] put_candidates(v, key, body, content_type, now)[a]).seq < (
            #[trigger] put_candidates(v, key, body, content_type, now)[b]).seq,
{
    lemma_find_key(v.entries, key);
    let i = find_key(v.entries, key);
    let rest = if i >= 0 {
        v.entries.remove(i)
    } else {
        v.entries
    };
    if i >= 0 {
        lemma_remove_keeps(v, i);
    }
    let added = put_candidates(v, key, body, content_type, now);
    assert forall|a: int, b: int| 0 <= a < b < added.len() implies (#[trigger] added[a]).seq < (
    #[trigger] added[b]).seq by {
        assert(added[a] == rest[a]);
        if b < rest.len() {
            assert(added[b] == rest[b]);
            if i < 0 {
                assert(v.entries[a].key != v.entries[b].key);
                assert(v.entries[a].seq < v.entries[b].seq);
            } else {
                assert(rest[a].key != rest[b].key);
                assert(rest[a].seq < rest[b].seq);
            }
        } else {
            if i < 0 {
                assert(v.entries[a].seq < v.next_seq);
            } else {
                assert(rest[a].seq < v.next_seq);
            }
        }
    }
}

/// Eviction takes the oldest entries first: a put keeps the newest part of
/// the candidates, ending with the entry just put, and every entry it
/// drops is older (has a smaller sequence number) than every entry kept.
pub proof fn law_put_evicts_oldest_first(
    v: ImageCacheView,
    key: Seq<char>,
    body: Seq<u8>,
    content_type: Option<Seq<char>>,
    now: u64,
)
    requires
        well_formed(v),
        0 < body.len() <= v.max_bytes,
    ensures
        1 <= put_spec(v, key, body, content_type, now).entries.len() <= put_candidates(
            v,
            key,
            body,
            content_type,
            now,
        ).len(),
        put_spec(v, key, body, content_type, now).entries == put_candidates(
            v,
            key,
            body,
            content_type,
            now,
        ).skip(
            put_candidates(v, key, body, content_type, now).len() - put_spec(
                v,
                key,
                body,
                content_type,
                now,
            ).entries.len(),
        ),
        forall|a: int, b: int|
            0 <= a < put_candidates(v, key, body, content_type, now).len() - put_spec(
                v,
                key,
                body,
                content_type,
                now,
            ).entries.len() && 0 <= b < put_spec(v, key, body, content_type, now).entries.len()
                ==> (#[trigger] put_candidates(v, key, body, content_type, now)[a]).seq < (
            #[trigger] put_spec(v, key, body, content_type, now).entries[b]).seq,
        put_spec(v, key, body, content_type, now).entries.last().key == key,
        put_spec(v, key, body, content_type, now).entries.last().body == body,
{
    let added = put_candidates(v, key, body, content_type, now);
    lemma_evict(added, v.max_bytes);
    lemma_candidates_in_order(v, key, body, content_type, now);
    let kept = evict(added, v.max_bytes);
    assert(put_spec(v, key, body, content_type, now).entries == kept);
    let d = added.len() - kept.len();
    assert forall|a: int, b: int| 0 <= a < d && 0 <= b < kept.len() implies (
    #[trigger] added[a]).seq < (#[trigger] kept[b]).seq by {
        assert(kept[b] == added[b + d]);
    }
    assert(kept.last() == added.last());
}

/// A body that is empty or larger than the whole cache is never cached.
pub proof fn law_put_rejects_empty_or_oversized(
    v: ImageCacheView,
    key: Seq<char>,
    body: Seq<u8>,
    content_type: Option<Seq<char>>,
    now: u64,
)
    requires
        body.len() == 0 || body.len() > v.max_bytes,
    ensures
        put_spec(v, key, body, content_type, now) == v,
{
}

/// A stale entry is never returned, and `get` drops it.
pub proof fn law_stale_entry_dropped(v: ImageCacheView, key: Seq<char>, now: u64)
    requires
        well_formed(v),
        find_key(v.entries, key) >= 0,
        elapsed(now, v.entries[find_key(v.entries, key)].at) > v.ttl,
    ensures
        get_spec(v, key, now).1 is None,
        find_key(get_spec(v, key, now).0.entries, key) == -1,
{
    lemma_find_key(v.entries, key);
    let i = find_key(v.entries, key);
    let es = v.entries.remove(i);
    lemma_find_key(es, key);
    assert forall|a: int| 0 <= a < es.len() implies #[trigger] es[a].key != key by {
        let a0 = if a < i {
            a
        } else {
            a + 1
        };
        assert(es[a] == v.entries[a0]);
        if a0 < i {
            assert(v.entries[a0].key != v.entries[i].key);
        } else {
            assert(v.entries[i].key != v.entries[a0].key);
        }
    }
}

/// The byte count is exactly the bodies' total and never over the cap.
pub proof fn law_bytes_accounted(v: ImageCacheView)
    requires
        well_formed(v),
    ensures
        v.bytes == total(v.entries),
        v.bytes <= v.max_bytes,
{
}

fn clone_opt(o: &Option<String>) -> (r: Option<String>)
    ensures
        opt_view(r) == opt_view(*o),
{
    match o {
        Some(s) => Some(s.clone()),
        None => None,
    }
}

impl ImageCache {
    /// An empty cache holding at most `max_bytes` of bodies for `ttl` ms.
    pub fn new(max_bytes: usize, ttl: u64) -> (c: Self)
        requires
            max_bytes <= usize::MAX / 2,
        ensures
            well_formed(c@),
            c@.entries.len() == 0,
            c@.max_bytes == max_bytes,
            c@.ttl == ttl,
            c@.next_seq == 0,
    {
        let c = ImageCache { entries: Vec::new(), bytes: 0, next_seq: 0, max_bytes, ttl };
        assert(c@.entries =~= Seq::<ImageView>::empty());
        c
    }

    /// The next insertion sequence number.
    pub fn next_seq(&self) -> (r: u64)
        ensures
            r == self@.next_seq,
    {
        self.next_seq
    }

    fn find_exec(&self, key: &String) -> (r: Option<usize>)
        ensures
            match r {
                None => find_key(self@.entries, key@) == -1,
                Some(i) => find_key(self@.entries, key@) == i && i < self.entries@.len(),
            },
    {
        let ghost ev = self@.entries;
        let mut k = self.entries.len();
        assert(ev.take(k as int) =~= ev);
        while k > 0 && !(self.entries[k - 1].key == *key)
            invariant
                k <= self.entries@.len(),
                ev == images_view(self.entries@),
                find_key(ev, key@) == find_key(ev.take(k as int), key@),
            decreases k,
        {
            assert(ev.take(k as int).drop_last() =~= ev.take(k - 1));
            k = k - 1;
        }
        if k == 0 {
            None
        } else {
            Some(k - 1)
        }
    }

    /// The body and Content-Type cached for `key`, if still fresh at `now`;
    /// a stale entry is dropped.
    pub fn get(&mut self, key: &str, now: u64) -> (r: Option<(Vec<u8>, Option<String>)>)
        requires
            well_formed(old(self)@),
        ensures
            well_formed(final(self)@),
            final(self)@ == get_spec(old(self)@, key@, now).0,
            match r {
                Some((b, ct)) => get_spec(old(self)@, key@, now).1 == Some((b@, opt_view(ct))),
                None => get_spec(old(self)@, key@, now).1 is None,
            },
    {
        proof {
            lemma_get_well_formed(self@, key@, now);
        }
        let k = key.to_owned();
        match self.find_exec(&k) {
            None => None,
            Some(i) => {
                let at = self.entries[i].at;
                let age: u64 = if now >= at {
                    now - at
                } else {
                    0
                };
                if age <= self.ttl {
                    let e = &self.entries[i];
                    let b = slice_bytes(&e.body, 0, e.body.len());
                    assert(e.body@.subrange(0, e.body@.len() as int) =~= e.body@);
                    Some((b, clone_opt(&e.content_type)))
                } else {
                    let ghost v0 = self@;
                    proof {
                        lemma_total_remove(v0.entries, i as int);
                    }
                    let e = self.entries.remove(i);
                    self.bytes = self.bytes - e.body.len();
                    assert(images_view(self.entries@) =~= v0.entries.remove(i as int));
                    None
                }
            },
        }
    }

    /// Cache `body` for `key` at time `now`.
    pub fn put(&mut self, key: String, body: Vec<u8>, content_type: Option<String>, now: u64)
        requires
            well_formed(old(self)@),
            old(self)@.next_seq < u64::MAX,
        ensures
            well_formed(final(self)@),
            final(self)@ == put_spec(old(self)@, key@, body@, opt_view(content_type), now),
    {
        let len = body.len();
        if len == 0 || len > self.max_bytes {
            return;
        }
        let ghost v0 = self@;
        proof {
            lemma_put_well_formed(v0, key@, body@, opt_view(content_type), now);
            lemma_find_key(v0.entries, key@);
        }
        let seq = self.next_seq;
        self.next_seq = self.next_seq + 1;
        match self.find_exec(&key) {
            Some(i) => {
                proof {
                    lemma_total_remove(v0.entries, i as int);
                }
                let old = self.entries.remove(i);
                self.bytes = self.bytes - old.body.len();
                assert(images_view(self.entries@) =~= v0.entries.remove(i as int));
            },
            None => {},
        }
        let ghost rest = images_view(self.entries@);
        let ghost x = ImageView {
            key: key@,
            body: body@,
            content_type: opt_view(content_type),
            seq: seq,
            at: now,
        };
        self.entries.push(CachedImage { key, body, content_type, seq, at: now });
        proof {
            lemma_total_push(rest, x);
        }
        self.bytes = self.bytes + len;
        let ghost added = images_view(self.entries@);
        assert(added =~= rest.push(x));
        while self.bytes > self.max_bytes && self.entries.len() > 1
            invariant
                self.bytes == total(images_view(self.entries@)),
                evict(added, v0.max_bytes) == evict(images_view(self.entries@), v0.max_bytes),
                self.max_bytes == v0.max_bytes,
                self.ttl == v0.ttl,
                self.next_seq == v0.next_seq + 1,
            decreases self.entries.len(),
        {
            let ghost cur = images_view(self.entries@);
            let e = self.entries.remove(0);
            assert(images_view(self.entries@) =~= cur.drop_first());
            self.bytes = self.bytes - e.body.len();
        }
        assert(images_view(self.entries@) == evict(added, v0.max_bytes));
    }
}

/// The shared cache's configuration: 48 MiB of bodies, fresh for 6 h.
pub fn image_cache() -> (c: ImageCache)
    ensures
        well_formed(c@),
        c@.entries.len() == 0,
        c@.max_bytes == IMAGE_CACHE_MAX_BYTES,
        c@.ttl == IMAGE_CACHE_TTL_MS,
{
    ImageCache::new(IMAGE_CACHE_MAX_BYTES, IMAGE_CACHE_TTL_MS)
}

} // verus!
