//! The aggregate cache: derived values (average rating, review count) keyed
//! by `(review kind, target id)`, each entry carrying a fixed time-to-live
//! and nothing else — no capacity bound, no LRU. Entries are populated
//! lazily by readers, deleted explicitly on writes, and expire on their own
//! once `now` passes their deadline.
use vstd::prelude::*;
use crate::review::AverageRating;
use crate::review::AvgData;
use crate::review::ReviewType;
use crate::select::filter_where;
use crate::select::find_first;
use crate::select::lemma_filter_where_all;
use crate::select::lemma_filter_where_membership;
use crate::select::lemma_filter_where_push;
use crate::select::lemma_find_first;

verus! {

/// Seconds a cached aggregate lives when nothing invalidates it.
pub const CACHE_DURATION: i64 = 600;

/// The mathematical value of one cache entry.
pub ghost struct EntryData<V> {
    pub review_type: ReviewType,
    pub target_id: int,
    pub deadline: int,
    pub value: V,
}

/// Entries under the given key.
pub open spec fn key_pred<V>(review_type: ReviewType, target_id: int) -> spec_fn(
    EntryData<V>,
) -> bool {
    |e: EntryData<V>| e.review_type == review_type && e.target_id == target_id
}

/// Entries under any other key.
pub open spec fn other_key<V>(review_type: ReviewType, target_id: int) -> spec_fn(
    EntryData<V>,
) -> bool {
    |e: EntryData<V>| !(e.review_type == review_type && e.target_id == target_id)
}

/// The entry stored under a key, if any.
pub open spec fn lookup_entry<V>(
    s: Seq<EntryData<V>>,
    review_type: ReviewType,
    target_id: int,
) -> Option<EntryData<V>> {
    let i = find_first(s, key_pred(review_type, target_id));
    if i < 0 {
        None
    } else {
        Some(s[i])
    }
}

/// The entries left after deleting a key; deleting an absent key changes
/// nothing.
pub open spec fn remove_key<V>(
    s: Seq<EntryData<V>>,
    review_type: ReviewType,
    target_id: int,
) -> Seq<EntryData<V>> {
    filter_where(s, other_key(review_type, target_id))
}

/// Storing under a key replaces whatever the key held.
pub open spec fn put_entry<V>(s: Seq<EntryData<V>>, e: EntryData<V>) -> Seq<EntryData<V>> {
    remove_key(s, e.review_type, e.target_id).push(e)
}

/// The value a reader sees at time `now`: present and not yet expired.
pub open spec fn fresh_entry<V>(
    s: Seq<EntryData<V>>,
    review_type: ReviewType,
    target_id: int,
    now: int,
) -> Option<V> {
    match lookup_entry(s, review_type, target_id) {
        Some(e) => if now < e.deadline {
            Some(e.value)
        } else {
            None
        },
        None => None,
    }
}

/// The mathematical state of the cache: the rating entries and the count
/// entries, cached independently (a hit on one says nothing about the
/// other).
pub ghost struct CacheModel {
    pub ratings: Seq<EntryData<AvgData>>,
    pub counts: Seq<EntryData<int>>,
}

/// What storing an average does to the cache state.
pub open spec fn cache_put_rating(
    c: CacheModel,
    review_type: ReviewType,
    target_id: int,
    value: AvgData,
    now: int,
) -> CacheModel {
    CacheModel {
        ratings: put_entry(
            c.ratings,
            EntryData {
                review_type: review_type,
                target_id: target_id,
                deadline: now + CACHE_DURATION,
                value: value,
            },
        ),
        counts: c.counts,
    }
}

/// What storing a count does to the cache state.
pub open spec fn cache_put_count(
    c: CacheModel,
    review_type: ReviewType,
    target_id: int,
    value: int,
    now: int,
) -> CacheModel {
    CacheModel {
        ratings: c.ratings,
        counts: put_entry(
            c.counts,
            EntryData {
                review_type: review_type,
                target_id: target_id,
                deadline: now + CACHE_DURATION,
                value: value,
            },
        ),
    }
}

/// What invalidation does: both aggregates for the key are gone.
pub open spec fn cache_invalidate(
    c: CacheModel,
    review_type: ReviewType,
    target_id: int,
) -> CacheModel {
    CacheModel {
        ratings: remove_key(c.ratings, review_type, target_id),
        counts: remove_key(c.counts, review_type, target_id),
    }
}

/// The mathematical value of an optional count.
pub open spec fn count_opt_view(r: Option<i64>) -> Option<int> {
    match r {
        Some(c) => Some(c as int),
        None => None,
    }
}

/// A deleted key reads back as absent.
pub proof fn lemma_remove_key_removes<V>(s: Seq<EntryData<V>>, review_type: ReviewType, target_id: int)
    ensures
        lookup_entry(remove_key(s, review_type, target_id), review_type, target_id) is None,
{
    let kept = remove_key(s, review_type, target_id);
    lemma_filter_where_membership(s, other_key(review_type, target_id));
    lemma_find_first(kept, key_pred::<V>(review_type, target_id));
    assert forall|i: int| 0 <= i < kept.len() implies !(key_pred::<V>(review_type, target_id)(
        #[trigger] kept[i],
    )) by {
        assert(other_key(review_type, target_id)(kept[i]));
    }
}

/// Deleting a key that holds nothing is a no-op.
pub proof fn lemma_remove_key_absent<V>(s: Seq<EntryData<V>>, review_type: ReviewType, target_id: int)
    requires
        lookup_entry(s, review_type, target_id) is None,
    ensures
        remove_key(s, review_type, target_id) == s,
{
    lemma_find_first(s, key_pred::<V>(review_type, target_id));
    assert forall|i: int| 0 <= i < s.len() implies (other_key(review_type, target_id))(
        #[trigger] s[i],
    ) by {
        assert(!(key_pred::<V>(review_type, target_id))(s[i]));
    }
    lemma_filter_where_all(s, other_key(review_type, target_id));
}

/// One cached average, as stored.
#[derive(Clone, Copy)]
pub struct RatingEntry {
    pub review_type: ReviewType,
    pub target_id: i64,
    pub deadline: i64,
    pub value: AverageRating,
}

impl View for RatingEntry {
    type V = EntryData<AvgData>;

    open spec fn view(&self) -> EntryData<AvgData> {
        EntryData {
            review_type: self.review_type,
            target_id: self.target_id as int,
            deadline: self.deadline as int,
            value: self.value@,
        }
    }
}

/// One cached review count, as stored.
#[derive(Clone, Copy)]
pub struct CountEntry {
    pub review_type: ReviewType,
    pub target_id: i64,
    pub deadline: i64,
    pub value: i64,
}

impl View for CountEntry {
    type V = EntryData<int>;

    open spec fn view(&self) -> EntryData<int> {
        EntryData {
            review_type: self.review_type,
            target_id: self.target_id as int,
            deadline: self.deadline as int,
            value: self.value as int,
        }
    }
}

/// The executable aggregate cache.
pub struct Cache {
    rating_entries: Vec<RatingEntry>,
    count_entries: Vec<CountEntry>,
}

impl View for Cache {
    type V = CacheModel;

    closed spec fn view(&self) -> CacheModel {
        CacheModel {
            ratings: self.rating_entries@.map_values(|e: RatingEntry| e@),
            counts: self.count_entries@.map_values(|e: CountEntry| e@),
        }
    }
}

impl Cache {
    /// An empty cache.
    pub fn new() -> (c: Self)
        ensures
            c@.ratings == Seq::<EntryData<AvgData>>::empty(),
            c@.counts == Seq::<EntryData<int>>::empty(),
    {
        let c = Cache { rating_entries: Vec::new(), count_entries: Vec::new() };
        proof {
            assert(c@.ratings =~= Seq::<EntryData<AvgData>>::empty());
            assert(c@.counts =~= Seq::<EntryData<int>>::empty());
        }
        c
    }

    /// Stores the average for a key, replacing any previous entry and giving
    /// it the full time-to-live from `now`.
    pub fn cache_rating(
        &mut self,
        target_id: i64,
        average: AverageRating,
        review_type: ReviewType,
        now: i64,
    )
        requires
            now <= i64::MAX - CACHE_DURATION,
        ensures
            final(self)@ == cache_put_rating(
                old(self)@,
                review_type,
                target_id as int,
                average@,
                now as int,
            ),
    {
        let ghost g = |e: RatingEntry| e@;
        let ghost q = other_key::<AvgData>(review_type, target_id as int);
        let mut kept: Vec<RatingEntry> = Vec::new();
        proof {
            assert(kept@.map_values(g) =~= filter_where(
                old(self)@.ratings.subrange(0, 0),
                q,
            ));
        }
        let mut i: usize = 0;
        while i < self.rating_entries.len()
            invariant
                0 <= i <= self.rating_entries.len(),
                self@ == old(self)@,
                self@.ratings.len() == self.rating_entries.len(),
                g == (|e: RatingEntry| e@),
                q == other_key::<AvgData>(review_type, target_id as int),
                kept@.map_values(g) == filter_where(self@.ratings.subrange(0, i as int), q),
            decreases self.rating_entries.len() - i,
        {
            let ghost pre = self@.ratings.subrange(0, i as int);
            let ghost elem = self@.ratings[i as int];
            proof {
                assert(self@.ratings.subrange(0, i as int + 1) =~= pre.push(elem));
                lemma_filter_where_push(pre, elem, q);
            }
            let e = self.rating_entries[i];
            assert(e@ == elem);
            if !(e.target_id == target_id && e.review_type == review_type) {
                let ghost before = kept@.map_values(g);
                kept.push(e);
                proof {
                    assert(kept@.map_values(g) =~= before.push(elem));
                }
            }
            i = i + 1;
        }
        let ghost before = kept@.map_values(g);
        kept.push(RatingEntry { review_type, target_id, deadline: now + CACHE_DURATION, value: average });
        proof {
            assert(self@.ratings.subrange(0, self@.ratings.len() as int) =~= self@.ratings);
            assert(kept@.map_values(g) =~= before.push(kept@[kept@.len() - 1]@));
        }
        self.rating_entries = kept;
    }

    /// The cached average for a key at time `now`, if it is still live.
    pub fn get_rating(&self, target_id: i64, review_type: ReviewType, now: i64) -> (r: Option<
        AverageRating,
    >)
        ensures
            crate::store::avg_view(r) == fresh_entry(
                self@.ratings,
                review_type,
                target_id as int,
                now as int,
            ),
    {
        let ghost p = key_pred::<AvgData>(review_type, target_id as int);
        let mut i: usize = 0;
        while i < self.rating_entries.len()
            invariant
                0 <= i <= self.rating_entries.len(),
                self@.ratings.len() == self.rating_entries.len(),
                p == key_pred::<AvgData>(review_type, target_id as int),
                forall|j: int| 0 <= j < i ==> !p(#[trigger] self@.ratings[j]),
            decreases self.rating_entries.len() - i,
        {
            let e = self.rating_entries[i];
            assert(e@ == self@.ratings[i as int]);
            if e.target_id == target_id && e.review_type == review_type {
                proof {
                    lemma_find_first(self@.ratings, p);
                }
                if now < e.deadline {
                    return Some(e.value);
                } else {
                    return None;
                }
            }
            i = i + 1;
        }
        proof {
            lemma_find_first(self@.ratings, p);
        }
        None
    }

    /// Stores the review count for a key, replacing any previous entry and
    /// giving it the full time-to-live from `now`.
    pub fn cache_count(&mut self, target_id: i64, count: i64, review_type: ReviewType, now: i64)
        requires
            now <= i64::MAX - CACHE_DURATION,
        ensures
            final(self)@ == cache_put_count(
                old(self)@,
                review_type,
                target_id as int,
                count as int,
                now as int,
            ),
    {
        let ghost g = |e: CountEntry| e@;
        let ghost q = other_key::<int>(review_type, target_id as int);
        let mut kept: Vec<CountEntry> = Vec::new();
        proof {
            assert(kept@.map_values(g) =~= filter_where(old(self)@.counts.subrange(0, 0), q));
        }
        let mut i: usize = 0;
        while i < self.count_entries.len()
            invariant
                0 <= i <= self.count_entries.len(),
                self@ == old(self)@,
                self@.counts.len() == self.count_entries.len(),
                g == (|e: CountEntry| e@),
                q == other_key::<int>(review_type, target_id as int),
                kept@.map_values(g) == filter_where(self@.counts.subrange(0, i as int), q),
            decreases self.count_entries.len() - i,
        {
            let ghost pre = self@.counts.subrange(0, i as int);
            let ghost elem = self@.counts[i as int];
            proof {
                assert(self@.counts.subrange(0, i as int + 1) =~= pre.push(elem));
                lemma_filter_where_push(pre, elem, q);
            }
            let e = self.count_entries[i];
            assert(e@ == elem);
            if !(e.target_id == target_id && e.review_type == review_type) {
                let ghost before = kept@.map_values(g);
                kept.push(e);
                proof {
                    assert(kept@.map_values(g) =~= before.push(elem));
                }
            }
            i = i + 1;
        }
        let ghost before = kept@.map_values(g);
        kept.push(CountEntry { review_type, target_id, deadline: now + CACHE_DURATION, value: count });
        proof {
            assert(self@.counts.subrange(0, self@.counts.len() as int) =~= self@.counts);
            assert(kept@.map_values(g) =~= before.push(kept@[kept@.len() - 1]@));
        }
        self.count_entries = kept;
    }

    /// The cached count for a key at time `now`, if it is still live.
    pub fn get_count(&self, target_id: i64, review_type: ReviewType, now: i64) -> (r: Option<i64>)
        ensures
            count_opt_view(r) == fresh_entry(
                self@.counts,
                review_type,
                target_id as int,
                now as int,
            ),
    {
        let ghost p = key_pred::<int>(review_type, target_id as int);
        let mut i: usize = 0;
        while i < self.count_entries.len()
            invariant
                0 <= i <= self.count_entries.len(),
                self@.counts.len() == self.count_entries.len(),
                p == key_pred::<int>(review_type, target_id as int),
                forall|j: int| 0 <= j < i ==> !p(#[trigger] self@.counts[j]),
            decreases self.count_entries.len() - i,
        {
            let e = self.count_entries[i];
            assert(e@ == self@.counts[i as int]);
            if e.target_id == target_id && e.review_type == review_type {
                proof {
                    lemma_find_first(self@.counts, p);
                }
                if now < e.deadline {
                    return Some(e.value);
                } else {
                    return None;
                }
            }
            i = i + 1;
        }
        proof {
            lemma_find_first(self@.counts, p);
        }
        None
    }

    /// Deletes both aggregates for the key. Idempotent: an absent key is not
    /// an error, and deleting it again changes nothing.
    pub fn invalidate(&mut self, target_id: i64, review_type: ReviewType)
        ensures
            final(self)@ == cache_invalidate(old(self)@, review_type, target_id as int),
    {
        let ghost g = |e: RatingEntry| e@;
        let ghost q = other_key::<AvgData>(review_type, target_id as int);
        let mut kept: Vec<RatingEntry> = Vec::new();
        proof {
            assert(kept@.map_values(g) =~= filter_where(
                old(self)@.ratings.subrange(0, 0),
                q,
            ));
        }
        let mut i: usize = 0;
        while i < self.rating_entries.len()
            invariant
                0 <= i <= self.rating_entries.len(),
                self@ == old(self)@,
                self@.ratings.len() == self.rating_entries.len(),
                g == (|e: RatingEntry| e@),
                q == other_key::<AvgData>(review_type, target_id as int),
                kept@.map_values(g) == filter_where(self@.ratings.subrange(0, i as int), q),
            decreases self.rating_entries.len() - i,
        {
            let ghost pre = self@.ratings.subrange(0, i as int);
            let ghost elem = self@.ratings[i as int];
            proof {
                assert(self@.ratings.subrange(0, i as int + 1) =~= pre.push(elem));
                lemma_filter_where_push(pre, elem, q);
            }
            let e = self.rating_entries[i];
            assert(e@ == elem);
            if !(e.target_id == target_id && e.review_type == review_type) {
                let ghost before = kept@.map_values(g);
                kept.push(e);
                proof {
                    assert(kept@.map_values(g) =~= before.push(elem));
                }
            }
            i = i + 1;
        }
        proof {
            assert(self@.ratings.subrange(0, self@.ratings.len() as int) =~= self@.ratings);
        }
        self.rating_entries = kept;

        let ghost gc = |e: CountEntry| e@;
        let ghost qc = other_key::<int>(review_type, target_id as int);
        let mut kept_counts: Vec<CountEntry> = Vec::new();
        proof {
            assert(kept_counts@.map_values(gc) =~= filter_where(
                old(self)@.counts.subrange(0, 0),
                qc,
            ));
        }
        let mut i: usize = 0;
        while i < self.count_entries.len()
            invariant
                0 <= i <= self.count_entries.len(),
                self@.counts == old(self)@.counts,
                self@.counts.len() == self.count_entries.len(),
                gc == (|e: CountEntry| e@),
                qc == other_key::<int>(review_type, target_id as int),
                kept_counts@.map_values(gc) == filter_where(self@.counts.subrange(0, i as int), qc),
            decreases self.count_entries.len() - i,
        {
            let ghost pre = self@.counts.subrange(0, i as int);
            let ghost elem = self@.counts[i as int];
            proof {
                assert(self@.counts.subrange(0, i as int + 1) =~= pre.push(elem));
                lemma_filter_where_push(pre, elem, qc);
            }
            let e = self.count_entries[i];
            assert(e@ == elem);
            if !(e.target_id == target_id && e.review_type == review_type) {
                let ghost before = kept_counts@.map_values(gc);
                kept_counts.push(e);
                proof {
                    assert(kept_counts@.map_values(gc) =~= before.push(elem));
                }
            }
            i = i + 1;
        }
        proof {
            assert(self@.counts.subrange(0, self@.counts.len() as int) =~= self@.counts);
        }
        self.count_entries = kept_counts;
    }
}

} // verus!
