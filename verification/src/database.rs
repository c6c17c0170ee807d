//! The aggregator callers use for all combined read/write semantics: reads
//! go through the aggregate cache with fallback to the store, and every
//! write invalidates the affected cache key after the store mutation, so a
//! reader that observes the invalidation sees the post-write store state.
use vstd::prelude::*;
use crate::review::AverageRating;
use crate::review::AvgData;
use crate::review::Review;
use crate::review::ReviewData;
use crate::review::ReviewError;
use crate::review::ReviewType;
use crate::review::comment_view;
use crate::review::normalize_comment;
use crate::review::normalized_comment;
use crate::review::valid_rating;
use crate::store::ReviewStore;
use crate::store::StoreModel;
use crate::store::average_of;
use crate::store::avg_view;
use crate::store::count_matching;
use crate::store::exists_triple;
use crate::store::matching_reviews;
use crate::store::page_of;
use crate::store::result_view;
use crate::store::sorted_desc;
use crate::store::store_insert;
use crate::store::store_update;
use crate::store::store_wf;
use crate::cache::CACHE_DURATION;
use crate::cache::Cache;
use crate::cache::CacheModel;
use crate::cache::cache_invalidate;
use crate::cache::cache_put_count;
use crate::cache::cache_put_rating;
use crate::cache::fresh_entry;

verus! {

/// The mathematical state of the aggregator: the durable store of record and
/// the ephemeral derived cache.
pub ghost struct DbModel {
    pub store: StoreModel,
    pub cache: CacheModel,
}

/// What a cache-aside average read does: a live cached value is returned as
/// is (it may trail the store until it expires or is invalidated); on a miss
/// the store answers, and a present answer is cached for the full
/// time-to-live.
pub open spec fn read_rating_model(
    m: DbModel,
    target_id: int,
    review_type: ReviewType,
    now: int,
) -> (DbModel, Option<AvgData>) {
    match fresh_entry(m.cache.ratings, review_type, target_id, now) {
        Some(v) => (m, Some(v)),
        None => {
            match average_of(m.store.rows, target_id, review_type) {
                Some(a) => (
                    DbModel {
                        store: m.store,
                        cache: cache_put_rating(m.cache, review_type, target_id, a, now),
                    },
                    Some(a),
                ),
                None => (m, None),
            }
        },
    }
}

/// What a cache-aside count read does; a count is cached even when zero.
pub open spec fn read_count_model(m: DbModel, target_id: int, review_type: ReviewType, now: int) -> (
    DbModel,
    int,
) {
    match fresh_entry(m.cache.counts, review_type, target_id, now) {
        Some(c) => (m, c),
        None => {
            let c = count_matching(m.store.rows, target_id, review_type);
            (
                DbModel {
                    store: m.store,
                    cache: cache_put_count(m.cache, review_type, target_id, c, now),
                },
                c,
            )
        },
    }
}

/// What adding a review does: the store mutation happens first, and only a
/// successful one is followed by invalidation of the affected cache key.
pub open spec fn add_review_model(
    m: DbModel,
    target_id: int,
    reviewer_id: int,
    rating: int,
    comment: Option<Seq<char>>,
    review_type: ReviewType,
    now: int,
) -> (DbModel, Result<ReviewData, ReviewError>) {
    let sr = store_insert(m.store, target_id, reviewer_id, rating, comment, review_type, now);
    if sr.1 is Err {
        (DbModel { store: sr.0, cache: m.cache }, sr.1)
    } else {
        (
            DbModel { store: sr.0, cache: cache_invalidate(m.cache, review_type, target_id) },
            sr.1,
        )
    }
}

/// What updating a review does: as with adding, the cache key is invalidated
/// only after the store took the write.
pub open spec fn update_review_model(
    m: DbModel,
    target_id: int,
    reviewer_id: int,
    rating: int,
    comment: Option<Seq<char>>,
    review_type: ReviewType,
    now: int,
) -> (DbModel, Result<ReviewData, ReviewError>) {
    let sr = store_update(m.store, target_id, reviewer_id, rating, comment, review_type, now);
    if sr.1 is Err {
        (DbModel { store: sr.0, cache: m.cache }, sr.1)
    } else {
        (
            DbModel { store: sr.0, cache: cache_invalidate(m.cache, review_type, target_id) },
            sr.1,
        )
    }
}

/// What a submission does: an out-of-range rating is rejected before any
/// store traffic; otherwise the comment is normalized at the boundary and
/// the existence check picks update or insert. The invalidation happens in
/// either branch: an update changes the average even though the row count
/// does not move.
pub open spec fn submit_model(
    m: DbModel,
    target_id: int,
    reviewer_id: int,
    rating: int,
    comment: Option<Seq<char>>,
    review_type: ReviewType,
    now: int,
) -> (DbModel, Result<ReviewData, ReviewError>) {
    if !valid_rating(rating) {
        (m, Err(ReviewError::InvalidRating))
    } else {
        let c = normalized_comment(comment);
        if exists_triple(m.store.rows, target_id, reviewer_id, review_type) {
            update_review_model(m, target_id, reviewer_id, rating, c, review_type, now)
        } else {
            add_review_model(m, target_id, reviewer_id, rating, c, review_type, now)
        }
    }
}

/// The aggregator over the durable store and the aggregate cache. Callers
/// use it for every read and write; only listing and existence reads pass
/// straight through to the store, since they have no cached counterpart.
pub struct Database {
    store: ReviewStore,
    cache: Cache,
}

impl View for Database {
    type V = DbModel;

    closed spec fn view(&self) -> DbModel {
        DbModel { store: self.store@, cache: self.cache@ }
    }
}

impl Database {
    pub open spec fn wf(&self) -> bool {
        store_wf(self@.store)
    }

    /// A fresh aggregator over an empty store, composed with the given
    /// cache.
    pub fn new(cache: Cache) -> (db: Self)
        ensures
            db.wf(),
            db@.store.rows == Seq::<ReviewData>::empty(),
            db@.store.next_id == 1,
            db@.cache == cache@,
    {
        Database { store: ReviewStore::new(), cache }
    }

    /// Whether the store's id space is exhausted; submissions need room for
    /// one more id.
    pub fn at_capacity(&self) -> (r: bool)
        ensures
            r == (self@.store.next_id == i32::MAX),
    {
        self.store.at_capacity()
    }

    /// Inserts a review for a rating already validated in [1, 5], then
    /// invalidates the cached aggregates for `(review_type, target_id)`.
    pub fn add_review(
        &mut self,
        target_id: i64,
        reviewer_id: i64,
        rating: i32,
        comment: Option<String>,
        review_type: ReviewType,
        now: i64,
    ) -> (result: Result<Review, ReviewError>)
        requires
            old(self).wf(),
            old(self)@.store.next_id < i32::MAX,
        ensures
            final(self).wf(),
            final(self)@ == add_review_model(
                old(self)@,
                target_id as int,
                reviewer_id as int,
                rating as int,
                comment_view(comment),
                review_type,
                now as int,
            ).0,
            result_view(result) == add_review_model(
                old(self)@,
                target_id as int,
                reviewer_id as int,
                rating as int,
                comment_view(comment),
                review_type,
                now as int,
            ).1,
    {
        let r = self.store.insert(target_id, reviewer_id, rating, comment, review_type, now);
        match r {
            Ok(rev) => {
                self.cache.invalidate(target_id, review_type);
                Ok(rev)
            },
            Err(e) => Err(e),
        }
    }

    /// Overwrites the review this author already wrote, then invalidates
    /// the cached aggregates for the key.
    pub fn update_review(
        &mut self,
        target_id: i64,
        reviewer_id: i64,
        rating: i32,
        comment: Option<String>,
        review_type: ReviewType,
        now: i64,
    ) -> (result: Result<Review, ReviewError>)
        requires
            old(self).wf(),
        ensures
            final(self).wf(),
            final(self)@ == update_review_model(
                old(self)@,
                target_id as int,
                reviewer_id as int,
                rating as int,
                comment_view(comment),
                review_type,
                now as int,
            ).0,
            result_view(result) == update_review_model(
                old(self)@,
                target_id as int,
                reviewer_id as int,
                rating as int,
                comment_view(comment),
                review_type,
                now as int,
            ).1,
    {
        let r = self.store.update(target_id, reviewer_id, rating, comment, review_type, now);
        match r {
            Ok(rev) => {
                self.cache.invalidate(target_id, review_type);
                Ok(rev)
            },
            Err(e) => Err(e),
        }
    }

    /// Validates the rating, normalizes the comment, and either inserts a
    /// first review or re-reviews the existing row, invalidating the cached
    /// aggregates either way.
    pub fn submit_or_update_review(
        &mut self,
        target_id: i64,
        reviewer_id: i64,
        rating: i32,
        comment: Option<String>,
        review_type: ReviewType,
        now: i64,
    ) -> (result: Result<Review, ReviewError>)
        requires
            old(self).wf(),
            old(self)@.store.next_id < i32::MAX,
        ensures
            final(self).wf(),
            final(self)@ == submit_model(
                old(self)@,
                target_id as int,
                reviewer_id as int,
                rating as int,
                comment_view(comment),
                review_type,
                now as int,
            ).0,
            result_view(result) == submit_model(
                old(self)@,
                target_id as int,
                reviewer_id as int,
                rating as int,
                comment_view(comment),
                review_type,
                now as int,
            ).1,
    {
        if rating < 1 || rating > 5 {
            return Err(ReviewError::InvalidRating);
        }
        let comment = normalize_comment(comment);
        if self.store.has_reviewed(target_id, reviewer_id, review_type) {
            self.update_review(target_id, reviewer_id, rating, comment, review_type, now)
        } else {
            self.add_review(target_id, reviewer_id, rating, comment, review_type, now)
        }
    }

    /// Cache-aside average: a live cached value answers immediately; on a
    /// miss the store answers and a present average is cached. Absent means
    /// the target has no reviews; rendering that as `0.0` is the
    /// presentation layer's convention.
    pub fn get_average_rating(&mut self, target_id: i64, review_type: ReviewType, now: i64) -> (r:
        Option<AverageRating>)
        requires
            old(self).wf(),
            now <= i64::MAX - CACHE_DURATION,
        ensures
            final(self).wf(),
            final(self)@ == read_rating_model(
                old(self)@,
                target_id as int,
                review_type,
                now as int,
            ).0,
            avg_view(r) == read_rating_model(old(self)@, target_id as int, review_type, now as int).1,
    {
        let hit = self.cache.get_rating(target_id, review_type, now);
        match hit {
            Some(v) => Some(v),
            None => {
                let avg = self.store.average(target_id, review_type);
                match avg {
                    Some(a) => {
                        self.cache.cache_rating(target_id, a, review_type, now);
                        Some(a)
                    },
                    None => None,
                }
            },
        }
    }

    /// Cache-aside review count; a zero count is cached like any other.
    pub fn get_reviews_count(&mut self, target_id: i64, review_type: ReviewType, now: i64) -> (r:
        i64)
        requires
            old(self).wf(),
            now <= i64::MAX - CACHE_DURATION,
        ensures
            final(self).wf(),
            final(self)@ == read_count_model(
                old(self)@,
                target_id as int,
                review_type,
                now as int,
            ).0,
            r as int == read_count_model(old(self)@, target_id as int, review_type, now as int).1,
    {
        let hit = self.cache.get_count(target_id, review_type, now);
        match hit {
            Some(c) => c,
            None => {
                let c = self.store.count(target_id, review_type);
                self.cache.cache_count(target_id, c, review_type, now);
                c
            },
        }
    }

    /// Whether this author already has a row for this target and kind.
    pub fn has_reviewed(&self, target_id: i64, reviewer_id: i64, review_type: ReviewType) -> (r:
        bool)
        ensures
            r == exists_triple(
                self@.store.rows,
                target_id as int,
                reviewer_id as int,
                review_type,
            ),
    {
        self.store.has_reviewed(target_id, reviewer_id, review_type)
    }

    /// All reviews of a target, newest first: an uncached passthrough.
    pub fn get_reviews(&self, target_id: i64, review_type: ReviewType) -> (r: Vec<Review>)
        requires
            self.wf(),
        ensures
            r@.map_values(|x: Review| x@) == matching_reviews(
                self@.store.rows,
                target_id as int,
                review_type,
            ),
            sorted_desc(r@.map_values(|x: Review| x@)),
    {
        self.store.list(target_id, review_type)
    }

    /// One page of the listing, also uncached; a page past the end is
    /// empty, never an error.
    ///
    /// (The full response assembly a transport layer serves lives in
    /// `reviews_response`.)
    pub fn get_paginated_reviews(
        &self,
        target_id: i64,
        page: i64,
        per_page: i64,
        review_type: ReviewType,
    ) -> (r: Vec<Review>)
        requires
            self.wf(),
            page >= 0,
            per_page >= 1,
        ensures
            r@.map_values(|x: Review| x@) == page_of(
                self@.store.rows,
                target_id as int,
                review_type,
                page as int,
                per_page as int,
            ),
    {
        self.store.page(target_id, page, per_page, review_type)
    }

    /// The assembled listing a transport layer serves for one target: the
    /// first page of up to 50 reviews, with the total count and the average
    /// read through the cache (in that order).
    pub fn reviews_response(&mut self, target_id: i64, review_type: ReviewType, now: i64) -> (r:
        ReviewsResponse)
        requires
            old(self).wf(),
            now <= i64::MAX - CACHE_DURATION,
        ensures
            final(self).wf(),
            final(self)@ == read_rating_model(
                read_count_model(old(self)@, target_id as int, review_type, now as int).0,
                target_id as int,
                review_type,
                now as int,
            ).0,
            r.target_id == target_id,
            r.review_type@ == review_type.key_name(),
            r.reviews@.map_values(|x: Review| x@) == page_of(
                old(self)@.store.rows,
                target_id as int,
                review_type,
                0,
                50,
            ),
            r.total_reviews as int == read_count_model(
                old(self)@,
                target_id as int,
                review_type,
                now as int,
            ).1,
            avg_view(r.average_rating) == read_rating_model(
                read_count_model(old(self)@, target_id as int, review_type, now as int).0,
                target_id as int,
                review_type,
                now as int,
            ).1,
    {
        let reviews = self.get_paginated_reviews(target_id, 0, 50, review_type);
        let total_reviews = self.get_reviews_count(target_id, review_type, now);
        let average_rating = self.get_average_rating(target_id, review_type, now);
        ReviewsResponse {
            target_id,
            review_type: review_type.as_str().to_owned(),
            average_rating,
            total_reviews,
            reviews,
        }
    }
}

/// What a transport layer serves for one target: one page of reviews plus
/// the cached aggregates. The average stays exact here; rendering an absent
/// one as `0.0` is the consumer's convention.
pub struct ReviewsResponse {
    pub target_id: i64,
    pub review_type: String,
    pub average_rating: Option<AverageRating>,
    pub total_reviews: i64,
    pub reviews: Vec<Review>,
}

} // verus!
