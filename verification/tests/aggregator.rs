//! End-to-end tests of the aggregator: submissions, cache-aside reads,
//! pagination and invalidation.
use reviews::cache::Cache;
use reviews::database::Database;
use reviews::review::AverageRating;
use reviews::review::ReviewError;
use reviews::review::ReviewType;

fn fresh_db() -> Database {
    Database::new(Cache::new())
}

fn as_f64(avg: &AverageRating) -> f64 {
    avg.sum as f64 / avg.count as f64
}

#[test]
fn submit_update_and_second_reviewer() {
    // Author A rates target T with 4 and no comment: one row, average 4.0.
    let mut db = fresh_db();
    let t = 7i64;
    let a = 42i64;
    let first = db
        .submit_or_update_review(t, a, 4, None, ReviewType::User, 100)
        .expect("fresh submission succeeds");
    assert_eq!(first.rating, 4);
    assert_eq!(first.comment, None);
    assert_eq!(first.target_id, t);
    assert_eq!(first.reviewer_id, a);
    assert_eq!(first.created_at, 100);
    assert_eq!(db.get_reviews(t, ReviewType::User).len(), 1);
    assert_eq!(db.get_reviews_count(t, ReviewType::User, 101), 1);
    let avg = db.get_average_rating(t, ReviewType::User, 101).expect("has one review");
    assert_eq!(avg, AverageRating { sum: 4, count: 1 });
    assert_eq!(as_f64(&avg), 4.0);

    // A changes their mind: still one row, same id, comment and time updated.
    let second = db
        .submit_or_update_review(
            t,
            a,
            2,
            Some("changed my mind".to_string()),
            ReviewType::User,
            200,
        )
        .expect("re-review succeeds");
    assert_eq!(second.id, first.id);
    assert_eq!(second.rating, 2);
    assert_eq!(second.comment.as_deref(), Some("changed my mind"));
    assert_eq!(second.created_at, 200);
    let rows = db.get_reviews(t, ReviewType::User);
    assert_eq!(rows.len(), 1);
    assert_eq!(rows[0].id, first.id);
    assert_eq!(db.get_reviews_count(t, ReviewType::User, 201), 1);
    let avg = db.get_average_rating(t, ReviewType::User, 201).expect("still reviewed");
    assert_eq!(as_f64(&avg), 2.0);

    // Author B adds a 5: two rows, average 3.5.
    let b = 43i64;
    let third = db
        .submit_or_update_review(t, b, 5, None, ReviewType::User, 300)
        .expect("second author succeeds");
    assert_ne!(third.id, first.id);
    assert_eq!(db.get_reviews(t, ReviewType::User).len(), 2);
    assert_eq!(db.get_reviews_count(t, ReviewType::User, 301), 2);
    let avg = db.get_average_rating(t, ReviewType::User, 301).expect("reviewed");
    assert_eq!(avg, AverageRating { sum: 7, count: 2 });
    assert_eq!(as_f64(&avg), 3.5);
}

#[test]
fn average_is_exact_sum_over_count() {
    let mut db = fresh_db();
    let t = 11i64;
    for (reviewer, rating) in [(1i64, 1i32), (2, 4), (3, 5)] {
        db.submit_or_update_review(t, reviewer, rating, None, ReviewType::Server, 50)
            .expect("submission succeeds");
    }
    let avg = db.get_average_rating(t, ReviewType::Server, 60).expect("reviewed");
    assert_eq!(avg, AverageRating { sum: 10, count: 3 });
    assert!((as_f64(&avg) - 10.0 / 3.0).abs() < 1e-12);
}

#[test]
fn unreviewed_target_reads_as_no_data() {
    let mut db = fresh_db();
    assert_eq!(db.get_average_rating(99, ReviewType::User, 10), None);
    assert_eq!(db.get_reviews_count(99, ReviewType::User, 10), 0);
    // The 0.0 rendering of "no data" is the presentation layer's convention.
    let display = db.get_average_rating(99, ReviewType::User, 11).map_or(0.0, |a| as_f64(&a));
    assert_eq!(display, 0.0);
}

#[test]
fn reads_after_write_are_not_stale() {
    let mut db = fresh_db();
    let t = 5i64;
    db.submit_or_update_review(t, 1, 5, None, ReviewType::User, 100).expect("ok");
    // Populate both caches.
    assert_eq!(db.get_average_rating(t, ReviewType::User, 101), Some(AverageRating { sum: 5, count: 1 }));
    assert_eq!(db.get_reviews_count(t, ReviewType::User, 101), 1);
    // A write for the same key invalidates; the very next reads see the new
    // store state even though the cache entries were still inside their TTL.
    db.submit_or_update_review(t, 2, 1, None, ReviewType::User, 102).expect("ok");
    assert_eq!(db.get_average_rating(t, ReviewType::User, 103), Some(AverageRating { sum: 6, count: 2 }));
    assert_eq!(db.get_reviews_count(t, ReviewType::User, 103), 2);
}

#[test]
fn kinds_partition_storage_and_cache() {
    let mut db = fresh_db();
    db.submit_or_update_review(3, 1, 5, None, ReviewType::User, 10).expect("ok");
    db.submit_or_update_review(3, 1, 1, None, ReviewType::Server, 11).expect("ok");
    assert_eq!(db.get_reviews_count(3, ReviewType::User, 12), 1);
    assert_eq!(db.get_reviews_count(3, ReviewType::Server, 12), 1);
    assert_eq!(
        db.get_average_rating(3, ReviewType::User, 12),
        Some(AverageRating { sum: 5, count: 1 })
    );
    assert_eq!(
        db.get_average_rating(3, ReviewType::Server, 12),
        Some(AverageRating { sum: 1, count: 1 })
    );
    assert!(db.has_reviewed(3, 1, ReviewType::User));
    assert!(!db.has_reviewed(3, 2, ReviewType::User));
}

#[test]
fn invalid_ratings_are_rejected_before_any_write() {
    let mut db = fresh_db();
    assert_eq!(
        db.submit_or_update_review(1, 1, 0, None, ReviewType::User, 10),
        Err(ReviewError::InvalidRating)
    );
    assert_eq!(
        db.submit_or_update_review(1, 1, 6, None, ReviewType::User, 10),
        Err(ReviewError::InvalidRating)
    );
    assert_eq!(
        db.submit_or_update_review(1, 1, -3, None, ReviewType::User, 10),
        Err(ReviewError::InvalidRating)
    );
    assert_eq!(db.get_reviews(1, ReviewType::User).len(), 0);
}

#[test]
fn storage_check_rejects_unvalidated_rating() {
    // add_review expects a pre-validated rating; skipping the validation runs
    // into the storage-level check instead.
    let mut db = fresh_db();
    assert_eq!(
        db.add_review(1, 1, 7, None, ReviewType::User, 10),
        Err(ReviewError::Constraint)
    );
    assert_eq!(db.get_reviews(1, ReviewType::User).len(), 0);
}

#[test]
fn updating_a_missing_review_reports_not_found() {
    let mut db = fresh_db();
    assert_eq!(
        db.update_review(1, 1, 4, None, ReviewType::User, 10),
        Err(ReviewError::NotFound)
    );
    db.submit_or_update_review(1, 1, 4, None, ReviewType::User, 10).expect("ok");
    assert_eq!(
        db.update_review(1, 2, 4, None, ReviewType::User, 11),
        Err(ReviewError::NotFound)
    );
}

#[test]
fn blank_comment_is_not_stored() {
    let mut db = fresh_db();
    let r = db
        .submit_or_update_review(1, 1, 4, Some("   ".to_string()), ReviewType::User, 10)
        .expect("ok");
    assert_eq!(r.comment, None);
    let r = db
        .submit_or_update_review(1, 1, 4, Some(" fine ".to_string()), ReviewType::User, 11)
        .expect("ok");
    assert_eq!(r.comment.as_deref(), Some(" fine "));
}

#[test]
fn listing_is_newest_first_with_id_tiebreak() {
    let mut db = fresh_db();
    let t = 9i64;
    db.submit_or_update_review(t, 1, 3, None, ReviewType::User, 100).expect("ok");
    db.submit_or_update_review(t, 2, 4, None, ReviewType::User, 300).expect("ok");
    db.submit_or_update_review(t, 3, 5, None, ReviewType::User, 200).expect("ok");
    // Same timestamp as author 3: the later insert (higher id) comes first.
    db.submit_or_update_review(t, 4, 1, None, ReviewType::User, 200).expect("ok");
    let rows = db.get_reviews(t, ReviewType::User);
    let order: Vec<(i64, i64)> = rows.iter().map(|r| (r.created_at, r.reviewer_id)).collect();
    assert_eq!(order, vec![(300, 2), (200, 4), (200, 3), (100, 1)]);
}

#[test]
fn pages_window_the_listing() {
    let mut db = fresh_db();
    let t = 9i64;
    for (reviewer, stamp) in [(1i64, 100i64), (2, 300), (3, 200), (4, 200), (5, 400)] {
        db.submit_or_update_review(t, reviewer, 3, None, ReviewType::User, stamp).expect("ok");
    }
    let full: Vec<i32> = db.get_reviews(t, ReviewType::User).iter().map(|r| r.id).collect();
    assert_eq!(full.len(), 5);
    for page in 0..4i64 {
        let got: Vec<i32> = db
            .get_paginated_reviews(t, page, 2, ReviewType::User)
            .iter()
            .map(|r| r.id)
            .collect();
        let lo = ((page * 2) as usize).min(full.len());
        let hi = (lo + 2).min(full.len());
        assert_eq!(got, full[lo..hi].to_vec(), "page {page}");
    }
    // Pages past the end are empty, never an error.
    assert!(db.get_paginated_reviews(t, 3, 2, ReviewType::User).is_empty());
    assert!(db.get_paginated_reviews(t, 1000, 50, ReviewType::User).is_empty());
    // A single oversized page returns the whole listing.
    let all: Vec<i32> = db
        .get_paginated_reviews(t, 0, 50, ReviewType::User)
        .iter()
        .map(|r| r.id)
        .collect();
    assert_eq!(all, full);
}

#[test]
fn invalidating_an_absent_key_is_a_quiet_success() {
    let mut cache = Cache::new();
    // Nothing cached: both deletes are no-ops that return normally.
    cache.invalidate(123, ReviewType::User);
    cache.invalidate(123, ReviewType::User);
    assert_eq!(cache.get_rating(123, ReviewType::User, 0), None);
    assert_eq!(cache.get_count(123, ReviewType::User, 0), None);
}

#[test]
fn cache_entries_expire_after_the_ttl() {
    let mut cache = Cache::new();
    let avg = AverageRating { sum: 9, count: 2 };
    cache.cache_rating(5, avg, ReviewType::Server, 1000);
    cache.cache_count(5, 2, ReviewType::Server, 1000);
    assert_eq!(cache.get_rating(5, ReviewType::Server, 1000), Some(avg));
    assert_eq!(cache.get_rating(5, ReviewType::Server, 1599), Some(avg));
    assert_eq!(cache.get_rating(5, ReviewType::Server, 1600), None);
    assert_eq!(cache.get_count(5, ReviewType::Server, 1599), Some(2));
    assert_eq!(cache.get_count(5, ReviewType::Server, 1600), None);
}

#[test]
fn rating_and_count_are_cached_independently() {
    let mut cache = Cache::new();
    cache.cache_rating(5, AverageRating { sum: 4, count: 1 }, ReviewType::User, 100);
    assert!(cache.get_rating(5, ReviewType::User, 101).is_some());
    assert_eq!(cache.get_count(5, ReviewType::User, 101), None);
    cache.invalidate(5, ReviewType::User);
    assert_eq!(cache.get_rating(5, ReviewType::User, 101), None);
}

#[test]
fn a_live_cache_entry_answers_reads() {
    // The cache serves what was stored, not what the store now holds: the
    // bounded-staleness window closed only by invalidation or expiry.
    let mut cache = Cache::new();
    cache.cache_rating(5, AverageRating { sum: 4, count: 1 }, ReviewType::User, 100);
    cache.cache_rating(5, AverageRating { sum: 9, count: 2 }, ReviewType::User, 150);
    assert_eq!(
        cache.get_rating(5, ReviewType::User, 151),
        Some(AverageRating { sum: 9, count: 2 })
    );
}

#[test]
fn ids_grow_from_one_per_store() {
    let mut db = fresh_db();
    let a = db.submit_or_update_review(1, 1, 3, None, ReviewType::User, 10).expect("ok");
    let b = db.submit_or_update_review(2, 1, 3, None, ReviewType::Server, 11).expect("ok");
    assert_eq!(a.id, 1);
    assert_eq!(b.id, 2);
}

#[test]
fn response_assembles_page_count_and_average() {
    let mut db = fresh_db();
    let t = 4i64;
    db.submit_or_update_review(t, 1, 5, Some("solid".to_string()), ReviewType::Server, 100)
        .expect("ok");
    db.submit_or_update_review(t, 2, 2, None, ReviewType::Server, 200).expect("ok");
    let resp = db.reviews_response(t, ReviewType::Server, 201);
    assert_eq!(resp.target_id, t);
    assert_eq!(resp.review_type, "server");
    assert_eq!(resp.total_reviews, 2);
    assert_eq!(resp.average_rating, Some(AverageRating { sum: 7, count: 2 }));
    assert_eq!(resp.reviews.len(), 2);
    assert_eq!(resp.reviews[0].reviewer_id, 2);
    assert_eq!(resp.reviews[1].reviewer_id, 1);
    // A target nobody reviewed: empty page, zero count, no average.
    let empty = db.reviews_response(77, ReviewType::Server, 202);
    assert!(empty.reviews.is_empty());
    assert_eq!(empty.total_reviews, 0);
    assert_eq!(empty.average_rating, None);
}
