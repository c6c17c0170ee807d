//! The guarantees that tie the components together, stated over the same
//! models the executable contracts use and proved once and for all.
use vstd::prelude::*;
use crate::review::AvgData;
use crate::review::ReviewData;
use crate::review::ReviewType;
use crate::review::valid_rating;
use crate::select::lemma_count_where;
use crate::select::lemma_count_where_remove;
use crate::select::lemma_count_where_unique;
use crate::select::lemma_find_first;
use crate::store::average_of;
use crate::store::count_matching;
use crate::store::count_triple;
use crate::store::exists_triple;
use crate::store::find_triple;
use crate::store::lemma_insert_desc_contains;
use crate::store::lemma_insert_desc_count;
use crate::store::matching_reviews;
use crate::store::page_of;
use crate::store::store_wf;
use crate::store::sum_matching;
use crate::store::triple_pred;
use crate::cache::CacheModel;
use crate::cache::cache_invalidate;
use crate::cache::fresh_entry;
use crate::cache::lemma_remove_key_absent;
use crate::cache::lemma_remove_key_removes;
use crate::cache::lookup_entry;
use crate::database::DbModel;
use crate::database::read_count_model;
use crate::database::read_rating_model;
use crate::database::submit_model;

verus! {

/// A submission for a triple nobody reviewed yet creates exactly one row,
/// carrying the submitted rating; a second submission for the same triple
/// re-reviews that same row — same id, new rating — and never grows a second
/// one.
pub proof fn lemma_submit_then_resubmit(
    m: DbModel,
    target_id: int,
    reviewer_id: int,
    review_type: ReviewType,
    r1: int,
    c1: Option<Seq<char>>,
    now1: int,
    r2: int,
    c2: Option<Seq<char>>,
    now2: int,
)
    requires
        store_wf(m.store),
        !exists_triple(m.store.rows, target_id, reviewer_id, review_type),
        valid_rating(r1),
        valid_rating(r2),
    ensures
        ({
            let first = submit_model(m, target_id, reviewer_id, r1, c1, review_type, now1);
            let second = submit_model(
                first.0,
                target_id,
                reviewer_id,
                r2,
                c2,
                review_type,
                now2,
            );
            &&& first.1 is Ok
            &&& first.1->Ok_0.rating == r1
            &&& count_triple(first.0.store.rows, target_id, reviewer_id, review_type) == 1
            &&& second.1 is Ok
            &&& second.1->Ok_0.rating == r2
            &&& second.1->Ok_0.id == first.1->Ok_0.id
            &&& count_triple(second.0.store.rows, target_id, reviewer_id, review_type) == 1
        }),
{
    let p = triple_pred(target_id, reviewer_id, review_type);
    let s0 = m.store.rows;
    lemma_find_first(s0, p);
    lemma_count_where(s0, p);
    assert(count_triple(s0, target_id, reviewer_id, review_type) == 0);

    let first = submit_model(m, target_id, reviewer_id, r1, c1, review_type, now1);
    let row1 = first.1->Ok_0;
    let s1 = first.0.store.rows;
    assert(p(row1));
    lemma_insert_desc_count(row1, s0, p);
    assert(count_triple(s1, target_id, reviewer_id, review_type) == 1);

    lemma_count_where(s1, p);
    lemma_find_first(s1, p);
    let i = find_triple(s1, target_id, reviewer_id, review_type);
    assert(i >= 0);

    lemma_insert_desc_contains(row1, s0);
    let w = choose|w: int| 0 <= w < s1.len() && s1[w] == row1;
    lemma_count_where_unique(s1, p, i, w);
    assert(s1[i] == row1);

    let second = submit_model(first.0, target_id, reviewer_id, r2, c2, review_type, now2);
    let row2 = second.1->Ok_0;
    assert(row2.id == row1.id);
    let removed = s1.remove(i);
    lemma_count_where_remove(s1, i, p);
    assert(p(row2));
    lemma_insert_desc_count(row2, removed, p);
}

/// A cache miss answers with the exact average: the sum of all matching
/// ratings over their number, and with nothing at all when no review exists
/// (so "no data" is distinguishable from a low rating).
pub proof fn lemma_average_is_exact(m: DbModel, target_id: int, review_type: ReviewType, now: int)
    requires
        fresh_entry(m.cache.ratings, review_type, target_id, now) is None,
    ensures
        count_matching(m.store.rows, target_id, review_type) == 0 ==> read_rating_model(
            m,
            target_id,
            review_type,
            now,
        ).1 is None,
        count_matching(m.store.rows, target_id, review_type) > 0 ==> read_rating_model(
            m,
            target_id,
            review_type,
            now,
        ).1 == Some(
            AvgData {
                sum: sum_matching(m.store.rows, target_id, review_type),
                count: count_matching(m.store.rows, target_id, review_type),
            },
        ),
        fresh_entry(m.cache.counts, review_type, target_id, now) is None ==> read_count_model(
            m,
            target_id,
            review_type,
            now,
        ).1 == count_matching(m.store.rows, target_id, review_type),
{
}

/// A read that follows a successful write for the same key reflects the
/// post-write store state: the write invalidated the key, so the next read
/// cannot serve a stale cached aggregate.
pub proof fn lemma_read_after_write(
    m: DbModel,
    target_id: int,
    reviewer_id: int,
    rating: int,
    comment: Option<Seq<char>>,
    review_type: ReviewType,
    now: int,
    now2: int,
)
    ensures
        ({
            let written = submit_model(
                m,
                target_id,
                reviewer_id,
                rating,
                comment,
                review_type,
                now,
            );
            written.1 is Ok ==> {
                &&& read_rating_model(written.0, target_id, review_type, now2).1
                    == average_of(written.0.store.rows, target_id, review_type)
                &&& read_count_model(written.0, target_id, review_type, now2).1 == count_matching(
                    written.0.store.rows,
                    target_id,
                    review_type,
                )
            }
        }),
{
    let written = submit_model(m, target_id, reviewer_id, rating, comment, review_type, now);
    if written.1 is Ok {
        lemma_remove_key_removes(m.cache.ratings, review_type, target_id);
        lemma_remove_key_removes(m.cache.counts, review_type, target_id);
    }
}

/// Pagination is a window onto the full listing: page `P` of size `S` holds
/// exactly the matching rows from offset `P * S`, clamped to what exists,
/// and a page past the end is empty, never an error.
pub proof fn lemma_page_is_list_window(
    rows: Seq<ReviewData>,
    target_id: int,
    review_type: ReviewType,
    page: int,
    size: int,
)
    requires
        page >= 0,
        size >= 1,
    ensures
        ({
            let listing = matching_reviews(rows, target_id, review_type);
            let lo = if page * size > listing.len() {
                listing.len() as int
            } else {
                page * size
            };
            let hi = if page * size + size > listing.len() {
                listing.len() as int
            } else {
                page * size + size
            };
            &&& page_of(rows, target_id, review_type, page, size) == listing.subrange(lo, hi)
            &&& page * size >= listing.len() ==> page_of(rows, target_id, review_type, page, size)
                == Seq::<ReviewData>::empty()
        }),
{
    let listing = matching_reviews(rows, target_id, review_type);
    if page * size >= listing.len() {
        assert(listing.subrange(listing.len() as int, listing.len() as int) =~= Seq::<
            ReviewData,
        >::empty());
    }
}

/// Invalidating a key the cache does not hold is a no-op that still counts
/// as success: the cache state is untouched.
pub proof fn lemma_invalidate_absent_is_noop(c: CacheModel, review_type: ReviewType, target_id: int)
    requires
        lookup_entry(c.ratings, review_type, target_id) is None,
        lookup_entry(c.counts, review_type, target_id) is None,
    ensures
        cache_invalidate(c, review_type, target_id) == c,
{
    lemma_remove_key_absent(c.ratings, review_type, target_id);
    lemma_remove_key_absent(c.counts, review_type, target_id);
}

} // verus!
