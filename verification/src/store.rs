//! The durable review store, modelled as a sequence of review records kept
//! sorted newest-first. All multi-row reads come back ordered by
//! `created_at` descending with ties broken by `id` descending, so paginated
//! reads are stable.
use vstd::prelude::*;
use crate::review::AverageRating;
use crate::review::AvgData;
use crate::review::Review;
use crate::review::ReviewData;
use crate::review::ReviewError;
use crate::review::ReviewType;
use crate::review::comment_view;
use crate::review::valid_rating;
use crate::select::count_where;
use crate::select::filter_where;
use crate::select::find_first;
use crate::select::sum_where;
use crate::select::lemma_count_where;
use crate::select::lemma_count_where_app;
use crate::select::lemma_count_where_push;
use crate::select::lemma_filter_where_len;
use crate::select::lemma_filter_where_membership;
use crate::select::lemma_filter_where_push;
use crate::select::lemma_find_first;
use crate::select::lemma_selection_singleton;
use crate::select::lemma_sum_where_push;

verus! {

/// The listing order: newer first, ties broken by higher id (later insert).
pub open spec fn key_gt(a: ReviewData, b: ReviewData) -> bool {
    a.created_at > b.created_at || (a.created_at == b.created_at && a.id > b.id)
}

/// Strictly descending by `key_gt`.
pub open spec fn sorted_desc(s: Seq<ReviewData>) -> bool {
    forall|i: int, j: int| 0 <= i < j < s.len() ==> key_gt(s[i], s[j])
}

/// Rows reviewing one target of one kind.
pub open spec fn pair_pred(target_id: int, review_type: ReviewType) -> spec_fn(ReviewData) -> bool {
    |r: ReviewData| r.target_id == target_id && r.review_type == review_type
}

/// The row a particular author wrote about one target of one kind.
pub open spec fn triple_pred(target_id: int, reviewer_id: int, review_type: ReviewType) -> spec_fn(
    ReviewData,
) -> bool {
    |r: ReviewData|
        r.target_id == target_id && r.reviewer_id == reviewer_id && r.review_type == review_type
}

pub open spec fn rating_of() -> spec_fn(ReviewData) -> int {
    |r: ReviewData| r.rating
}

/// All rows for `(target_id, review_type)`, in listing order.
pub open spec fn matching_reviews(s: Seq<ReviewData>, target_id: int, review_type: ReviewType) -> Seq<
    ReviewData,
> {
    filter_where(s, pair_pred(target_id, review_type))
}

pub open spec fn count_matching(s: Seq<ReviewData>, target_id: int, review_type: ReviewType) -> int {
    count_where(s, pair_pred(target_id, review_type))
}

pub open spec fn sum_matching(s: Seq<ReviewData>, target_id: int, review_type: ReviewType) -> int {
    sum_where(s, pair_pred(target_id, review_type), rating_of())
}

/// Index of the row for `(target_id, reviewer_id, review_type)`, or -1.
pub open spec fn find_triple(
    s: Seq<ReviewData>,
    target_id: int,
    reviewer_id: int,
    review_type: ReviewType,
) -> int {
    find_first(s, triple_pred(target_id, reviewer_id, review_type))
}

pub open spec fn exists_triple(
    s: Seq<ReviewData>,
    target_id: int,
    reviewer_id: int,
    review_type: ReviewType,
) -> bool {
    find_triple(s, target_id, reviewer_id, review_type) >= 0
}

pub open spec fn count_triple(
    s: Seq<ReviewData>,
    target_id: int,
    reviewer_id: int,
    review_type: ReviewType,
) -> int {
    count_where(s, triple_pred(target_id, reviewer_id, review_type))
}

/// The aggregate over all matching rows: absent when there are none, never
/// "an average of zero".
pub open spec fn average_of(s: Seq<ReviewData>, target_id: int, review_type: ReviewType) -> Option<
    AvgData,
> {
    if count_matching(s, target_id, review_type) == 0 {
        None
    } else {
        Some(
            AvgData {
                sum: sum_matching(s, target_id, review_type),
                count: count_matching(s, target_id, review_type),
            },
        )
    }
}

/// Insertion into a descending sequence, before the first strictly smaller
/// key.
pub open spec fn insert_desc(x: ReviewData, s: Seq<ReviewData>) -> Seq<ReviewData>
    decreases s.len(),
{
    if s.len() == 0 {
        seq![x]
    } else if key_gt(x, s[0]) {
        seq![x] + s
    } else {
        seq![s[0]] + insert_desc(x, s.drop_first())
    }
}

/// The mathematical state of the store.
pub ghost struct StoreModel {
    pub rows: Seq<ReviewData>,
    pub next_id: int,
}

/// Well-formedness: ids are surrogate keys drawn from `1..next_id` without
/// repetition, every stored rating is valid, and rows sit in listing order.
pub open spec fn store_wf(m: StoreModel) -> bool {
    &&& 1 <= m.next_id <= i32::MAX
    &&& m.rows.len() <= m.next_id - 1
    &&& sorted_desc(m.rows)
    &&& forall|i: int|
        0 <= i < m.rows.len() ==> valid_rating((#[trigger] m.rows[i]).rating) && 1 <= m.rows[i].id
            < m.next_id
    &&& forall|i: int, j: int|
        0 <= i < j < m.rows.len() ==> m.rows[i].id != m.rows[j].id
}

/// What `insert` does: a validated rating becomes a new row carrying a fresh
/// id and the insertion time; a bad one is rejected by the storage-level
/// check and nothing changes.
pub open spec fn store_insert(
    m: StoreModel,
    target_id: int,
    reviewer_id: int,
    rating: int,
    comment: Option<Seq<char>>,
    review_type: ReviewType,
    now: int,
) -> (StoreModel, Result<ReviewData, ReviewError>) {
    if !valid_rating(rating) {
        (m, Err(ReviewError::Constraint))
    } else {
        let row = ReviewData {
            id: m.next_id,
            target_id: target_id,
            reviewer_id: reviewer_id,
            rating: rating,
            comment: comment,
            review_type: review_type,
            created_at: now,
        };
        (StoreModel { rows: insert_desc(row, m.rows), next_id: m.next_id + 1 }, Ok(row))
    }
}

/// What `update` does: the row for the triple keeps its id but takes the new
/// rating and comment and a refreshed `created_at` (a re-review, not a
/// patch); with no such row the store reports it rather than no-op.
pub open spec fn store_update(
    m: StoreModel,
    target_id: int,
    reviewer_id: int,
    rating: int,
    comment: Option<Seq<char>>,
    review_type: ReviewType,
    now: int,
) -> (StoreModel, Result<ReviewData, ReviewError>) {
    let i = find_triple(m.rows, target_id, reviewer_id, review_type);
    if i < 0 {
        (m, Err(ReviewError::NotFound))
    } else if !valid_rating(rating) {
        (m, Err(ReviewError::Constraint))
    } else {
        let row = ReviewData {
            id: m.rows[i].id,
            target_id: m.rows[i].target_id,
            reviewer_id: m.rows[i].reviewer_id,
            rating: rating,
            comment: comment,
            review_type: m.rows[i].review_type,
            created_at: now,
        };
        (StoreModel { rows: insert_desc(row, m.rows.remove(i)), next_id: m.next_id }, Ok(row))
    }
}

/// The first `page_size` matching rows from offset `page * page_size`,
/// clamped to the available rows: a window past the end is empty, never an
/// error.
pub open spec fn page_of(
    s: Seq<ReviewData>,
    target_id: int,
    review_type: ReviewType,
    page: int,
    page_size: int,
) -> Seq<ReviewData> {
    let m = matching_reviews(s, target_id, review_type);
    let lo = if page * page_size > m.len() {
        m.len() as int
    } else {
        page * page_size
    };
    let hi = if page * page_size + page_size > m.len() {
        m.len() as int
    } else {
        page * page_size + page_size
    };
    m.subrange(lo, hi)
}

/// The mathematical value of a store result.
pub open spec fn result_view(r: Result<Review, ReviewError>) -> Result<ReviewData, ReviewError> {
    match r {
        Ok(rev) => Ok(rev@),
        Err(e) => Err(e),
    }
}

/// The mathematical value of an optional average.
pub open spec fn avg_view(r: Option<AverageRating>) -> Option<AvgData> {
    match r {
        Some(a) => Some(a@),
        None => None,
    }
}

/// `insert_desc` is insertion at the position the order dictates.
pub proof fn lemma_insert_desc_at(x: ReviewData, s: Seq<ReviewData>, idx: int)
    requires
        0 <= idx <= s.len(),
        forall|j: int| 0 <= j < idx ==> !key_gt(x, #[trigger] s[j]),
        idx < s.len() ==> key_gt(x, s[idx]),
    ensures
        insert_desc(x, s) == s.insert(idx, x),
    decreases s.len(),
{
    if s.len() == 0 {
        assert(s.insert(0, x) =~= seq![x]);
    } else if idx == 0 {
        assert(key_gt(x, s[0]));
        assert(s.insert(0, x) =~= seq![x] + s);
    } else {
        assert(!key_gt(x, s[0]));
        let rest = s.drop_first();
        assert forall|j: int| 0 <= j < idx - 1 implies !key_gt(x, #[trigger] rest[j]) by {
            assert(rest[j] == s[j + 1]);
        }
        if idx - 1 < rest.len() {
            assert(rest[idx - 1] == s[idx]);
        }
        lemma_insert_desc_at(x, rest, idx - 1);
        assert(insert_desc(x, s) == seq![s[0]] + rest.insert(idx - 1, x));
        assert(seq![s[0]] + rest.insert(idx - 1, x) =~= s.insert(idx, x));
    }
}

/// Inserting in order adds one match when the new row matches, none
/// otherwise.
pub proof fn lemma_insert_desc_count(x: ReviewData, s: Seq<ReviewData>, p: spec_fn(ReviewData) -> bool)
    ensures
        count_where(insert_desc(x, s), p) == count_where(s, p) + if p(x) {
            1int
        } else {
            0int
        },
    decreases s.len(),
{
    lemma_selection_singleton(x, p, rating_of());
    if s.len() == 0 {
    } else if key_gt(x, s[0]) {
        lemma_count_where_app(seq![x], s, p);
    } else {
        lemma_insert_desc_count(x, s.drop_first(), p);
        lemma_count_where_app(seq![s[0]], insert_desc(x, s.drop_first()), p);
        lemma_selection_singleton(s[0], p, rating_of());
    }
}

/// The inserted row is one of the rows afterwards.
pub proof fn lemma_insert_desc_contains(x: ReviewData, s: Seq<ReviewData>)
    ensures
        insert_desc(x, s).contains(x),
    decreases s.len(),
{
    if s.len() == 0 {
        assert(insert_desc(x, s)[0] == x);
    } else if key_gt(x, s[0]) {
        assert(insert_desc(x, s)[0] == x);
    } else {
        lemma_insert_desc_contains(x, s.drop_first());
        let rest = insert_desc(x, s.drop_first());
        let w = choose|w: int| 0 <= w < rest.len() && rest[w] == x;
        assert((seq![s[0]] + rest)[w + 1] == x);
    }
}

/// A filtered slice of a descending sequence stays descending.
pub proof fn lemma_filter_sorted(s: Seq<ReviewData>, p: spec_fn(ReviewData) -> bool)
    requires
        sorted_desc(s),
    ensures
        sorted_desc(filter_where(s, p)),
    decreases s.len(),
{
    if s.len() > 0 {
        let rest = s.drop_first();
        assert forall|i: int, j: int| 0 <= i < j < rest.len() implies key_gt(rest[i], rest[j]) by {
            assert(rest[i] == s[i + 1]);
            assert(rest[j] == s[j + 1]);
        }
        lemma_filter_sorted(rest, p);
        lemma_filter_where_membership(rest, p);
        let fs = filter_where(s, p);
        let frest = filter_where(rest, p);
        if p(s[0]) {
            assert(fs == seq![s[0]] + frest);
            assert forall|i: int, j: int| 0 <= i < j < fs.len() implies key_gt(fs[i], fs[j]) by {
                if i == 0 {
                    assert(fs[j] == frest[j - 1]);
                    let w = choose|w: int| 0 <= w < rest.len() && rest[w] == frest[j - 1];
                    assert(rest[w] == s[w + 1]);
                    assert(key_gt(s[0], s[w + 1]));
                } else {
                    assert(fs[i] == frest[i - 1]);
                    assert(fs[j] == frest[j - 1]);
                }
            }
        }
    }
}

/// The executable store: rows kept in listing order plus the next surrogate
/// id.
pub struct ReviewStore {
    rows: Vec<Review>,
    next_id: i32,
}

impl View for ReviewStore {
    type V = StoreModel;

    closed spec fn view(&self) -> StoreModel {
        StoreModel {
            rows: self.rows@.map_values(|r: Review| r@),
            next_id: self.next_id as int,
        }
    }
}

impl ReviewStore {
    pub open spec fn wf(&self) -> bool {
        store_wf(self@)
    }

    /// An empty store; ids start at 1.
    pub fn new() -> (s: Self)
        ensures
            s.wf(),
            s@.rows == Seq::<ReviewData>::empty(),
            s@.next_id == 1,
    {
        let s = ReviewStore { rows: Vec::new(), next_id: 1 };
        proof {
            assert(s@.rows =~= Seq::<ReviewData>::empty());
        }
        s
    }

    /// Index of the row for the triple, when there is one.
    fn find_pos(&self, target_id: i64, reviewer_id: i64, review_type: ReviewType) -> (r: Option<
        usize,
    >)
        ensures
            match r {
                Some(i) => i < self@.rows.len() && i as int == find_triple(
                    self@.rows,
                    target_id as int,
                    reviewer_id as int,
                    review_type,
                ),
                None => find_triple(self@.rows, target_id as int, reviewer_id as int, review_type)
                    == -1,
            },
    {
        let ghost p = triple_pred(target_id as int, reviewer_id as int, review_type);
        let mut i: usize = 0;
        while i < self.rows.len()
            invariant
                0 <= i <= self.rows.len(),
                self@.rows.len() == self.rows.len(),
                p == triple_pred(target_id as int, reviewer_id as int, review_type),
                forall|j: int| 0 <= j < i ==> !p(#[trigger] self@.rows[j]),
            decreases self.rows.len() - i,
        {
            let row = &self.rows[i];
            assert(row@ == self@.rows[i as int]);
            if row.target_id == target_id && row.reviewer_id == reviewer_id && row.review_type
                == review_type {
                proof {
                    lemma_find_first(self@.rows, p);
                }
                return Some(i);
            }
            i = i + 1;
        }
        proof {
            lemma_find_first(self@.rows, p);
        }
        None
    }

    /// Whether the id space is exhausted, so no further insert can be taken.
    pub fn at_capacity(&self) -> (r: bool)
        ensures
            r == (self@.next_id == i32::MAX),
    {
        self.next_id == i32::MAX
    }

    /// The existence check behind the check-then-upsert pattern.
    pub fn has_reviewed(&self, target_id: i64, reviewer_id: i64, review_type: ReviewType) -> (r:
        bool)
        ensures
            r == exists_triple(self@.rows, target_id as int, reviewer_id as int, review_type),
    {
        self.find_pos(target_id, reviewer_id, review_type).is_some()
    }

    /// Where a new row belongs in listing order.
    fn insert_pos(&self, row: &Review) -> (idx: usize)
        ensures
            idx <= self@.rows.len(),
            forall|j: int| 0 <= j < idx ==> !key_gt(row@, #[trigger] self@.rows[j]),
            idx < self@.rows.len() ==> key_gt(row@, self@.rows[idx as int]),
    {
        let mut i: usize = 0;
        while i < self.rows.len()
            invariant
                0 <= i <= self.rows.len(),
                self@.rows.len() == self.rows.len(),
                forall|j: int| 0 <= j < i ==> !key_gt(row@, #[trigger] self@.rows[j]),
            decreases self.rows.len() - i,
        {
            let cur = &self.rows[i];
            assert(cur@ == self@.rows[i as int]);
            if row.created_at > cur.created_at || (row.created_at == cur.created_at && row.id
                > cur.id) {
                return i;
            }
            i = i + 1;
        }
        i
    }

    /// Places a row with a fresh id at its position in listing order.
    fn place(&mut self, row: Review)
        requires
            sorted_desc(old(self)@.rows),
            forall|a: int, b: int|
                0 <= a < b < old(self)@.rows.len() ==> old(self)@.rows[a].id
                    != old(self)@.rows[b].id,
            forall|a: int| 0 <= a < old(self)@.rows.len() ==> (#[trigger] old(self)@.rows[a]).id
                != row@.id,
        ensures
            final(self)@.rows == insert_desc(row@, old(self)@.rows),
            final(self)@.next_id == old(self)@.next_id,
            sorted_desc(final(self)@.rows),
            final(self)@.rows.len() == old(self)@.rows.len() + 1,
            forall|i: int, j: int|
                0 <= i < j < final(self)@.rows.len() ==> final(self)@.rows[i].id
                    != final(self)@.rows[j].id,
    {
        let idx = self.insert_pos(&row);
        let ghost x = row@;
        let ghost s = self@.rows;
        proof {
            lemma_insert_desc_at(x, s, idx as int);
        }
        self.rows.insert(idx, row);
        proof {
            assert(self@.rows =~= s.insert(idx as int, x));
            let t = s.insert(idx as int, x);
            assert forall|i: int, j: int| 0 <= i < j < t.len() implies key_gt(t[i], t[j]) by {
                lemma_ordered_after_insert(s, x, idx as int, i, j);
            }
            assert forall|i: int, j: int| 0 <= i < j < t.len() implies t[i].id != t[j].id by {
                lemma_ordered_after_insert(s, x, idx as int, i, j);
            }
        }
    }

    /// Persists a new review: the rating must have been validated in [1, 5]
    /// already, and the storage-level check rejects it otherwise. The row
    /// gets the next surrogate id and `now` as its creation time. Cache
    /// invalidation is the caller's responsibility.
    pub fn insert(
        &mut self,
        target_id: i64,
        reviewer_id: i64,
        rating: i32,
        comment: Option<String>,
        review_type: ReviewType,
        now: i64,
    ) -> (result: Result<Review, ReviewError>)
        requires
            old(self).wf(),
            old(self)@.next_id < i32::MAX,
        ensures
            final(self).wf(),
            final(self)@ == store_insert(
                old(self)@,
                target_id as int,
                reviewer_id as int,
                rating as int,
                comment_view(comment),
                review_type,
                now as int,
            ).0,
            result_view(result) == store_insert(
                old(self)@,
                target_id as int,
                reviewer_id as int,
                rating as int,
                comment_view(comment),
                review_type,
                now as int,
            ).1,
    {
        if rating < 1 || rating > 5 {
            return Err(ReviewError::Constraint);
        }
        let row = Review {
            id: self.next_id,
            target_id,
            reviewer_id,
            rating,
            comment,
            review_type,
            created_at: now,
        };
        let ret = row.clone();
        let ghost x = row@;
        let ghost s0 = self@;
        proof {
            assert forall|a: int| 0 <= a < s0.rows.len() implies (#[trigger] s0.rows[a]).id
                != x.id by {
                assert(1 <= s0.rows[a].id < s0.next_id);
            }
        }
        self.place(row);
        self.next_id = self.next_id + 1;
        proof {
            lemma_insert_desc_elems(x, s0.rows);
            assert forall|i: int|
                0 <= i < self@.rows.len() implies valid_rating(
                (#[trigger] self@.rows[i]).rating,
            ) && 1 <= self@.rows[i].id < self@.next_id by {
                if self@.rows[i] != x {
                    let w = choose|w: int|
                        0 <= w < s0.rows.len() && s0.rows[w] == self@.rows[i];
                }
            }
        }
        Ok(ret)
    }

    /// Overwrites the rating and comment of the unique row for the triple and
    /// refreshes its `created_at` (an update is a re-review, so it resets
    /// recency); reports rather than no-ops when no row matches.
    pub fn update(
        &mut self,
        target_id: i64,
        reviewer_id: i64,
        rating: i32,
        comment: Option<String>,
        review_type: ReviewType,
        now: i64,
    ) -> (result: Result<Review, ReviewError>)
        requires
            old(self).wf(),
        ensures
            final(self).wf(),
            final(self)@ == store_update(
                old(self)@,
                target_id as int,
                reviewer_id as int,
                rating as int,
                comment_view(comment),
                review_type,
                now as int,
            ).0,
            result_view(result) == store_update(
                old(self)@,
                target_id as int,
                reviewer_id as int,
                rating as int,
                comment_view(comment),
                review_type,
                now as int,
            ).1,
    {
        let pos = self.find_pos(target_id, reviewer_id, review_type);
        match pos {
            None => Err(ReviewError::NotFound),
            Some(i) => {
                if rating < 1 || rating > 5 {
                    return Err(ReviewError::Constraint);
                }
                let ghost s0 = self@;
                let ghost gi = i as int;
                let old_row = self.rows.remove(i);
                proof {
                    assert(self@.rows =~= s0.rows.remove(gi));
                    assert(old_row@ == s0.rows[gi]);
                    assert forall|a: int, b: int|
                        0 <= a < b < self@.rows.len() implies key_gt(self@.rows[a], self@.rows[b])
                        && self@.rows[a].id != self@.rows[b].id by {
                        lemma_remove_keeps_order(s0.rows, gi, a, b);
                    }
                    assert forall|a: int| 0 <= a < self@.rows.len() implies (
                    #[trigger] self@.rows[a]).id != old_row@.id by {
                        if a < gi {
                            assert(self@.rows[a] == s0.rows[a]);
                        } else {
                            assert(self@.rows[a] == s0.rows[a + 1]);
                        }
                    }
                }
                let row = Review {
                    id: old_row.id,
                    target_id: old_row.target_id,
                    reviewer_id: old_row.reviewer_id,
                    rating,
                    comment,
                    review_type: old_row.review_type,
                    created_at: now,
                };
                let ret = row.clone();
                let ghost x = row@;
                let ghost s1 = self@;
                self.place(row);
                proof {
                    lemma_insert_desc_elems(x, s1.rows);
                    assert forall|k: int|
                        0 <= k < self@.rows.len() implies valid_rating(
                        (#[trigger] self@.rows[k]).rating,
                    ) && 1 <= self@.rows[k].id < self@.next_id by {
                        if self@.rows[k] != x {
                            let w = choose|w: int|
                                0 <= w < s1.rows.len() && s1.rows[w] == self@.rows[k];
                            if w < gi {
                                assert(s1.rows[w] == s0.rows[w]);
                            } else {
                                assert(s1.rows[w] == s0.rows[w + 1]);
                            }
                        }
                    }
                }
                Ok(ret)
            },
        }
    }

    /// The exact average over all matching rows: absent (not zero) when the
    /// target has no reviews, so "no data" stays distinguishable from a low
    /// rating.
    pub fn average(&self, target_id: i64, review_type: ReviewType) -> (r: Option<AverageRating>)
        requires
            self.wf(),
        ensures
            avg_view(r) == average_of(self@.rows, target_id as int, review_type),
    {
        let ghost p = pair_pred(target_id as int, review_type);
        let ghost f = rating_of();
        let mut sum: i64 = 0;
        let mut count: i64 = 0;
        let mut i: usize = 0;
        while i < self.rows.len()
            invariant
                0 <= i <= self.rows.len(),
                self@.rows.len() == self.rows.len(),
                self.wf(),
                p == pair_pred(target_id as int, review_type),
                f == rating_of(),
                count == count_where(self@.rows.subrange(0, i as int), p),
                sum == sum_where(self@.rows.subrange(0, i as int), p, f),
                0 <= count <= i,
                0 <= sum <= 5 * count,
            decreases self.rows.len() - i,
        {
            let ghost pre = self@.rows.subrange(0, i as int);
            let ghost elem = self@.rows[i as int];
            proof {
                assert(self@.rows.subrange(0, i as int + 1) =~= pre.push(elem));
                lemma_count_where_push(pre, elem, p);
                lemma_sum_where_push(pre, elem, p, f);
            }
            let row = &self.rows[i];
            assert(row@ == elem);
            if row.target_id == target_id && row.review_type == review_type {
                sum = sum + row.rating as i64;
                count = count + 1;
            }
            i = i + 1;
        }
        proof {
            assert(self@.rows.subrange(0, self@.rows.len() as int) =~= self@.rows);
        }
        if count == 0 {
            None
        } else {
            Some(AverageRating { sum, count })
        }
    }

    /// How many reviews the target has; zero when it has none.
    pub fn count(&self, target_id: i64, review_type: ReviewType) -> (r: i64)
        requires
            self.wf(),
        ensures
            r == count_matching(self@.rows, target_id as int, review_type),
    {
        let ghost p = pair_pred(target_id as int, review_type);
        let mut count: i64 = 0;
        let mut i: usize = 0;
        while i < self.rows.len()
            invariant
                0 <= i <= self.rows.len(),
                self@.rows.len() == self.rows.len(),
                self@.rows.len() <= i32::MAX,
                p == pair_pred(target_id as int, review_type),
                count == count_where(self@.rows.subrange(0, i as int), p),
                0 <= count <= i,
            decreases self.rows.len() - i,
        {
            let ghost pre = self@.rows.subrange(0, i as int);
            let ghost elem = self@.rows[i as int];
            proof {
                assert(self@.rows.subrange(0, i as int + 1) =~= pre.push(elem));
                lemma_count_where_push(pre, elem, p);
            }
            let row = &self.rows[i];
            assert(row@ == elem);
            if row.target_id == target_id && row.review_type == review_type {
                count = count + 1;
            }
            i = i + 1;
        }
        proof {
            assert(self@.rows.subrange(0, self@.rows.len() as int) =~= self@.rows);
        }
        count
    }

    /// All reviews of the target, newest first.
    pub fn list(&self, target_id: i64, review_type: ReviewType) -> (r: Vec<Review>)
        requires
            self.wf(),
        ensures
            r@.map_values(|x: Review| x@) == matching_reviews(
                self@.rows,
                target_id as int,
                review_type,
            ),
            sorted_desc(r@.map_values(|x: Review| x@)),
    {
        let ghost p = pair_pred(target_id as int, review_type);
        let ghost f = |x: Review| x@;
        let mut out: Vec<Review> = Vec::new();
        proof {
            assert(out@.map_values(f) =~= filter_where(self@.rows.subrange(0, 0), p));
        }
        let mut i: usize = 0;
        while i < self.rows.len()
            invariant
                0 <= i <= self.rows.len(),
                self@.rows.len() == self.rows.len(),
                p == pair_pred(target_id as int, review_type),
                f == (|x: Review| x@),
                out@.map_values(f) == filter_where(self@.rows.subrange(0, i as int), p),
            decreases self.rows.len() - i,
        {
            let ghost pre = self@.rows.subrange(0, i as int);
            let ghost elem = self@.rows[i as int];
            proof {
                assert(self@.rows.subrange(0, i as int + 1) =~= pre.push(elem));
                lemma_filter_where_push(pre, elem, p);
            }
            let row = &self.rows[i];
            assert(row@ == elem);
            if row.target_id == target_id && row.review_type == review_type {
                let ghost before = out@.map_values(f);
                let c = row.clone();
                out.push(c);
                proof {
                    assert(out@.map_values(f) =~= before.push(elem));
                }
            }
            i = i + 1;
        }
        proof {
            assert(self@.rows.subrange(0, self@.rows.len() as int) =~= self@.rows);
            lemma_filter_sorted(self@.rows, p);
        }
        out
    }

    /// One window of the listing: offset `page * page_size`, at most
    /// `page_size` rows, possibly fewer or none at the tail. A window past
    /// the end is empty, never an error.
    pub fn page(&self, target_id: i64, page: i64, per_page: i64, review_type: ReviewType) -> (r:
        Vec<Review>)
        requires
            self.wf(),
            page >= 0,
            per_page >= 1,
        ensures
            r@.map_values(|x: Review| x@) == page_of(
                self@.rows,
                target_id as int,
                review_type,
                page as int,
                per_page as int,
            ),
    {
        let ghost f = |x: Review| x@;
        let ghost p = pair_pred(target_id as int, review_type);
        let full = self.list(target_id, review_type);
        let ghost m = matching_reviews(self@.rows, target_id as int, review_type);
        proof {
            lemma_filter_where_len(self@.rows, p);
            lemma_count_where(self@.rows, p);
        }
        let n = full.len();
        assert(n == m.len());
        assert(n <= i32::MAX);
        if page >= n as i64 {
            let out: Vec<Review> = Vec::new();
            proof {
                assert(page * per_page >= page) by (nonlinear_arith)
                    requires
                        page >= 0,
                        per_page >= 1,
                ;
                assert(m.subrange(m.len() as int, m.len() as int) =~= Seq::<ReviewData>::empty());
                assert(out@.map_values(f) =~= Seq::<ReviewData>::empty());
            }
            return out;
        }
        if per_page > n as i64 {
            if page >= 1 {
                let out: Vec<Review> = Vec::new();
                proof {
                    assert(page * per_page >= per_page) by (nonlinear_arith)
                        requires
                            page >= 1,
                            per_page >= 1,
                    ;
                    assert(m.subrange(m.len() as int, m.len() as int) =~= Seq::<
                        ReviewData,
                    >::empty());
                    assert(out@.map_values(f) =~= Seq::<ReviewData>::empty());
                }
                return out;
            }
            proof {
                assert(m.subrange(0, m.len() as int) =~= m);
            }
            return full;
        }
        proof {
            assert(page * per_page <= (n as i64 - 1) * (n as i64)) by (nonlinear_arith)
                requires
                    0 <= page <= n as i64 - 1,
                    1 <= per_page <= n as i64,
            ;
            assert((n as i64 - 1) * (n as i64) < 0x4000_0000_0000_0000i64) by (nonlinear_arith)
                requires
                    0 < n as i64 <= 0x7fff_ffffi64,
            ;
            assert(page * per_page >= 0) by (nonlinear_arith)
                requires
                    page >= 0,
                    per_page >= 1,
            ;
        }
        let offset = page * per_page;
        if offset >= n as i64 {
            let out: Vec<Review> = Vec::new();
            proof {
                assert(m.subrange(m.len() as int, m.len() as int) =~= Seq::<ReviewData>::empty());
                assert(out@.map_values(f) =~= Seq::<ReviewData>::empty());
            }
            return out;
        }
        let end = if offset + per_page > n as i64 {
            n as i64
        } else {
            offset + per_page
        };
        let ghost lo = offset as int;
        let ghost hi = end as int;
        let mut out: Vec<Review> = Vec::new();
        proof {
            assert(out@.map_values(f) =~= m.subrange(lo, lo));
        }
        let mut j: usize = offset as usize;
        while (j as i64) < end
            invariant
                full@.map_values(f) == m,
                full@.len() == m.len(),
                lo == offset as int,
                hi == end as int,
                0 <= lo <= j as int <= hi <= m.len(),
                m.len() <= i32::MAX,
                f == (|x: Review| x@),
                out@.map_values(f) == m.subrange(lo, j as int),
            decreases hi - j,
        {
            let ghost before = out@.map_values(f);
            let row = &full[j];
            assert(row@ == m[j as int]);
            let c = row.clone();
            out.push(c);
            proof {
                assert(out@.map_values(f) =~= before.push(m[j as int]));
                assert(m.subrange(lo, j as int + 1) =~= m.subrange(lo, j as int).push(
                    m[j as int],
                ));
            }
            j = j + 1;
        }
        out
    }
}

/// Every row after an ordered insert is the new row or one of the old rows.
pub proof fn lemma_insert_desc_elems(x: ReviewData, s: Seq<ReviewData>)
    ensures
        insert_desc(x, s).len() == s.len() + 1,
        forall|k: int|
            0 <= k < insert_desc(x, s).len() ==> (#[trigger] insert_desc(x, s)[k]) == x
                || s.contains(insert_desc(x, s)[k]),
    decreases s.len(),
{
    let t = insert_desc(x, s);
    if s.len() == 0 {
        assert(t[0] == x);
    } else if key_gt(x, s[0]) {
        assert forall|k: int| 0 <= k < t.len() implies (#[trigger] t[k]) == x || s.contains(
            t[k],
        ) by {
            if k > 0 {
                assert(t[k] == s[k - 1]);
            }
        }
    } else {
        lemma_insert_desc_elems(x, s.drop_first());
        let rest = insert_desc(x, s.drop_first());
        assert forall|k: int| 0 <= k < t.len() implies (#[trigger] t[k]) == x || s.contains(
            t[k],
        ) by {
            if k == 0 {
                assert(t[0] == s[0]);
                assert(s.contains(s[0]));
            } else {
                assert(t[k] == rest[k - 1]);
                if rest[k - 1] != x {
                    let w = choose|w: int|
                        0 <= w < s.drop_first().len() && s.drop_first()[w] == rest[k - 1];
                    assert(s[w + 1] == rest[k - 1]);
                }
            }
        }
    }
}

/// Removing a row keeps the remaining rows ordered and their ids distinct.
proof fn lemma_remove_keeps_order(s: Seq<ReviewData>, i: int, a: int, b: int)
    requires
        sorted_desc(s),
        forall|x: int, y: int| 0 <= x < y < s.len() ==> s[x].id != s[y].id,
        0 <= i < s.len(),
        0 <= a < b < s.remove(i).len(),
    ensures
        key_gt(s.remove(i)[a], s.remove(i)[b]),
        s.remove(i)[a].id != s.remove(i)[b].id,
{
    let t = s.remove(i);
    assert(t[a] == if a < i {
        s[a]
    } else {
        s[a + 1]
    });
    assert(t[b] == if b < i {
        s[b]
    } else {
        s[b + 1]
    });
}

/// Order and id-freshness carry from a descending sequence to the result of
/// inserting a fresh row at its ordered position.
proof fn lemma_ordered_after_insert(s: Seq<ReviewData>, x: ReviewData, idx: int, i: int, j: int)
    requires
        sorted_desc(s),
        forall|a: int, b: int| 0 <= a < b < s.len() ==> s[a].id != s[b].id,
        forall|a: int| 0 <= a < s.len() ==> (#[trigger] s[a]).id != x.id,
        0 <= idx <= s.len(),
        forall|a: int| 0 <= a < idx ==> !key_gt(x, #[trigger] s[a]),
        idx < s.len() ==> key_gt(x, s[idx]),
        0 <= i < j < s.insert(idx, x).len(),
    ensures
        key_gt(s.insert(idx, x)[i], s.insert(idx, x)[j]),
        s.insert(idx, x)[i].id != s.insert(idx, x)[j].id,
{
    let t = s.insert(idx, x);
    assert forall|k: int| 0 <= k < t.len() implies t[k] == if k < idx {
        s[k]
    } else if k == idx {
        x
    } else {
        s[k - 1]
    } by {}
    if i < idx && j == idx {
        assert(!key_gt(x, s[i]));
        assert(s[i].id != x.id);
        assert(key_gt(s[i], x));
    } else if i == idx && j > idx {
        assert(key_gt(x, s[idx]));
        if j - 1 > idx {
            assert(key_gt(s[idx], s[j - 1]));
        }
    }
}

} // verus!
