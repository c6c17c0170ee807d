//! Domain types: review kinds, review records, rating categories, and the
//! exact (rational) representation of an average rating.
use vstd::prelude::*;
use vstd::string::StrSliceExecFns;

verus! {

/// The closed set of entities a review can target. Doubles as the partition
/// key namespace for storage queries and cache keys.
#[derive(Clone, Copy, PartialEq, Eq, Structural, Debug)]
pub enum ReviewType {
    User,
    Server,
}

impl ReviewType {
    /// The name under which this kind partitions cache and storage keys.
    pub open spec fn key_name(self) -> Seq<char> {
        match self {
            ReviewType::User => "user"@,
            ReviewType::Server => "server"@,
        }
    }

    pub fn as_str(&self) -> (r: &'static str)
        ensures
            r@ == self.key_name(),
    {
        match self {
            ReviewType::User => "user",
            ReviewType::Server => "server",
        }
    }
}

/// Maps the textual kind name back to the variant; the single boundary where
/// string-typed input becomes a `ReviewType`.
pub fn parse_review_type(s: &str) -> (r: Option<ReviewType>)
    ensures
        r == Some(ReviewType::User) <==> s@ == ReviewType::User.key_name(),
        r == Some(ReviewType::Server) <==> s@ == ReviewType::Server.key_name(),
        r is None <==> (s@ != ReviewType::User.key_name() && s@ != ReviewType::Server.key_name()),
{
    proof {
        broadcast use vstd::string::group_string_axioms;

        reveal_strlit("user");
        reveal_strlit("server");
        assert("user"@.len() == 4);
        assert("server"@.len() == 6);
        assert(ReviewType::User.key_name() != ReviewType::Server.key_name());
    }
    let text = s.to_owned();
    if text == ReviewType::User.as_str().to_owned() {
        Some(ReviewType::User)
    } else if text == ReviewType::Server.as_str().to_owned() {
        Some(ReviewType::Server)
    } else {
        None
    }
}

/// One stored review record.
#[derive(Debug, PartialEq)]
pub struct Review {
    pub id: i32,
    pub target_id: i64,
    pub reviewer_id: i64,
    pub rating: i32,
    pub comment: Option<String>,
    pub review_type: ReviewType,
    pub created_at: i64,
}

/// The mathematical value of a `Review`.
pub ghost struct ReviewData {
    pub id: int,
    pub target_id: int,
    pub reviewer_id: int,
    pub rating: int,
    pub comment: Option<Seq<char>>,
    pub review_type: ReviewType,
    pub created_at: int,
}

/// The mathematical value of an optional comment.
pub open spec fn comment_view(c: Option<String>) -> Option<Seq<char>> {
    match c {
        Some(s) => Some(s@),
        None => None,
    }
}

impl View for Review {
    type V = ReviewData;

    open spec fn view(&self) -> ReviewData {
        ReviewData {
            id: self.id as int,
            target_id: self.target_id as int,
            reviewer_id: self.reviewer_id as int,
            rating: self.rating as int,
            comment: comment_view(self.comment),
            review_type: self.review_type,
            created_at: self.created_at as int,
        }
    }
}

impl Clone for Review {
    fn clone(&self) -> (r: Self)
        ensures
            r@ == self@,
    {
        Review {
            id: self.id,
            target_id: self.target_id,
            reviewer_id: self.reviewer_id,
            rating: self.rating,
            comment: match &self.comment {
                Some(s) => Some(s.clone()),
                None => None,
            },
            review_type: self.review_type,
            created_at: self.created_at,
        }
    }
}

/// A rating is an integer in the closed range [1, 5].
pub open spec fn valid_rating(r: int) -> bool {
    1 <= r <= 5
}

/// An average rating, kept exact as the sum of all matching ratings over
/// their number. A `count` of zero means "no reviews"; consumers that render
/// it as `0.0` own that convention.
#[derive(Clone, Copy, PartialEq, Eq, Structural, Debug)]
pub struct AverageRating {
    pub sum: i64,
    pub count: i64,
}

/// The mathematical value of an `AverageRating`.
pub ghost struct AvgData {
    pub sum: int,
    pub count: int,
}

impl View for AverageRating {
    type V = AvgData;

    open spec fn view(&self) -> AvgData {
        AvgData { sum: self.sum as int, count: self.count as int }
    }
}

/// What any average produced by the store satisfies: each of `count` ratings
/// lies in [1, 5], and the row count stays within the id space.
pub open spec fn valid_average(a: AvgData) -> bool {
    0 <= a.count <= i32::MAX && a.count <= a.sum <= 5 * a.count
}

/// Errors surfaced by the review core.
#[derive(Clone, Copy, PartialEq, Eq, Structural, Debug)]
pub enum ReviewError {
    /// A rating outside [1, 5], rejected before any store traffic.
    InvalidRating,
    /// An update targeted an author-target-kind triple with no row.
    NotFound,
    /// A storage-level check rejected the record (rating validation skipped).
    Constraint,
}

impl ReviewError {
    pub fn label(&self) -> (r: &'static str)
        ensures
            self is InvalidRating ==> r@ == "invalid rating"@,
            self is NotFound ==> r@ == "review not found"@,
            self is Constraint ==> r@ == "constraint violation"@,
    {
        match self {
            ReviewError::InvalidRating => "invalid rating",
            ReviewError::NotFound => "review not found",
            ReviewError::Constraint => "constraint violation",
        }
    }
}

/// Qualitative bands over the average rating.
#[derive(Clone, Copy, PartialEq, Eq, Structural, Debug)]
pub enum RatingCategory {
    Unrated,
    Poor,
    Fair,
    Good,
    VeryGood,
    Excellent,
}

/// The band an exact average falls in: no reviews is `Unrated`; otherwise the
/// average sum/count is compared against the whole-star thresholds.
pub open spec fn category_of(a: AvgData) -> RatingCategory {
    if a.count == 0 {
        RatingCategory::Unrated
    } else if a.sum <= 1 * a.count {
        RatingCategory::Poor
    } else if a.sum <= 2 * a.count {
        RatingCategory::Fair
    } else if a.sum <= 3 * a.count {
        RatingCategory::Good
    } else if a.sum <= 4 * a.count {
        RatingCategory::VeryGood
    } else {
        RatingCategory::Excellent
    }
}

impl RatingCategory {
    pub fn from_average(avg: AverageRating) -> (r: Self)
        requires
            valid_average(avg@),
        ensures
            r == category_of(avg@),
    {
        if avg.count == 0 {
            RatingCategory::Unrated
        } else if avg.sum <= avg.count {
            RatingCategory::Poor
        } else if avg.sum <= 2 * avg.count {
            RatingCategory::Fair
        } else if avg.sum <= 3 * avg.count {
            RatingCategory::Good
        } else if avg.sum <= 4 * avg.count {
            RatingCategory::VeryGood
        } else {
            RatingCategory::Excellent
        }
    }

    pub fn label(&self) -> (r: &'static str)
        ensures
            self is Unrated ==> r@ == "Unrated"@,
            self is Poor ==> r@ == "Poor"@,
            self is Fair ==> r@ == "Fair"@,
            self is Good ==> r@ == "Good"@,
            self is VeryGood ==> r@ == "Very Good"@,
            self is Excellent ==> r@ == "Excellent"@,
    {
        match self {
            RatingCategory::Unrated => "Unrated",
            RatingCategory::Poor => "Poor",
            RatingCategory::Fair => "Fair",
            RatingCategory::Good => "Good",
            RatingCategory::VeryGood => "Very Good",
            RatingCategory::Excellent => "Excellent",
        }
    }
}

/// The embed accent colour for each rating band, as a 24-bit RGB value.
pub fn get_rating_color(category: &RatingCategory) -> (r: u32)
    ensures
        category is Unrated ==> r == 0x607D8B,
        category is Poor ==> r == 0xE74C3C,
        category is Fair ==> r == 0xE67E22,
        category is Good ==> r == 0xF1C40F,
        category is VeryGood ==> r == 0x1F8B4C,
        category is Excellent ==> r == 0x206694,
{
    match category {
        RatingCategory::Unrated => 0x607D8B,
        RatingCategory::Poor => 0xE74C3C,
        RatingCategory::Fair => 0xE67E22,
        RatingCategory::Good => 0xF1C40F,
        RatingCategory::VeryGood => 0x1F8B4C,
        RatingCategory::Excellent => 0x206694,
    }
}

/// Whitespace for the purpose of comment normalization.
pub open spec fn is_space_char(c: char) -> bool {
    c == ' ' || c == '\t' || c == '\n' || c == '\r'
}

/// A comment is blank when every character is whitespace (so also when empty).
pub open spec fn is_blank(s: Seq<char>) -> bool {
    forall|i: int| 0 <= i < s.len() ==> is_space_char(s[i])
}

/// Absent, empty and whitespace-only comments all normalize to absent; any
/// other comment is kept verbatim.
pub open spec fn normalized_comment(c: Option<Seq<char>>) -> Option<Seq<char>> {
    match c {
        None => None,
        Some(s) => if is_blank(s) {
            None
        } else {
            Some(s)
        },
    }
}

/// Normalizes a submitted comment at the boundary: blank input becomes
/// absent, so an empty string is never stored.
pub fn normalize_comment(comment: Option<String>) -> (r: Option<String>)
    ensures
        comment_view(r) == normalized_comment(comment_view(comment)),
{
    match comment {
        None => None,
        Some(s) => {
            if is_blank_str(&s) {
                None
            } else {
                Some(s)
            }
        },
    }
}

/// Whether a string consists of whitespace only (or is empty).
pub fn is_blank_str(s: &String) -> (b: bool)
    ensures
        b == is_blank(s@),
{
    let n = s.as_str().unicode_len();
    let mut i: usize = 0;
    while i < n
        invariant
            n == s@.len(),
            0 <= i <= n,
            forall|j: int| 0 <= j < i ==> is_space_char(s@[j]),
        decreases n - i,
    {
        let c = s.as_str().get_char(i);
        if !(c == ' ' || c == '\t' || c == '\n' || c == '\r') {
            assert(!is_space_char(s@[i as int]));
            return false;
        }
        i = i + 1;
    }
    true
}

/// The body of a review submission as it arrives from a transport layer.
pub struct ReviewRequest {
    pub rating: i32,
    pub comment: Option<String>,
    pub reviewer_id: i64,
}

/// A transport-facing error payload.
pub struct ErrorResponse {
    pub error: String,
}

} // verus!
