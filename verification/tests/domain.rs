//! Tests of the domain types: kinds, categories, colours, comment
//! normalization and error labels.
use reviews::review::AverageRating;
use reviews::review::ErrorResponse;
use reviews::review::RatingCategory;
use reviews::review::ReviewError;
use reviews::review::ReviewRequest;
use reviews::review::ReviewType;
use reviews::review::get_rating_color;
use reviews::review::is_blank_str;
use reviews::review::normalize_comment;
use reviews::review::parse_review_type;

#[test]
fn kind_names_round_trip() {
    assert_eq!(ReviewType::User.as_str(), "user");
    assert_eq!(ReviewType::Server.as_str(), "server");
    assert_eq!(parse_review_type("user"), Some(ReviewType::User));
    assert_eq!(parse_review_type("server"), Some(ReviewType::Server));
    assert_eq!(parse_review_type("guild"), None);
    assert_eq!(parse_review_type(""), None);
    assert_eq!(parse_review_type("User"), None);
}

#[test]
fn category_bands_match_thresholds() {
    let cat = |sum: i64, count: i64| RatingCategory::from_average(AverageRating { sum, count });
    assert_eq!(cat(0, 0), RatingCategory::Unrated);
    assert_eq!(cat(1, 1), RatingCategory::Poor);
    assert_eq!(cat(3, 3), RatingCategory::Poor);
    assert_eq!(cat(3, 2), RatingCategory::Fair);
    assert_eq!(cat(2, 1), RatingCategory::Fair);
    assert_eq!(cat(5, 2), RatingCategory::Good);
    assert_eq!(cat(3, 1), RatingCategory::Good);
    assert_eq!(cat(7, 2), RatingCategory::VeryGood);
    assert_eq!(cat(4, 1), RatingCategory::VeryGood);
    assert_eq!(cat(9, 2), RatingCategory::Excellent);
    assert_eq!(cat(5, 1), RatingCategory::Excellent);
}

#[test]
fn category_labels() {
    assert_eq!(RatingCategory::Unrated.label(), "Unrated");
    assert_eq!(RatingCategory::Poor.label(), "Poor");
    assert_eq!(RatingCategory::Fair.label(), "Fair");
    assert_eq!(RatingCategory::Good.label(), "Good");
    assert_eq!(RatingCategory::VeryGood.label(), "Very Good");
    assert_eq!(RatingCategory::Excellent.label(), "Excellent");
}

#[test]
fn rating_colors() {
    assert_eq!(get_rating_color(&RatingCategory::Unrated), 0x607D8B);
    assert_eq!(get_rating_color(&RatingCategory::Poor), 0xE74C3C);
    assert_eq!(get_rating_color(&RatingCategory::Fair), 0xE67E22);
    assert_eq!(get_rating_color(&RatingCategory::Good), 0xF1C40F);
    assert_eq!(get_rating_color(&RatingCategory::VeryGood), 0x1F8B4C);
    assert_eq!(get_rating_color(&RatingCategory::Excellent), 0x206694);
}

#[test]
fn blank_comments_normalize_to_absent() {
    assert_eq!(normalize_comment(None), None);
    assert_eq!(normalize_comment(Some(String::new())), None);
    assert_eq!(normalize_comment(Some("   ".to_string())), None);
    assert_eq!(normalize_comment(Some(" \t\r\n ".to_string())), None);
    assert_eq!(
        normalize_comment(Some("great experience".to_string())),
        Some("great experience".to_string())
    );
    // Non-blank input is kept verbatim, surrounding whitespace included.
    assert_eq!(normalize_comment(Some("  hi  ".to_string())), Some("  hi  ".to_string()));
}

#[test]
fn blankness_check() {
    assert!(is_blank_str(&String::new()));
    assert!(is_blank_str(&" \t".to_string()));
    assert!(!is_blank_str(&" x ".to_string()));
}

#[test]
fn error_labels() {
    assert_eq!(ReviewError::InvalidRating.label(), "invalid rating");
    assert_eq!(ReviewError::NotFound.label(), "review not found");
    assert_eq!(ReviewError::Constraint.label(), "constraint violation");
}

#[test]
fn transport_payloads_hold_plain_values() {
    let req = ReviewRequest { rating: 4, comment: Some("ok".to_string()), reviewer_id: 9 };
    assert_eq!(req.rating, 4);
    assert_eq!(req.reviewer_id, 9);
    assert_eq!(req.comment.as_deref(), Some("ok"));
    let err = ErrorResponse { error: "Invalid review type".to_string() };
    assert_eq!(err.error, "Invalid review type");
}
