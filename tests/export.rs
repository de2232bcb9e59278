use filmr::{Score, UserReview, UserReviews};

fn review(title: &str, year: i32, score: Score, body: &str) -> UserReview {
    UserReview { title: title.to_string(), year, score, review: body.to_string() }
}

#[test]
fn text_export_blocks() {
    let rs = UserReviews {
        reviews: vec![
            review("Parasite", 2019, Score { units: 45, scale: 1 }, "Great\nfilm"),
            review("Heat", 1995, Score { units: 0, scale: 0 }, ""),
        ],
    };
    assert_eq!(
        rs.to_text(),
        "Title: Parasite\nYear: 2019\nScore: 4.5\nReview:\nGreat\nfilm\n\n\
         Title: Heat\nYear: 1995\nScore: 0\nReview:\n\n\n"
    );
}

#[test]
fn text_export_of_nothing_is_empty() {
    assert_eq!(UserReviews { reviews: Vec::new() }.to_text(), "");
}

#[test]
fn score_text_pads_and_places_point() {
    let rs = UserReviews {
        reviews: vec![
            review("a", 7, Score { units: 5, scale: 2 }, "x"),
            review("b", -12, Score { units: 1234, scale: 2 }, "y"),
            review("c", 2000, Score { units: 40, scale: 0 }, "z"),
        ],
    };
    assert_eq!(
        rs.to_text(),
        "Title: a\nYear: 7\nScore: 0.05\nReview:\nx\n\n\
         Title: b\nYear: -12\nScore: 12.34\nReview:\ny\n\n\
         Title: c\nYear: 2000\nScore: 40\nReview:\nz\n\n"
    );
}

#[test]
fn score_to_text() {
    assert_eq!(Score { units: 38, scale: 1 }.to_text(), "3.8");
    assert_eq!(Score { units: 0, scale: 0 }.to_text(), "0");
    assert_eq!(Score { units: 7, scale: 3 }.to_text(), "0.007");
    assert_eq!(filmr::parse_score("4.50").to_text(), "4.5");
}
