//! The review record and its score.

use vstd::prelude::*;

verus! {

/// A score as a decimal fraction: `units / 10^scale`.
///
/// Scores that come out of parsing are normalised: `scale` is zero or
/// `units` does not end in a zero digit, so that two equal values have
/// equal fields.
#[derive(Clone, Copy, Debug, PartialEq, Eq, Structural)]
pub struct Score {
    pub units: u64,
    pub scale: u32,
}

impl Score {
    /// The score used when the source holds no number.
    pub fn zero() -> (s: Score)
        ensures
            s == zero_score(),
    {
        Score { units: 0, scale: 0 }
    }
}

/// The score used when the source holds no number.
pub open spec fn zero_score() -> Score {
    Score { units: 0, scale: 0 }
}

/// One review: the title it is about, that title's year, the score given and the review text.
#[derive(Debug)]
pub struct UserReview {
    pub title: String,
    pub year: i32,
    pub score: Score,
    pub review: String,
}

/// What a review holds, as mathematical values.
pub struct ReviewView {
    pub title: Seq<char>,
    pub year: int,
    pub score: Score,
    pub body: Seq<char>,
}

impl View for UserReview {
    type V = ReviewView;

    open spec fn view(&self) -> ReviewView {
        ReviewView {
            title: self.title@,
            year: self.year as int,
            score: self.score,
            body: self.review@,
        }
    }
}

/// The views of a sequence of reviews.
pub open spec fn reviews_view(rs: Seq<UserReview>) -> Seq<ReviewView> {
    rs.map_values(|r: UserReview| r@)
}

/// The ordered reviews of one finished scrape.
#[derive(Debug)]
pub struct UserReviews {
    pub reviews: Vec<UserReview>,
}

} // verus!
