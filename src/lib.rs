//! Scrapes a user's review history from a review site and turns each review
//! card into a structured record.

pub mod card;
pub mod export;
pub mod laws;
pub mod markup;
pub mod parse;
pub mod review;
pub mod session;
pub mod site;
pub mod text;

pub use card::{
    classify_card, parse_long_review, parse_short_review, resolve_detail_url, Card, CardMarkup,
    ParseErrorKind, ReviewFields,
};
pub use export::FileType;
pub use markup::PageSelectors;
pub use parse::{parse_score, split_title_year, unwrap_review_markup};
pub use review::{Score, UserReview, UserReviews};
pub use session::{
    DetailRequest, Error, PageResult, ParseError, Phase, Scraper, Step,
};
pub use site::{user_page_url, AnimeScraper, DramaScraper, MediaType, MovieScraper};
