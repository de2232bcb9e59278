//! Review cards: the fields a listing card or a detail page shows, how a
//! card is classified, and how its review is extracted.

use vstd::prelude::*;

use crate::parse::{
    body_of, parse_score, score_of, split_title_year, title_year_of, unwrap_review_markup,
};
use crate::review::{zero_score, ReviewView, Score, UserReview};
use crate::text::push_str;

verus! {

/// The site every relative link is resolved against.
pub const SITE_ORIGIN: &'static str = "https://filmarks.com";

/// How the review text element of a listing card opens.
pub const LISTING_REVIEW_OPEN: &'static str = "<p class=\"c-content-card__review\"><span>";

/// How the review text element of a listing card closes.
pub const LISTING_REVIEW_CLOSE: &'static str = "</span></p>";

/// How the review text element of a detail page opens.
pub const DETAIL_REVIEW_OPEN: &'static str = "<div class=\"p-mark-review\">";

/// How the review text element of a detail page closes.
pub const DETAIL_REVIEW_CLOSE: &'static str = "</div>";

/// Why a card or a detail page could not be read.
#[derive(Clone, Copy, Debug, PartialEq, Eq, Structural)]
pub enum ParseErrorKind {
    /// The title element is missing.
    MissingTitle,
    /// The title text does not read `<title>(<year>...)`.
    BadTitle,
    /// The review text element is missing.
    MissingReview,
    /// The review text element is not wrapped as expected.
    BadReviewMarkup,
    /// The "read more" anchor has no link target.
    MissingDetailLink,
    /// The detail page of a linked card was not found.
    DetailNotFound,
}

/// The text fields of one review as the page shows them: the title text,
/// the rating text and the markup of the review text element, each `None`
/// when the page has no such element.
#[derive(Debug)]
pub struct ReviewFields {
    pub title: Option<String>,
    pub score: Option<String>,
    pub review: Option<String>,
}

/// A view of an optional string.
pub open spec fn opt_view(o: Option<String>) -> Option<Seq<char>> {
    match o {
        Some(s) => Some(s@),
        None => None,
    }
}

/// What a `ReviewFields` holds, as mathematical values.
pub struct FieldsView {
    pub title: Option<Seq<char>>,
    pub score: Option<Seq<char>>,
    pub review: Option<Seq<char>>,
}

impl View for ReviewFields {
    type V = FieldsView;

    open spec fn view(&self) -> FieldsView {
        FieldsView {
            title: opt_view(self.title),
            score: opt_view(self.score),
            review: opt_view(self.review),
        }
    }
}

/// The review written by `f`, whose review text element is wrapped in
/// `open` and `close`; or why there is none. An absent or unreadable score
/// is zero and no error.
pub open spec fn review_from(f: FieldsView, open: Seq<char>, close: Seq<char>) -> Result<
    ReviewView,
    ParseErrorKind,
> {
    match f.title {
        None => Err(ParseErrorKind::MissingTitle),
        Some(tt) => match title_year_of(tt) {
            None => Err(ParseErrorKind::BadTitle),
            Some((title, year)) => match f.review {
                None => Err(ParseErrorKind::MissingReview),
                Some(html) => match body_of(html, open, close) {
                    None => Err(ParseErrorKind::BadReviewMarkup),
                    Some(body) => Ok(
                        ReviewView {
                            title,
                            year,
                            score: match f.score {
                                Some(st) => score_of(st),
                                None => zero_score(),
                            },
                            body,
                        },
                    ),
                },
            },
        },
    }
}

/// The review of an inline listing card.
pub open spec fn short_review_of(f: FieldsView) -> Result<ReviewView, ParseErrorKind> {
    review_from(f, LISTING_REVIEW_OPEN@, LISTING_REVIEW_CLOSE@)
}

/// The review shown by a detail page.
pub open spec fn long_review_of(f: FieldsView) -> Result<ReviewView, ParseErrorKind> {
    review_from(f, DETAIL_REVIEW_OPEN@, DETAIL_REVIEW_CLOSE@)
}

/// The view of an extraction result.
pub open spec fn review_result_view(r: Result<UserReview, ParseErrorKind>) -> Result<
    ReviewView,
    ParseErrorKind,
> {
    match r {
        Ok(rv) => Ok(rv@),
        Err(e) => Err(e),
    }
}

fn extract_review(f: &ReviewFields, open: &str, close: &str) -> (r: Result<
    UserReview,
    ParseErrorKind,
>)
    ensures
        review_result_view(r) == review_from(f@, open@, close@),
{
    let title_text = match &f.title {
        Some(t) => t,
        None => {
            return Err(ParseErrorKind::MissingTitle);
        },
    };
    let (title, year) = match split_title_year(title_text.as_str()) {
        Some(p) => p,
        None => {
            return Err(ParseErrorKind::BadTitle);
        },
    };
    let score = match &f.score {
        Some(st) => parse_score(st.as_str()),
        None => Score::zero(),
    };
    let html = match &f.review {
        Some(h) => h,
        None => {
            return Err(ParseErrorKind::MissingReview);
        },
    };
    let review = match unwrap_review_markup(html.as_str(), open, close) {
        Some(b) => b,
        None => {
            return Err(ParseErrorKind::BadReviewMarkup);
        },
    };
    Ok(UserReview { title, year, score, review })
}

/// Extracts the review of an inline listing card from its fields.
pub fn parse_short_review(f: &ReviewFields) -> (r: Result<UserReview, ParseErrorKind>)
    ensures
        review_result_view(r) == short_review_of(f@),
{
    extract_review(f, LISTING_REVIEW_OPEN, LISTING_REVIEW_CLOSE)
}

/// Extracts the review shown by a detail page from its fields.
pub fn parse_long_review(f: &ReviewFields) -> (r: Result<UserReview, ParseErrorKind>)
    ensures
        review_result_view(r) == long_review_of(f@),
{
    extract_review(f, DETAIL_REVIEW_OPEN, DETAIL_REVIEW_CLOSE)
}

/// The address of a detail page, from the link target of a "read more" anchor.
pub open spec fn detail_url(href: Seq<char>) -> Seq<char> {
    SITE_ORIGIN@ + href
}

/// Resolves the link target of a "read more" anchor against the site.
pub fn resolve_detail_url(href: &str) -> (r: String)
    ensures
        r@ == detail_url(href@),
{
    let mut r = String::new();
    push_str(&mut r, SITE_ORIGIN);
    push_str(&mut r, href);
    r
}

} // verus!

verus! {

/// What a listing page shows of one card: its review fields, and the link
/// target of its "read more" anchor (`None` when the card has no such
/// anchor; `Some(None)` when the anchor has no link target).
#[derive(Debug)]
pub struct CardMarkup {
    pub fields: ReviewFields,
    pub read_more: Option<Option<String>>,
}

/// What a `CardMarkup` holds, as mathematical values.
pub struct CardMarkupView {
    pub fields: FieldsView,
    pub read_more: Option<Option<Seq<char>>>,
}

impl View for CardMarkup {
    type V = CardMarkupView;

    open spec fn view(&self) -> CardMarkupView {
        CardMarkupView {
            fields: self.fields@,
            read_more: match self.read_more {
                Some(link) => Some(opt_view(link)),
                None => None,
            },
        }
    }
}

/// A classified card: its review is inline, or it must be fetched from a detail page.
#[derive(Debug)]
pub enum Card {
    Inline(UserReview),
    Linked(String),
}

/// What a `Card` holds, as mathematical values.
pub enum CardView {
    Inline(ReviewView),
    Linked(Seq<char>),
}

impl View for Card {
    type V = CardView;

    open spec fn view(&self) -> CardView {
        match self {
            Card::Inline(r) => CardView::Inline(r@),
            Card::Linked(u) => CardView::Linked(u@),
        }
    }
}

/// The class of a card: linked when it has a "read more" anchor, whose link
/// target gives the detail page; inline otherwise, with its review read
/// from the card itself.
pub open spec fn card_of(m: CardMarkupView) -> Result<CardView, ParseErrorKind> {
    match m.read_more {
        Some(Some(href)) => Ok(CardView::Linked(detail_url(href))),
        Some(None) => Err(ParseErrorKind::MissingDetailLink),
        None => match short_review_of(m.fields) {
            Ok(r) => Ok(CardView::Inline(r)),
            Err(e) => Err(e),
        },
    }
}

/// The view of a classification result.
pub open spec fn card_result_view(r: Result<Card, ParseErrorKind>) -> Result<
    CardView,
    ParseErrorKind,
> {
    match r {
        Ok(c) => Ok(c@),
        Err(e) => Err(e),
    }
}

/// Classifies a listing card, extracting its review when it is inline.
pub fn classify_card(m: &CardMarkup) -> (r: Result<Card, ParseErrorKind>)
    ensures
        card_result_view(r) == card_of(m@),
{
    match &m.read_more {
        Some(Some(href)) => Ok(Card::Linked(resolve_detail_url(href.as_str()))),
        Some(None) => Err(ParseErrorKind::MissingDetailLink),
        None => match parse_short_review(&m.fields) {
            Ok(r) => Ok(Card::Inline(r)),
            Err(e) => Err(e),
        },
    }
}

} // verus!
