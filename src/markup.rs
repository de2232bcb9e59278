//! Reading the review fields out of listing and detail pages, through the
//! HTML parser and CSS selectors of the `scraper` crate.

use vstd::prelude::*;

use scraper::{ElementRef, Html, Selector};

use crate::card::{CardMarkup, ReviewFields};
use crate::session::Error;

verus! {

#[verifier::external_type_specification]
#[verifier::external_body]
pub struct ExHtml(Html);

#[verifier::external_type_specification]
#[verifier::external_body]
pub struct ExSelector(Selector);

#[verifier::external_type_specification]
#[verifier::external_body]
pub struct ExElementRef<'a>(ElementRef<'a>);

/// Relies on `scraper::Html::parse_document`, which parses any text into a
/// document tree and never fails.
#[verifier::external_body]
fn parse_document(text: &str) -> Html {
    Html::parse_document(text)
}

/// Relies on `scraper::Selector::parse`: the selector, or the parse error as text.
#[verifier::external_body]
fn parse_selector(css: &str) -> Result<Selector, String> {
    Selector::parse(css).map_err(|e| e.to_string())
}

/// Relies on `scraper::Html::select`: the elements of the document that
/// match the selector, in document order.
#[verifier::external_body]
fn select_in_document<'a>(doc: &'a Html, sel: &Selector) -> Vec<ElementRef<'a>> {
    doc.select(sel).collect()
}

/// Relies on `scraper::ElementRef::select`: the descendants of the element
/// that match the selector, in document order.
#[verifier::external_body]
fn select_in_element<'a>(e: &ElementRef<'a>, sel: &Selector) -> Vec<ElementRef<'a>> {
    e.select(sel).collect()
}

/// Relies on `scraper::ElementRef::text`: the element's text nodes, joined.
#[verifier::external_body]
fn element_text(e: &ElementRef) -> String {
    e.text().collect()
}

/// Relies on `scraper::ElementRef::html`: the markup of the element itself.
#[verifier::external_body]
fn element_html(e: &ElementRef) -> String {
    e.html()
}

/// Relies on `scraper::ElementRef::attr`: the value of the named attribute, if present.
#[verifier::external_body]
fn element_attr(e: &ElementRef, name: &str) -> Option<String> {
    e.attr(name).map(|v| v.to_string())
}

/// The selectors that locate the review fields on the site's pages.
pub struct PageSelectors {
    card: Selector,
    card_title: Selector,
    rating: Selector,
    card_review: Selector,
    read_more_link: Selector,
    detail_title: Selector,
    detail_review: Selector,
}

fn selector(css: &str) -> Result<Selector, Error> {
    match parse_selector(css) {
        Ok(s) => Ok(s),
        Err(e) => Err(Error::SelectorParse(e)),
    }
}

/// The first element in `e` that matches `sel`.
fn first_in_element<'a>(e: &ElementRef<'a>, sel: &Selector) -> Option<ElementRef<'a>> {
    let mut found = select_in_element(e, sel);
    if found.len() > 0 {
        Some(found.remove(0))
    } else {
        None
    }
}

/// The first element of the document that matches `sel`.
fn first_in_document<'a>(doc: &'a Html, sel: &Selector) -> Option<ElementRef<'a>> {
    let mut found = select_in_document(doc, sel);
    if found.len() > 0 {
        Some(found.remove(0))
    } else {
        None
    }
}

/// The text of `e`, if there is an element.
fn text_of(e: Option<ElementRef>) -> (r: Option<String>)
    ensures
        e is None <==> r is None,
{
    match e {
        Some(x) => Some(element_text(&x)),
        None => None,
    }
}

/// The markup of `e`, if there is an element.
fn html_of(e: Option<ElementRef>) -> (r: Option<String>)
    ensures
        e is None <==> r is None,
{
    match e {
        Some(x) => Some(element_html(&x)),
        None => None,
    }
}

impl PageSelectors {
    /// Parses the selectors of the site's markup.
    pub fn new() -> Result<PageSelectors, Error> {
        Ok(
            PageSelectors {
                card: selector("div.p-contents-list div.c-content-card")?,
                card_title: selector("h3.c-content-card__title")?,
                rating: selector("div.c-rating__score")?,
                card_review: selector("p.c-content-card__review")?,
                read_more_link: selector("span.c-content-card__readmore-review a")?,
                detail_title: selector("div.p-timeline-mark__title")?,
                detail_review: selector("div.p-mark-review")?,
            },
        )
    }

    /// The cards of a listing page, in document order, each with its title
    /// text, rating text, review markup and "read more" link.
    pub fn listing_cards(&self, page: &str) -> Vec<CardMarkup> {
        let doc = parse_document(page);
        let cards = select_in_document(&doc, &self.card);
        let mut out: Vec<CardMarkup> = Vec::new();
        let n = cards.len();
        for i in 0..n
            invariant
                n == cards@.len(),
        {
            let e = &cards[i];
            let fields = ReviewFields {
                title: text_of(first_in_element(e, &self.card_title)),
                score: text_of(first_in_element(e, &self.rating)),
                review: html_of(first_in_element(e, &self.card_review)),
            };
            let read_more = match first_in_element(e, &self.read_more_link) {
                Some(a) => Some(element_attr(&a, "href")),
                None => None,
            };
            out.push(CardMarkup { fields, read_more });
        }
        out
    }

    /// The title text, rating text and review markup of a detail page.
    pub fn detail_fields(&self, page: &str) -> ReviewFields {
        let doc = parse_document(page);
        ReviewFields {
            title: text_of(first_in_document(&doc, &self.detail_title)),
            score: text_of(first_in_document(&doc, &self.rating)),
            review: html_of(first_in_document(&doc, &self.detail_review)),
        }
    }
}

} // verus!
