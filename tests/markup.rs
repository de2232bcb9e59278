use filmr::{PageSelectors, PageResult, Scraper, Step};

const LISTING: &str = r#"<html><body>
<div class="p-contents-list">
  <div class="c-content-card">
    <h3 class="c-content-card__title"><a href="/movies/1">Parasite<span>(2019年製作の映画)</span></a></h3>
    <div class="c-rating__score">4.5</div>
    <p class="c-content-card__review"><span>Great<br>film</span></p>
  </div>
  <div class="c-content-card">
    <h3 class="c-content-card__title">Heat(1995年製作の映画)</h3>
    <div class="c-rating__score">-</div>
    <p class="c-content-card__review"><span>Too long…</span></p>
    <span class="c-content-card__readmore-review"><a href="/movies/2/reviews/9">read more</a></span>
  </div>
</div>
<div class="c-content-card"><h3 class="c-content-card__title">Outside(2000)</h3></div>
</body></html>"#;

const DETAIL: &str = r#"<html><body>
<div class="p-timeline-mark__title">Heat(1995年製作の映画)</div>
<div class="c-rating__score">3.9</div>
<div class="p-mark-review">Long<br>review</div>
</body></html>"#;

#[test]
fn listing_cards_are_read_in_order() {
    let sel = PageSelectors::new().unwrap();
    let cards = sel.listing_cards(LISTING);
    assert_eq!(cards.len(), 2);
    assert_eq!(cards[0].fields.title.as_deref(), Some("Parasite(2019年製作の映画)"));
    assert_eq!(cards[0].fields.score.as_deref(), Some("4.5"));
    assert_eq!(
        cards[0].fields.review.as_deref(),
        Some("<p class=\"c-content-card__review\"><span>Great<br>film</span></p>")
    );
    assert!(cards[0].read_more.is_none());
    assert_eq!(cards[1].read_more, Some(Some("/movies/2/reviews/9".to_string())));
}

#[test]
fn detail_fields_are_read() {
    let sel = PageSelectors::new().unwrap();
    let f = sel.detail_fields(DETAIL);
    assert_eq!(f.title.as_deref(), Some("Heat(1995年製作の映画)"));
    assert_eq!(f.score.as_deref(), Some("3.9"));
    assert_eq!(f.review.as_deref(), Some("<div class=\"p-mark-review\">Long<br>review</div>"));
    let empty = sel.detail_fields("<html></html>");
    assert!(empty.title.is_none() && empty.score.is_none() && empty.review.is_none());
}

#[test]
fn pages_drive_a_whole_scrape() {
    let sel = PageSelectors::new().unwrap();
    let mut s = Scraper::new("https://filmarks.com/users/u");
    let step = s.on_listing(PageResult::Found(sel.listing_cards(LISTING)));
    let requests = match step {
        Step::FetchDetails(rs) => rs,
        other => panic!("unexpected step {:?}", other),
    };
    assert_eq!(requests[0].url, "https://filmarks.com/movies/2/reviews/9");
    let step = s.on_detail(requests[0].card, PageResult::Found(sel.detail_fields(DETAIL)));
    assert!(matches!(step, Step::FetchPage(_)));
    assert!(matches!(s.on_listing(PageResult::NotFound), Step::Finished));
    let out = s.into_reviews();
    assert_eq!(out.reviews.len(), 2);
    assert_eq!(out.reviews[0].title, "Parasite");
    assert_eq!(out.reviews[0].review, "Great\nfilm");
    assert_eq!(out.reviews[1].title, "Heat");
    assert_eq!(out.reviews[1].review, "Long\nreview");
    assert_eq!(out.reviews[1].score.units, 39);
}
