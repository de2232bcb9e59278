use filmr::{
    CardMarkup, Error, PageResult, ParseError, ParseErrorKind, Phase, ReviewFields, Scraper, Step,
};

fn inline_card(title: &str, body: &str) -> CardMarkup {
    CardMarkup {
        fields: ReviewFields {
            title: Some(title.to_string()),
            score: Some("3.5".to_string()),
            review: Some(format!("<p class=\"c-content-card__review\"><span>{}</span></p>", body)),
        },
        read_more: None,
    }
}

fn linked_card(href: &str) -> CardMarkup {
    CardMarkup {
        fields: ReviewFields { title: Some("Cut(2000)".to_string()), score: None, review: None },
        read_more: Some(Some(href.to_string())),
    }
}

fn detail(title: &str, body: &str) -> PageResult<ReviewFields> {
    PageResult::Found(ReviewFields {
        title: Some(title.to_string()),
        score: Some("4".to_string()),
        review: Some(format!("<div class=\"p-mark-review\">{}</div>", body)),
    })
}

fn titles(s: &Scraper) -> Vec<String> {
    s.reviews().iter().map(|r| r.title.clone()).collect()
}

#[test]
fn first_page_not_found_is_user_not_found() {
    let mut s = Scraper::new("https://filmarks.com/users/nobody");
    assert_eq!(s.page_url(), "https://filmarks.com/users/nobody");
    let step = s.on_listing(PageResult::NotFound);
    assert!(matches!(step, Step::Failed(Error::UserNotFound)));
    assert_eq!(s.phase(), Phase::Failed);
    assert!(s.reviews().is_empty());
}

#[test]
fn empty_page_advances_to_next_page() {
    let mut s = Scraper::new("https://filmarks.com/users/u");
    let step = s.on_listing(PageResult::Found(Vec::new()));
    match step {
        Step::FetchPage(url) => assert_eq!(url, "https://filmarks.com/users/u?page=2"),
        other => panic!("unexpected step {:?}", other),
    }
    assert_eq!(s.page_index(), 2);
    assert_eq!(s.phase(), Phase::FetchingPage);
    assert!(s.reviews().is_empty());
    let step = s.on_listing(PageResult::Found(Vec::new()));
    assert!(matches!(step, Step::FetchPage(ref u) if u == "https://filmarks.com/users/u?page=3"));
    let step = s.on_listing(PageResult::NotFound);
    assert!(matches!(step, Step::Finished));
    assert_eq!(s.phase(), Phase::Done);
}

#[test]
fn later_page_not_found_finishes() {
    let mut s = Scraper::new("https://filmarks.com/users/u/marks/animes");
    s.on_listing(PageResult::Found(vec![inline_card("A(2001)", "a")]));
    let step = s.on_listing(PageResult::NotFound);
    assert!(matches!(step, Step::Finished));
    let out = s.into_reviews();
    assert_eq!(out.reviews.len(), 1);
    assert_eq!(out.reviews[0].title, "A");
    assert_eq!(out.reviews[0].review, "a");
}

#[test]
fn linked_card_keeps_its_position() {
    let mut s = Scraper::new("https://filmarks.com/users/u");
    let step = s.on_listing(PageResult::Found(vec![
        inline_card("A(2001)", "a"),
        linked_card("/movies/1/reviews/2"),
        inline_card("C(2003)", "c"),
    ]));
    let requests = match step {
        Step::FetchDetails(rs) => rs,
        other => panic!("unexpected step {:?}", other),
    };
    assert_eq!(requests.len(), 1);
    assert_eq!(requests[0].card, 1);
    assert_eq!(requests[0].url, "https://filmarks.com/movies/1/reviews/2");
    assert_eq!(s.phase(), Phase::ResolvingLinked);
    assert!(s.is_awaiting(1));
    assert!(!s.is_awaiting(0));
    assert!(!s.is_awaiting(2));
    let step = s.on_detail(1, detail("B(2002年製作の映画)", "b1<br>b2"));
    assert!(matches!(step, Step::FetchPage(ref u) if u == "https://filmarks.com/users/u?page=2"));
    assert_eq!(titles(&s), vec!["A", "B", "C"]);
    assert_eq!(s.reviews()[1].review, "b1\nb2");
}

#[test]
fn detail_arrival_order_does_not_reorder() {
    let page = || {
        vec![
            linked_card("/r/0"),
            inline_card("B(2002)", "b"),
            linked_card("/r/2"),
            linked_card("/r/3"),
        ]
    };
    let mut forward = Scraper::new("u");
    forward.on_listing(PageResult::Found(page()));
    assert!(matches!(forward.on_detail(0, detail("A(2001)", "a")), Step::Awaiting));
    assert!(matches!(forward.on_detail(2, detail("C(2003)", "c")), Step::Awaiting));
    assert!(matches!(forward.on_detail(3, detail("D(2004)", "d")), Step::FetchPage(_)));

    let mut backward = Scraper::new("u");
    backward.on_listing(PageResult::Found(page()));
    assert!(matches!(backward.on_detail(3, detail("D(2004)", "d")), Step::Awaiting));
    assert!(matches!(backward.on_detail(0, detail("A(2001)", "a")), Step::Awaiting));
    assert!(matches!(backward.on_detail(2, detail("C(2003)", "c")), Step::FetchPage(_)));

    assert_eq!(titles(&forward), vec!["A", "B", "C", "D"]);
    assert_eq!(titles(&backward), vec!["A", "B", "C", "D"]);
}

#[test]
fn output_is_pages_then_cards() {
    let mut s = Scraper::new("u");
    s.on_listing(PageResult::Found(vec![inline_card("P1a(2001)", "x"), inline_card("P1b(2002)", "y")]));
    s.on_listing(PageResult::Found(vec![]));
    s.on_listing(PageResult::Found(vec![linked_card("/d"), inline_card("P3b(2004)", "z")]));
    s.on_detail(0, detail("P3a(2003)", "w"));
    let step = s.on_listing(PageResult::NotFound);
    assert!(matches!(step, Step::Finished));
    assert_eq!(titles(&s), vec!["P1a", "P1b", "P3a", "P3b"]);
    assert_eq!(s.page_index(), 4);
}

#[test]
fn transport_error_fails_the_scrape() {
    let mut s = Scraper::new("u");
    let step = s.on_listing(PageResult::TransportError("timed out".to_string()));
    assert!(matches!(step, Step::Failed(Error::Transport(ref e)) if e == "timed out"));
    assert_eq!(s.phase(), Phase::Failed);

    let mut s = Scraper::new("u");
    s.on_listing(PageResult::Found(vec![linked_card("/d")]));
    let step = s.on_detail(0, PageResult::TransportError("reset".to_string()));
    assert!(matches!(step, Step::Failed(Error::Transport(ref e)) if e == "reset"));
    assert_eq!(s.phase(), Phase::Failed);
}

#[test]
fn unreadable_card_fails_with_its_position() {
    let mut s = Scraper::new("u");
    s.on_listing(PageResult::Found(vec![inline_card("A(2001)", "a")]));
    let broken = CardMarkup {
        fields: ReviewFields { title: Some("A(2001)".to_string()), score: None, review: None },
        read_more: Some(None),
    };
    let step = s.on_listing(PageResult::Found(vec![
        inline_card("B(2002)", "b"),
        inline_card("no year", "c"),
        broken,
    ]));
    assert!(matches!(
        step,
        Step::Failed(Error::Parse(ParseError { page: 2, card: 1, kind: ParseErrorKind::BadTitle }))
    ));
    assert_eq!(titles(&s), vec!["A"]);
}

#[test]
fn link_without_target_is_an_error() {
    let mut s = Scraper::new("u");
    let broken = CardMarkup {
        fields: ReviewFields { title: None, score: None, review: None },
        read_more: Some(None),
    };
    let step = s.on_listing(PageResult::Found(vec![broken]));
    assert!(matches!(
        step,
        Step::Failed(Error::Parse(ParseError {
            page: 1,
            card: 0,
            kind: ParseErrorKind::MissingDetailLink
        }))
    ));
}

#[test]
fn missing_detail_page_is_an_error() {
    let mut s = Scraper::new("u");
    s.on_listing(PageResult::Found(vec![inline_card("A(2001)", "a"), linked_card("/gone")]));
    let step = s.on_detail(1, PageResult::NotFound);
    assert!(matches!(
        step,
        Step::Failed(Error::Parse(ParseError {
            page: 1,
            card: 1,
            kind: ParseErrorKind::DetailNotFound
        }))
    ));
    let mut s = Scraper::new("u");
    s.on_listing(PageResult::Found(vec![linked_card("/bad")]));
    let step = s.on_detail(0, detail("no year", "x"));
    assert!(matches!(
        step,
        Step::Failed(Error::Parse(ParseError { page: 1, card: 0, kind: ParseErrorKind::BadTitle }))
    ));
}
