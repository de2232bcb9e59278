use filmr::{
    parse_long_review, parse_score, parse_short_review, split_title_year, unwrap_review_markup,
    ParseErrorKind, ReviewFields, Score,
};

fn fields(title: Option<&str>, score: Option<&str>, review: Option<&str>) -> ReviewFields {
    ReviewFields {
        title: title.map(|s| s.to_string()),
        score: score.map(|s| s.to_string()),
        review: review.map(|s| s.to_string()),
    }
}

#[test]
fn title_before_last_year_group_is_kept_as_is() {
    let (title, year) = split_title_year("Parasite (2019) Director's Cut").unwrap();
    assert_eq!(title, "Parasite ");
    assert_eq!(year, 2019);
}

#[test]
fn title_of_site_form() {
    let (title, year) = split_title_year("パラサイト 半地下の家族(2019年製作の映画)").unwrap();
    assert_eq!(title, "パラサイト 半地下の家族");
    assert_eq!(year, 2019);
}

#[test]
fn title_uses_last_year_group() {
    let (title, year) = split_title_year("Heat (1995) remake (2001年)").unwrap();
    assert_eq!(title, "Heat (1995) remake ");
    assert_eq!(year, 2001);
}

#[test]
fn title_without_year_group_is_rejected() {
    assert!(split_title_year("Untitled").is_none());
    assert!(split_title_year("Movie (19x9)").is_none());
    assert!(split_title_year("Movie (2019").is_none());
    assert!(split_title_year("").is_none());
}

#[test]
fn blank_title_is_rejected() {
    assert!(split_title_year("(2019)").is_none());
    assert!(split_title_year("  \u{3000}(2019)").is_none());
}

#[test]
fn score_non_numeric_is_zero() {
    assert_eq!(parse_score("—"), Score { units: 0, scale: 0 });
    assert_eq!(parse_score("-"), Score { units: 0, scale: 0 });
    assert_eq!(parse_score(""), Score { units: 0, scale: 0 });
    assert_eq!(parse_score("."), Score { units: 0, scale: 0 });
    assert_eq!(parse_score("1e3"), Score { units: 0, scale: 0 });
    assert_eq!(parse_score(" 3.8"), Score { units: 0, scale: 0 });
    assert_eq!(parse_score("3.8.1"), Score { units: 0, scale: 0 });
}

#[test]
fn score_decimal_values() {
    assert_eq!(parse_score("3.8"), Score { units: 38, scale: 1 });
    assert_eq!(parse_score("4.0"), Score { units: 4, scale: 0 });
    assert_eq!(parse_score("5"), Score { units: 5, scale: 0 });
    assert_eq!(parse_score(".5"), Score { units: 5, scale: 1 });
    assert_eq!(parse_score("2."), Score { units: 2, scale: 0 });
    assert_eq!(parse_score("0.25"), Score { units: 25, scale: 2 });
    assert_eq!(parse_score("10.50"), Score { units: 105, scale: 1 });
}

#[test]
fn score_too_long_is_zero() {
    assert_eq!(parse_score("99999999999999999999"), Score { units: 0, scale: 0 });
    assert_eq!(
        parse_score("18446744073709551615"),
        Score { units: 18446744073709551615, scale: 0 }
    );
}

#[test]
fn review_markup_is_unwrapped_and_breaks_become_newlines() {
    let body = unwrap_review_markup(
        "<p class=\"c-content-card__review\"><span>Great<br>film<br><br>end</span></p>",
        "<p class=\"c-content-card__review\"><span>",
        "</span></p>",
    );
    assert_eq!(body.unwrap(), "Great\nfilm\n\nend");
}

#[test]
fn review_markup_keeps_other_tags() {
    let body = unwrap_review_markup("<div>a<br/>b<b>r</b></div>", "<div>", "</div>");
    assert_eq!(body.unwrap(), "a<br/>b<b>r</b>");
}

#[test]
fn review_markup_wrapped_otherwise_is_rejected() {
    assert!(unwrap_review_markup("<p>x</p>", "<div>", "</div>").is_none());
    assert!(unwrap_review_markup("<div>", "<div>", "</div>").is_none());
    assert_eq!(unwrap_review_markup("<div></div>", "<div>", "</div>").unwrap(), "");
}

#[test]
fn short_review_from_fields() {
    let f = fields(
        Some("Parasite(2019年製作の映画)"),
        Some("4.5"),
        Some("<p class=\"c-content-card__review\"><span>Superb<br>twist</span></p>"),
    );
    let r = parse_short_review(&f).unwrap();
    assert_eq!(r.title, "Parasite");
    assert_eq!(r.year, 2019);
    assert_eq!(r.score, Score { units: 45, scale: 1 });
    assert_eq!(r.review, "Superb\ntwist");
}

#[test]
fn short_review_extraction_is_repeatable() {
    let f = fields(
        Some("Heat(1995年製作の映画)"),
        Some("3.9"),
        Some("<p class=\"c-content-card__review\"><span>Long<br>night</span></p>"),
    );
    let a = parse_short_review(&f).unwrap();
    let b = parse_short_review(&f).unwrap();
    assert_eq!(a.title, b.title);
    assert_eq!(a.year, b.year);
    assert_eq!(a.score, b.score);
    assert_eq!(a.review, b.review);
}

#[test]
fn missing_or_dashed_score_is_zero() {
    let f = fields(
        Some("Heat(1995)"),
        None,
        Some("<p class=\"c-content-card__review\"><span>ok</span></p>"),
    );
    assert_eq!(parse_short_review(&f).unwrap().score, Score { units: 0, scale: 0 });
    let g = fields(
        Some("Heat(1995)"),
        Some("—"),
        Some("<p class=\"c-content-card__review\"><span>ok</span></p>"),
    );
    assert_eq!(parse_short_review(&g).unwrap().score, Score { units: 0, scale: 0 });
}

#[test]
fn short_review_errors() {
    let body = Some("<p class=\"c-content-card__review\"><span>ok</span></p>");
    let r = parse_short_review(&fields(None, Some("3"), body));
    assert!(matches!(r, Err(ParseErrorKind::MissingTitle)));
    let r = parse_short_review(&fields(Some("No year"), Some("3"), body));
    assert!(matches!(r, Err(ParseErrorKind::BadTitle)));
    let r = parse_short_review(&fields(Some("A(2000)"), Some("3"), None));
    assert!(matches!(r, Err(ParseErrorKind::MissingReview)));
    let r = parse_short_review(&fields(Some("A(2000)"), Some("3"), Some("<p>ok</p>")));
    assert!(matches!(r, Err(ParseErrorKind::BadReviewMarkup)));
}

#[test]
fn long_review_from_fields() {
    let f = fields(
        Some("Oldboy(2003年製作の映画)"),
        Some("4.2"),
        Some("<div class=\"p-mark-review\">Line one<br>Line two</div>"),
    );
    let r = parse_long_review(&f).unwrap();
    assert_eq!(r.title, "Oldboy");
    assert_eq!(r.year, 2003);
    assert_eq!(r.score, Score { units: 42, scale: 1 });
    assert_eq!(r.review, "Line one\nLine two");
    let g = fields(
        Some("Oldboy(2003)"),
        Some("4.2"),
        Some("<p class=\"c-content-card__review\"><span>x</span></p>"),
    );
    assert!(matches!(parse_long_review(&g), Err(ParseErrorKind::BadReviewMarkup)));
}
