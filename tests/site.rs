use filmr::{user_page_url, AnimeScraper, DramaScraper, FileType, MediaType, MovieScraper};

#[test]
fn listing_addresses_per_media() {
    assert_eq!(user_page_url(MediaType::Film, "abc"), "https://filmarks.com/users/abc");
    assert_eq!(user_page_url(MediaType::Tvs, "abc"), "https://filmarks.com/users/abc/marks/dramas");
    assert_eq!(
        user_page_url(MediaType::Anime, "abc"),
        "https://filmarks.com/users/abc/marks/animes"
    );
}

#[test]
fn scrapers_start_at_their_listing() {
    let m = MovieScraper::new("kei").scraper();
    assert_eq!(m.page_url(), "https://filmarks.com/users/kei");
    let d = DramaScraper::new("kei").scraper();
    assert_eq!(d.page_url(), "https://filmarks.com/users/kei/marks/dramas");
    let a = AnimeScraper::new("kei").scraper();
    assert_eq!(a.page_url(), "https://filmarks.com/users/kei/marks/animes");
    assert_eq!(a.page_index(), 1);
}

#[test]
fn file_type_names_and_default_paths() {
    assert_eq!(FileType::Csv.as_str(), "csv");
    assert_eq!(FileType::Json.as_str(), "json");
    assert_eq!(FileType::Txt.as_str(), "txt");
    assert_eq!(FileType::Csv.default_path(), "reviews.csv");
    assert_eq!(FileType::Json.default_path(), "reviews.json");
    assert_eq!(FileType::Txt.default_path(), "reviews.txt");
}
