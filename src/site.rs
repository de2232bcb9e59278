//! The site's listing addresses, one per kind of media, and the scrapers
//! that start from them.

use vstd::prelude::*;

use crate::session::{initial_state, Scraper};
use crate::text::push_str;

verus! {

/// Where every user's pages live.
pub const USER_BASE_URL: &'static str = "https://filmarks.com/users/";

/// The kind of media whose reviews are scraped.
#[derive(Clone, Copy, Debug, PartialEq, Eq, Structural)]
pub enum MediaType {
    Film,
    Tvs,
    Anime,
}

/// What follows the user's address in the address of a listing of `m`.
pub open spec fn listing_suffix(m: MediaType) -> Seq<char> {
    match m {
        MediaType::Film => ""@,
        MediaType::Tvs => "/marks/dramas"@,
        MediaType::Anime => "/marks/animes"@,
    }
}

/// The address of the first listing page of `user_id`'s reviews of `m`.
pub open spec fn user_page_url_of(m: MediaType, user_id: Seq<char>) -> Seq<char> {
    USER_BASE_URL@ + user_id + listing_suffix(m)
}

impl MediaType {
    /// What follows the user's address in the address of a listing of this media.
    pub fn listing_suffix(&self) -> (r: &'static str)
        ensures
            r@ == listing_suffix(*self),
    {
        match self {
            MediaType::Film => "",
            MediaType::Tvs => "/marks/dramas",
            MediaType::Anime => "/marks/animes",
        }
    }
}

/// The address of the first listing page of `user_id`'s reviews of `media`.
pub fn user_page_url(media: MediaType, user_id: &str) -> (r: String)
    ensures
        r@ == user_page_url_of(media, user_id@),
{
    let mut r = String::new();
    push_str(&mut r, USER_BASE_URL);
    push_str(&mut r, user_id);
    push_str(&mut r, media.listing_suffix());
    r
}

/// Scrapes a user's film reviews.
#[derive(Debug)]
pub struct MovieScraper {
    username: String,
}

impl View for MovieScraper {
    type V = Seq<char>;

    closed spec fn view(&self) -> Seq<char> {
        self.username@
    }
}

impl MovieScraper {
    pub fn new(username: &str) -> (s: Self)
        ensures
            s@ == username@,
    {
        let mut name = String::new();
        push_str(&mut name, username);
        MovieScraper { username: name }
    }

    /// A driver for the user's film listing, about to fetch its first page.
    pub fn scraper(&self) -> (s: Scraper)
        ensures
            s@ == initial_state(user_page_url_of(MediaType::Film, self@)),
    {
        Scraper::new(user_page_url(MediaType::Film, self.username.as_str()).as_str())
    }
}

/// Scrapes a user's TV drama reviews.
#[derive(Debug)]
pub struct DramaScraper {
    user_id: String,
}

impl View for DramaScraper {
    type V = Seq<char>;

    closed spec fn view(&self) -> Seq<char> {
        self.user_id@
    }
}

impl DramaScraper {
    pub fn new(user_id: &str) -> (s: Self)
        ensures
            s@ == user_id@,
    {
        let mut id = String::new();
        push_str(&mut id, user_id);
        DramaScraper { user_id: id }
    }

    /// A driver for the user's drama listing, about to fetch its first page.
    pub fn scraper(&self) -> (s: Scraper)
        ensures
            s@ == initial_state(user_page_url_of(MediaType::Tvs, self@)),
    {
        Scraper::new(user_page_url(MediaType::Tvs, self.user_id.as_str()).as_str())
    }
}

/// Scrapes a user's anime reviews.
#[derive(Debug)]
pub struct AnimeScraper {
    user_id: String,
}

impl View for AnimeScraper {
    type V = Seq<char>;

    closed spec fn view(&self) -> Seq<char> {
        self.user_id@
    }
}

impl AnimeScraper {
    pub fn new(user_id: &str) -> (s: Self)
        ensures
            s@ == user_id@,
    {
        let mut id = String::new();
        push_str(&mut id, user_id);
        AnimeScraper { user_id: id }
    }

    /// A driver for the user's anime listing, about to fetch its first page.
    pub fn scraper(&self) -> (s: Scraper)
        ensures
            s@ == initial_state(user_page_url_of(MediaType::Anime, self@)),
    {
        Scraper::new(user_page_url(MediaType::Anime, self.user_id.as_str()).as_str())
    }
}

} // verus!
