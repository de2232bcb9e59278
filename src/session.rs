//! The pagination driver: a state machine that decides, page after page,
//! what to fetch next and how each page's reviews join the session.
//!
//! The caller performs every fetch and hands the outcome back: listing
//! pages one at a time, and the detail pages of one listing page in any
//! order, as they complete. Each detail review is written into the slot of
//! its card, so the order in which fetches complete never shows in the output.

use vstd::prelude::*;

use crate::card::{
    card_of, classify_card, long_review_of, parse_long_review, Card, CardMarkup, CardMarkupView,
    CardView, FieldsView, ParseErrorKind, ReviewFields,
};
use crate::review::{reviews_view, ReviewView, UserReview, UserReviews};
use crate::text::{decimal_of, push_decimal, push_str};

verus! {

/// The outcome of fetching one page.
#[derive(Debug)]
pub enum PageResult<T> {
    /// The page was served; `T` is what was read from it.
    Found(T),
    /// The server answered that there is no such page.
    NotFound,
    /// The request failed otherwise; the text says why.
    TransportError(String),
}

/// What a `PageResult` holds, as mathematical values.
pub enum PageResultView<T> {
    Found(T),
    NotFound,
    TransportError(Seq<char>),
}

/// A card or detail page that could not be read, with where it was found.
#[derive(Clone, Copy, Debug, PartialEq, Eq, Structural)]
pub struct ParseError {
    /// The listing page, counted from 1.
    pub page: u64,
    /// The position of the card on that page, counted from 0.
    pub card: usize,
    pub kind: ParseErrorKind,
}

/// Why a scrape failed.
#[derive(Debug)]
pub enum Error {
    /// The first listing page was not found.
    UserNotFound,
    /// A request failed; the text says why.
    Transport(String),
    /// A page did not have the expected markup.
    Parse(ParseError),
    /// A selector of the page markup could not be parsed.
    SelectorParse(String),
}

/// What an `Error` holds, as mathematical values.
pub enum ErrorView {
    UserNotFound,
    Transport(Seq<char>),
    Parse(ParseError),
    SelectorParse(Seq<char>),
}

impl View for Error {
    type V = ErrorView;

    open spec fn view(&self) -> ErrorView {
        match self {
            Error::UserNotFound => ErrorView::UserNotFound,
            Error::Transport(e) => ErrorView::Transport(e@),
            Error::Parse(p) => ErrorView::Parse(*p),
            Error::SelectorParse(e) => ErrorView::SelectorParse(e@),
        }
    }
}

/// A detail page to fetch: the position of its card on the listing page and its address.
#[derive(Debug)]
pub struct DetailRequest {
    pub card: usize,
    pub url: String,
}

/// What the caller must do next.
#[derive(Debug)]
pub enum Step {
    /// Fetch this listing page and hand the outcome to `on_listing`.
    FetchPage(String),
    /// Fetch these detail pages, concurrently if desired, and hand each
    /// outcome to `on_detail` as it arrives.
    FetchDetails(Vec<DetailRequest>),
    /// Hand the outcomes of the remaining detail pages to `on_detail`.
    Awaiting,
    /// The scrape is complete.
    Finished,
    /// The scrape failed.
    Failed(Error),
}

/// What a `Step` holds, as mathematical values.
pub enum StepView {
    FetchPage(Seq<char>),
    FetchDetails(Seq<(int, Seq<char>)>),
    Awaiting,
    Finished,
    Failed(ErrorView),
}

impl View for Step {
    type V = StepView;

    open spec fn view(&self) -> StepView {
        match self {
            Step::FetchPage(u) => StepView::FetchPage(u@),
            Step::FetchDetails(rs) => StepView::FetchDetails(
                rs@.map_values(|r: DetailRequest| (r.card as int, r.url@)),
            ),
            Step::Awaiting => StepView::Awaiting,
            Step::Finished => StepView::Finished,
            Step::Failed(e) => StepView::Failed(e@),
        }
    }
}

/// Where the driver stands.
#[derive(Clone, Copy, Debug, PartialEq, Eq, Structural)]
pub enum Phase {
    /// A listing page is to be fetched.
    FetchingPage,
    /// The detail pages of the current listing page are being fetched.
    ResolvingLinked,
    /// The last listing page has been read; the reviews are complete.
    Done,
    /// The scrape failed.
    Failed,
}

/// The address of listing page `page` of the listing at `base`.
pub open spec fn listing_url(base: Seq<char>, page: int) -> Seq<char> {
    if page <= 1 {
        base
    } else {
        base + "?page="@ + decimal_of(page as nat)
    }
}

/// The driver's state, as mathematical values.
pub struct ScraperView {
    /// The address of the first listing page.
    pub url: Seq<char>,
    /// The listing page being worked on, counted from 1.
    pub page: int,
    /// The reviews of the pages done so far, in order.
    pub reviews: Seq<ReviewView>,
    /// The reviews of the current page's cards, by position; `None` for a
    /// linked card whose detail page has not arrived yet.
    pub slots: Seq<Option<ReviewView>>,
    pub phase: Phase,
    /// The reviews of each page done so far.
    pub pages: Seq<Seq<ReviewView>>,
}

impl ScraperView {
    /// The state's invariant: the reviews are the pages' reviews laid end
    /// to end, and the page being worked on follows the pages done.
    pub open spec fn wf(self) -> bool {
        &&& self.page == self.pages.len() + 1
        &&& self.page <= u64::MAX
        &&& self.reviews == self.pages.flatten()
    }

    /// The same state in another phase.
    pub open spec fn in_phase(self, phase: Phase) -> ScraperView {
        ScraperView { phase, ..self }
    }

    /// The state once a page whose reviews are `batch` is merged: the
    /// reviews are appended and the next page is due.
    pub open spec fn merged(self, batch: Seq<ReviewView>) -> ScraperView {
        ScraperView {
            url: self.url,
            page: self.page + 1,
            reviews: self.reviews + batch,
            slots: seq![],
            phase: Phase::FetchingPage,
            pages: self.pages.push(batch),
        }
    }
}

/// The state of a driver about to fetch the first page of the listing at `url`.
pub open spec fn initial_state(url: Seq<char>) -> ScraperView {
    ScraperView {
        url,
        page: 1,
        reviews: seq![],
        slots: seq![],
        phase: Phase::FetchingPage,
        pages: seq![],
    }
}

/// The views of classified cards that are known to be readable.
pub open spec fn cards_of(ms: Seq<CardMarkupView>) -> Seq<CardView> {
    ms.map_values(|m: CardMarkupView| card_of(m)->Ok_0)
}

/// The position of the first card among the first `n` that cannot be read, or -1.
pub open spec fn first_bad_card(ms: Seq<CardMarkupView>, n: int) -> int
    decreases n,
{
    if n <= 0 {
        -1
    } else if first_bad_card(ms, n - 1) >= 0 {
        first_bad_card(ms, n - 1)
    } else if card_of(ms[n - 1]) is Err {
        n - 1
    } else {
        -1
    }
}

/// The slot of a classified card: its review when inline, empty when linked.
pub open spec fn slot_of(c: CardView) -> Option<ReviewView> {
    match c {
        CardView::Inline(r) => Some(r),
        CardView::Linked(_) => None,
    }
}

/// The slots of a page's classified cards.
pub open spec fn slots_of(cards: Seq<CardView>) -> Seq<Option<ReviewView>> {
    cards.map_values(|c: CardView| slot_of(c))
}

/// Whether every slot holds a review.
pub open spec fn all_filled(slots: Seq<Option<ReviewView>>) -> bool {
    forall|i: int| 0 <= i < slots.len() ==> (#[trigger] slots[i]) is Some
}

/// The reviews held by filled slots, in slot order.
pub open spec fn batch_of(slots: Seq<Option<ReviewView>>) -> Seq<ReviewView> {
    slots.map_values(|o: Option<ReviewView>| o->0)
}

/// The detail pages to fetch for the first `n` classified cards: the
/// position and address of each linked card, in card order.
pub open spec fn linked_requests(cards: Seq<CardView>, n: int) -> Seq<(int, Seq<char>)>
    decreases n,
{
    if n <= 0 {
        seq![]
    } else {
        match cards[n - 1] {
            CardView::Linked(u) => linked_requests(cards, n - 1).push((n - 1, u)),
            CardView::Inline(_) => linked_requests(cards, n - 1),
        }
    }
}

/// The state that follows a page whose slots are `slots`: merged at once
/// when every slot is filled, else waiting for the missing detail pages.
pub open spec fn after_slots(s: ScraperView, slots: Seq<Option<ReviewView>>, waiting: StepView) -> (
    ScraperView,
    StepView,
) {
    if all_filled(slots) {
        let next = s.merged(batch_of(slots));
        (next, StepView::FetchPage(listing_url(s.url, next.page)))
    } else {
        (ScraperView { slots, phase: Phase::ResolvingLinked, ..s }, waiting)
    }
}

/// The transition on the outcome of fetching the current listing page.
///
/// A missing first page means the user does not exist; a missing later
/// page ends the scrape. A served page is classified card by card: the
/// first card that cannot be read fails the scrape; otherwise the inline
/// reviews fill their slots and the linked cards' detail pages are
/// requested. A page with no linked card, including one with no card at
/// all, is merged at once and the next page is requested.
pub open spec fn after_listing(s: ScraperView, o: PageResultView<Seq<CardMarkupView>>) -> (
    ScraperView,
    StepView,
) {
    match o {
        PageResultView::NotFound => if s.page == 1 {
            (s.in_phase(Phase::Failed), StepView::Failed(ErrorView::UserNotFound))
        } else {
            (s.in_phase(Phase::Done), StepView::Finished)
        },
        PageResultView::TransportError(e) => (
            s.in_phase(Phase::Failed),
            StepView::Failed(ErrorView::Transport(e)),
        ),
        PageResultView::Found(ms) => {
            let bad = first_bad_card(ms, ms.len() as int);
            if bad >= 0 {
                (
                    s.in_phase(Phase::Failed),
                    StepView::Failed(
                        ErrorView::Parse(
                            ParseError {
                                page: s.page as u64,
                                card: bad as usize,
                                kind: card_of(ms[bad])->Err_0,
                            },
                        ),
                    ),
                )
            } else {
                let cards = cards_of(ms);
                after_slots(
                    s,
                    slots_of(cards),
                    StepView::FetchDetails(linked_requests(cards, cards.len() as int)),
                )
            }
        },
    }
}

/// The transition on the outcome of fetching the detail page of the card at `card`.
///
/// A failed or missing detail page, or one that cannot be read, fails the
/// scrape. Otherwise its review fills the card's slot; once every slot of
/// the page is filled, the page is merged and the next page is requested.
pub open spec fn after_detail(s: ScraperView, card: int, o: PageResultView<FieldsView>) -> (
    ScraperView,
    StepView,
) {
    let fail = |kind: ParseErrorKind|
        (
            s.in_phase(Phase::Failed),
            StepView::Failed(
                ErrorView::Parse(ParseError { page: s.page as u64, card: card as usize, kind }),
            ),
        );
    match o {
        PageResultView::TransportError(e) => (
            s.in_phase(Phase::Failed),
            StepView::Failed(ErrorView::Transport(e)),
        ),
        PageResultView::NotFound => fail(ParseErrorKind::DetailNotFound),
        PageResultView::Found(f) => match long_review_of(f) {
            Err(kind) => fail(kind),
            Ok(r) => after_slots(s, s.slots.update(card, Some(r)), StepView::Awaiting),
        },
    }
}

/// The view of a listing page outcome.
pub open spec fn listing_view(o: PageResult<Vec<CardMarkup>>) -> PageResultView<Seq<CardMarkupView>> {
    match o {
        PageResult::Found(ms) => PageResultView::Found(ms@.map_values(|m: CardMarkup| m@)),
        PageResult::NotFound => PageResultView::NotFound,
        PageResult::TransportError(e) => PageResultView::TransportError(e@),
    }
}

/// The view of a detail page outcome.
pub open spec fn detail_view(o: PageResult<ReviewFields>) -> PageResultView<FieldsView> {
    match o {
        PageResult::Found(f) => PageResultView::Found(f@),
        PageResult::NotFound => PageResultView::NotFound,
        PageResult::TransportError(e) => PageResultView::TransportError(e@),
    }
}

/// The view of one slot.
pub open spec fn slot_view(o: Option<UserReview>) -> Option<ReviewView> {
    match o {
        Some(r) => Some(r@),
        None => None,
    }
}

/// The views of a page's slots.
pub open spec fn slots_view(v: Seq<Option<UserReview>>) -> Seq<Option<ReviewView>> {
    v.map_values(|o: Option<UserReview>| slot_view(o))
}

/// Drives the scrape of one listing, from its first page to its last.
pub struct Scraper {
    user_page_url: String,
    page_index: u64,
    reviews: Vec<UserReview>,
    slots: Vec<Option<UserReview>>,
    phase: Phase,
    pages: Ghost<Seq<Seq<ReviewView>>>,
}

impl View for Scraper {
    type V = ScraperView;

    closed spec fn view(&self) -> ScraperView {
        ScraperView {
            url: self.user_page_url@,
            page: self.page_index as int,
            reviews: reviews_view(self.reviews@),
            slots: slots_view(self.slots@),
            phase: self.phase,
            pages: self.pages@,
        }
    }
}

/// Moves the reviews out of filled slots, keeping their order.
fn take_batch(slots: Vec<Option<UserReview>>) -> (batch: Vec<UserReview>)
    requires
        all_filled(slots_view(slots@)),
    ensures
        reviews_view(batch@) == batch_of(slots_view(slots@)),
{
    let ghost orig = slots_view(slots@);
    let mut slots = slots;
    let n = slots.len();
    let mut batch: Vec<UserReview> = Vec::new();
    for i in 0..n
        invariant
            n == slots@.len(),
            n == orig.len(),
            all_filled(orig),
            forall|k: int| i <= k < n ==> slot_view(#[trigger] slots@[k]) == orig[k],
            reviews_view(batch@) == batch_of(orig).take(i as int),
    {
        let mut cell: Option<UserReview> = None;
        let ghost prev = slots@[i as int];
        assert(slot_view(prev) == orig[i as int]);
        slots.set_and_swap(i, &mut cell);
        assert(orig[i as int] is Some);
        match cell {
            Some(r) => {
                let ghost before = batch@;
                batch.push(r);
                assert(r@ == batch_of(orig)[i as int]);
                assert(reviews_view(batch@) == reviews_view(before).push(r@));
                assert(batch_of(orig).take(i + 1) == batch_of(orig).take(i as int).push(
                    batch_of(orig)[i as int],
                ));
            },
            None => {
                assert(false);
            },
        }
    }
    assert(batch_of(orig).take(n as int) == batch_of(orig));
    batch
}

proof fn lemma_first_bad_card_stays(ms: Seq<CardMarkupView>, m: int, n: int)
    requires
        0 <= m <= n,
        first_bad_card(ms, m) >= 0,
    ensures
        first_bad_card(ms, n) == first_bad_card(ms, m),
    decreases n - m,
{
    if m < n {
        lemma_first_bad_card_stays(ms, m, n - 1);
    }
}

/// Whether every slot holds a review.
fn slots_filled(slots: &Vec<Option<UserReview>>) -> (r: bool)
    ensures
        r == all_filled(slots_view(slots@)),
{
    let n = slots.len();
    for i in 0..n
        invariant
            n == slots@.len(),
            forall|k: int| 0 <= k < i ==> (#[trigger] slots_view(slots@)[k]) is Some,
    {
        match &slots[i] {
            Some(_) => {},
            None => {
                assert(slots_view(slots@)[i as int] is None);
                return false;
            },
        }
    }
    true
}

impl Scraper {
    /// A driver for the listing whose first page is at `user_page_url`,
    /// about to fetch that page.
    pub fn new(user_page_url: &str) -> (s: Scraper)
        ensures
            s@ == initial_state(user_page_url@),
            s@.wf(),
    {
        let mut url = String::new();
        push_str(&mut url, user_page_url);
        let ghost no_pages: Seq<Seq<ReviewView>> = seq![];
        let s = Scraper {
            user_page_url: url,
            page_index: 1,
            reviews: Vec::new(),
            slots: Vec::new(),
            phase: Phase::FetchingPage,
            pages: Ghost(no_pages),
        };
        assert(reviews_view(s.reviews@) == Seq::<ReviewView>::empty());
        assert(slots_view(s.slots@) == Seq::<Option<ReviewView>>::empty());
        s
    }

    /// Where the driver stands.
    pub fn phase(&self) -> (p: Phase)
        ensures
            p == self@.phase,
    {
        self.phase
    }

    /// The listing page being worked on, counted from 1.
    pub fn page_index(&self) -> (n: u64)
        ensures
            n == self@.page,
    {
        self.page_index
    }

    /// The address of the listing page being worked on.
    pub fn page_url(&self) -> (u: String)
        ensures
            u@ == listing_url(self@.url, self@.page),
    {
        let mut u = self.user_page_url.clone();
        if self.page_index > 1 {
            push_str(&mut u, "?page=");
            push_decimal(&mut u, self.page_index);
        }
        u
    }

    /// Whether the detail page of the card at `card` is still awaited.
    pub fn is_awaiting(&self, card: usize) -> (r: bool)
        ensures
            r == (self@.phase == Phase::ResolvingLinked && card < self@.slots.len()
                && self@.slots[card as int] is None),
    {
        if self.phase != Phase::ResolvingLinked || card >= self.slots.len() {
            return false;
        }
        match &self.slots[card] {
            Some(_) => false,
            None => true,
        }
    }

    /// The reviews of the pages done so far, in order.
    pub fn reviews(&self) -> (r: &Vec<UserReview>)
        ensures
            reviews_view(r@) == self@.reviews,
    {
        &self.reviews
    }

    /// Ends the driver and hands over its reviews.
    pub fn into_reviews(self) -> (r: UserReviews)
        ensures
            reviews_view(r.reviews@) == self@.reviews,
    {
        UserReviews { reviews: self.reviews }
    }

    /// Takes the outcome of fetching the current listing page and says what to do next.
    pub fn on_listing(&mut self, outcome: PageResult<Vec<CardMarkup>>) -> (step: Step)
        requires
            old(self)@.wf(),
            old(self)@.phase == Phase::FetchingPage,
            old(self)@.page < u64::MAX,
        ensures
            final(self)@.wf(),
            (final(self)@, step@) == after_listing(old(self)@, listing_view(outcome)),
    {
        match outcome {
            PageResult::NotFound => {
                if self.page_index == 1 {
                    self.phase = Phase::Failed;
                    Step::Failed(Error::UserNotFound)
                } else {
                    self.phase = Phase::Done;
                    Step::Finished
                }
            },
            PageResult::TransportError(e) => {
                self.phase = Phase::Failed;
                Step::Failed(Error::Transport(e))
            },
            PageResult::Found(ms) => self.on_cards(ms),
        }
    }

    /// Classifies the cards of a served listing page.
    fn on_cards(&mut self, ms: Vec<CardMarkup>) -> (step: Step)
        requires
            old(self)@.wf(),
            old(self)@.phase == Phase::FetchingPage,
            old(self)@.page < u64::MAX,
        ensures
            final(self)@.wf(),
            (final(self)@, step@) == after_listing(
                old(self)@,
                PageResultView::Found(ms@.map_values(|m: CardMarkup| m@)),
            ),
    {
        let ghost mv = ms@.map_values(|m: CardMarkup| m@);
        let ghost cards = cards_of(mv);
        let n = ms.len();
        let mut slots: Vec<Option<UserReview>> = Vec::new();
        let mut requests: Vec<DetailRequest> = Vec::new();
        for i in 0..n
            invariant
                n == ms@.len(),
                mv == ms@.map_values(|m: CardMarkup| m@),
                cards == cards_of(mv),
                self@ == old(self)@,
                old(self)@.wf(),
                old(self)@.phase == Phase::FetchingPage,
                first_bad_card(mv, i as int) == -1,
                slots_view(slots@) == slots_of(cards).take(i as int),
                requests@.map_values(|r: DetailRequest| (r.card as int, r.url@)) == linked_requests(
                    cards,
                    i as int,
                ),
                requests@.len() == 0 <==> all_filled(slots_view(slots@)),
        {
            let ghost slots_before = slots@;
            let ghost requests_before = requests@;
            let c = classify_card(&ms[i]);
            assert(mv[i as int] == ms@[i as int]@);
            match c {
                Ok(Card::Inline(r)) => {
                    slots.push(Some(r));
                    assert(slots_view(slots@) == slots_view(slots_before).push(Some(r@)));
                },
                Ok(Card::Linked(u)) => {
                    slots.push(None);
                    requests.push(DetailRequest { card: i, url: u });
                    assert(slots_view(slots@) == slots_view(slots_before).push(None));
                    assert(slots_view(slots@)[i as int] is None);
                    assert(requests@.map_values(|r: DetailRequest| (r.card as int, r.url@))
                        == requests_before.map_values(|r: DetailRequest| (r.card as int, r.url@)).push(
                        (i as int, u@),
                    ));
                },
                Err(kind) => {
                    proof {
                        lemma_first_bad_card_stays(mv, i + 1, n as int);
                    }
                    self.phase = Phase::Failed;
                    return Step::Failed(
                        Error::Parse(ParseError { page: self.page_index, card: i, kind }),
                    );
                },
            }
            assert(slots_of(cards).take(i + 1) == slots_of(cards).take(i as int).push(
                slot_of(cards[i as int]),
            ));
            proof {
                let sv = slots_view(slots@);
                let sb = slots_view(slots_before);
                if all_filled(sb) && sv[i as int] is Some {
                    assert forall|k: int| 0 <= k < sv.len() implies (#[trigger] sv[k]) is Some by {
                        if k < i {
                            assert(sv[k] == sb[k]);
                        }
                    }
                }
                if all_filled(sv) {
                    assert forall|k: int| 0 <= k < sb.len() implies (#[trigger] sb[k]) is Some by {
                        assert(sv[k] == sb[k]);
                    }
                }
            }
        }
        assert(slots_of(cards).take(n as int) == slots_of(cards));
        if requests.len() == 0 {
            self.merge(slots)
        } else {
            self.slots = slots;
            self.phase = Phase::ResolvingLinked;
            Step::FetchDetails(requests)
        }
    }

    /// Takes the outcome of fetching the detail page of the card at `card`
    /// and says what to do next.
    pub fn on_detail(&mut self, card: usize, outcome: PageResult<ReviewFields>) -> (step: Step)
        requires
            old(self)@.wf(),
            old(self)@.phase == Phase::ResolvingLinked,
            card < old(self)@.slots.len(),
            old(self)@.slots[card as int] is None,
            old(self)@.page < u64::MAX,
        ensures
            final(self)@.wf(),
            (final(self)@, step@) == after_detail(old(self)@, card as int, detail_view(outcome)),
    {
        match outcome {
            PageResult::TransportError(e) => {
                self.phase = Phase::Failed;
                Step::Failed(Error::Transport(e))
            },
            PageResult::NotFound => {
                self.phase = Phase::Failed;
                Step::Failed(
                    Error::Parse(
                        ParseError {
                            page: self.page_index,
                            card,
                            kind: ParseErrorKind::DetailNotFound,
                        },
                    ),
                )
            },
            PageResult::Found(f) => match parse_long_review(&f) {
                Err(kind) => {
                    self.phase = Phase::Failed;
                    Step::Failed(Error::Parse(ParseError { page: self.page_index, card, kind }))
                },
                Ok(r) => {
                    let ghost before = self.slots@;
                    self.slots.set(card, Some(r));
                    assert(slots_view(self.slots@) == slots_view(before).update(
                        card as int,
                        Some(r@),
                    ));
                    if slots_filled(&self.slots) {
                        let mut slots: Vec<Option<UserReview>> = Vec::new();
                        std::mem::swap(&mut slots, &mut self.slots);
                        self.merge(slots)
                    } else {
                        Step::Awaiting
                    }
                },
            },
        }
    }

    /// Merges the current page, whose slots are all filled, and moves to the next page.
    fn merge(&mut self, slots: Vec<Option<UserReview>>) -> (step: Step)
        requires
            old(self)@.wf(),
            old(self)@.page < u64::MAX,
            all_filled(slots_view(slots@)),
        ensures
            final(self)@ == old(self)@.merged(batch_of(slots_view(slots@))),
            step@ == StepView::FetchPage(listing_url(final(self)@.url, final(self)@.page)),
            final(self)@.wf(),
    {
        let ghost old_self = self@;
        let ghost batch_view = batch_of(slots_view(slots@));
        let mut batch = take_batch(slots);
        let ghost before = self.reviews@;
        let ghost added = batch@;
        self.reviews.append(&mut batch);
        assert(reviews_view(self.reviews@) == reviews_view(before) + reviews_view(added));
        self.slots = Vec::new();
        assert(slots_view(self.slots@) == Seq::<Option<ReviewView>>::empty());
        self.phase = Phase::FetchingPage;
        self.page_index = self.page_index + 1;
        self.pages = Ghost(old_self.pages.push(batch_view));
        proof {
            old_self.pages.lemma_flatten_push(batch_view);
        }
        Step::FetchPage(self.page_url())
    }
}

} // verus!
