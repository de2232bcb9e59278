//! Laws of the scraping pipeline, stated over the transitions of the driver
//! and proved from their definitions.

use vstd::prelude::*;

use crate::card::{card_of, long_review_of, short_review_of, CardMarkupView, CardView, FieldsView};
use crate::review::ReviewView;
use crate::session::{
    after_detail, after_listing, all_filled, batch_of, cards_of, first_bad_card, listing_url, slots_of,
    ErrorView, PageResultView, Phase, ScraperView, StepView,
};

verus! {

/// The number of reviews on the first `n` pages.
pub open spec fn reviews_before(pages: Seq<Seq<ReviewView>>, n: int) -> int
    decreases n,
{
    if n <= 0 {
        0
    } else {
        reviews_before(pages, n - 1) + pages[n - 1].len()
    }
}

/// The reviews of all pages, laid end to end, hold as many reviews as the
/// pages together, page after page and, within a page, card after card:
/// review `c` of page `p` stands at the number of reviews before page `p`, plus `c`.
pub proof fn lemma_output_follows_pages(pages: Seq<Seq<ReviewView>>)
    ensures
        pages.flatten().len() == reviews_before(pages, pages.len() as int),
        forall|p: int, c: int|
            0 <= p < pages.len() && 0 <= c < pages[p].len() ==> pages.flatten()[reviews_before(
                pages,
                p,
            ) + c] == #[trigger] pages[p][c],
    decreases pages.len(),
{
    if pages.len() > 0 {
        let n = pages.len() as int;
        let front = pages.drop_last();
        let last = pages.last();
        lemma_output_follows_pages(front);
        assert(front.push(last) == pages);
        front.lemma_flatten_push(last);
        assert(pages.flatten() == front.flatten() + last);
        lemma_reviews_before_prefix(pages, front, n - 1);
        assert(reviews_before(pages, n) == reviews_before(front, n - 1) + last.len());
        assert forall|p: int, c: int|
            0 <= p < pages.len() && 0 <= c < pages[p].len() implies pages.flatten()[reviews_before(
                pages,
                p,
            ) + c] == #[trigger] pages[p][c] by {
            lemma_reviews_before_prefix(pages, front, p);
            lemma_reviews_before_grows(front, 0, p);
            if p < front.len() {
                assert(pages[p] == front[p]);
                lemma_reviews_before_grows(front, p + 1, front.len() as int);
                assert(reviews_before(front, p + 1) == reviews_before(front, p) + front[p].len());
                assert(front.flatten().len() == reviews_before(front, front.len() as int));
                assert(reviews_before(front, p) + c < front.flatten().len());
                assert(front.flatten()[reviews_before(front, p) + c] == front[p][c]);
                let idx = reviews_before(front, p) + c;
                assert((front.flatten() + last)[idx] == front.flatten()[idx]);
            } else {
                let idx = reviews_before(front, p) + c;
                assert((front.flatten() + last)[idx] == last[c]);
            }
        }
    }
}

proof fn lemma_reviews_before_prefix(
    pages: Seq<Seq<ReviewView>>,
    front: Seq<Seq<ReviewView>>,
    p: int,
)
    requires
        front.len() <= pages.len(),
        forall|i: int| 0 <= i < front.len() ==> front[i] == pages[i],
        0 <= p <= front.len(),
    ensures
        reviews_before(pages, p) == reviews_before(front, p),
    decreases p,
{
    if p > 0 {
        lemma_reviews_before_prefix(pages, front, p - 1);
    }
}

proof fn lemma_reviews_before_grows(pages: Seq<Seq<ReviewView>>, p: int, q: int)
    requires
        0 <= p <= q <= pages.len(),
    ensures
        reviews_before(pages, p) <= reviews_before(pages, q),
    decreases q - p,
{
    if p < q {
        lemma_reviews_before_grows(pages, p, q - 1);
    }
}

/// A driver's reviews are its finished pages' reviews, page after page and,
/// within a page, card after card; there are as many as the pages hold together.
pub proof fn lemma_session_output(s: ScraperView)
    requires
        s.wf(),
    ensures
        s.reviews.len() == reviews_before(s.pages, s.pages.len() as int),
        forall|p: int, c: int|
            0 <= p < s.pages.len() && 0 <= c < s.pages[p].len() ==> s.reviews[reviews_before(
                s.pages,
                p,
            ) + c] == #[trigger] s.pages[p][c],
{
    lemma_output_follows_pages(s.pages);
}

/// A listing page whose cards can all be read gives one slot per card, in
/// card order: an inline card's slot holds its review, a linked card's slot
/// waits for its detail page. When no card is linked the page is merged at
/// once, as a batch of one review per card.
pub proof fn lemma_page_slots_follow_cards(s: ScraperView, ms: Seq<CardMarkupView>)
    requires
        s.wf(),
        s.phase == Phase::FetchingPage,
        first_bad_card(ms, ms.len() as int) < 0,
    ensures
        slots_of(cards_of(ms)).len() == ms.len(),
        forall|i: int|
            0 <= i < ms.len() ==> match #[trigger] card_of(ms[i]) {
                Ok(CardView::Inline(r)) => slots_of(cards_of(ms))[i] == Some(r),
                Ok(CardView::Linked(_)) => slots_of(cards_of(ms))[i] is None,
                Err(_) => false,
            },
        all_filled(slots_of(cards_of(ms))) ==> {
            let next = after_listing(s, PageResultView::Found(ms)).0;
            &&& next.pages == s.pages.push(batch_of(slots_of(cards_of(ms))))
            &&& batch_of(slots_of(cards_of(ms))).len() == ms.len()
        },
{
    assert forall|i: int| 0 <= i < ms.len() implies #[trigger] card_of(ms[i]) is Ok by {
        lemma_no_bad_card_below(ms, ms.len() as int, i);
    }
}

proof fn lemma_no_bad_card_below(ms: Seq<CardMarkupView>, n: int, i: int)
    requires
        0 <= i < n,
        first_bad_card(ms, n) < 0,
    ensures
        card_of(ms[i]) is Ok,
    decreases n,
{
    if i < n - 1 {
        lemma_no_bad_card_below(ms, n - 1, i);
    }
}

/// Extracting a card twice gives the same result: a card's class, and an
/// inline card's review, depend on what the card shows and nothing else.
pub proof fn lemma_extraction_repeatable(a: CardMarkupView, b: CardMarkupView)
    requires
        a == b,
    ensures
        card_of(a) == card_of(b),
        short_review_of(a.fields) == short_review_of(b.fields),
{
}

/// A listing page without cards is not the end of the listing: it adds no
/// review, is merged at once, and the next page is requested.
pub proof fn lemma_empty_page_advances(s: ScraperView)
    requires
        s.wf(),
        s.phase == Phase::FetchingPage,
    ensures
        after_listing(s, PageResultView::Found(seq![])) == (
            s.merged(seq![]),
            StepView::FetchPage(listing_url(s.url, s.page + 1)),
        ),
        s.merged(seq![]).reviews == s.reviews,
        s.merged(seq![]).page == s.page + 1,
{
    let ms: Seq<CardMarkupView> = seq![];
    assert(slots_of(cards_of(ms)) == Seq::<Option<ReviewView>>::empty());
    assert(batch_of(Seq::<Option<ReviewView>>::empty()) == Seq::<ReviewView>::empty());
    assert(s.reviews + Seq::<ReviewView>::empty() == s.reviews);
}

/// When the first listing page is not found the user does not exist: the
/// scrape fails with that error and the driver, in its failed phase,
/// requests nothing more.
pub proof fn lemma_missing_user_ends_scrape(s: ScraperView)
    requires
        s.page == 1,
        s.phase == Phase::FetchingPage,
    ensures
        after_listing(s, PageResultView::NotFound) == (
            s.in_phase(Phase::Failed),
            StepView::Failed(ErrorView::UserNotFound),
        ),
{
}

/// A detail page that can be read fills exactly the slot of its card: the
/// other slots, and their number, stay as they were. Once no slot is empty
/// the page is merged as one review per slot, in slot order.
pub proof fn lemma_detail_fills_its_slot(s: ScraperView, card: int, f: FieldsView)
    requires
        s.wf(),
        s.phase == Phase::ResolvingLinked,
        0 <= card < s.slots.len(),
        long_review_of(f) is Ok,
    ensures
        ({
            let r = long_review_of(f)->Ok_0;
            let filled = s.slots.update(card, Some(r));
            let (next, step) = after_detail(s, card, PageResultView::Found(f));
            &&& filled.len() == s.slots.len()
            &&& filled[card] == Some(r)
            &&& forall|k: int| 0 <= k < s.slots.len() && k != card ==> #[trigger] filled[k] == s.slots[k]
            &&& all_filled(filled) ==> next.pages == s.pages.push(batch_of(filled)) && batch_of(
                filled,
            ).len() == s.slots.len() && step is FetchPage
            &&& !all_filled(filled) ==> next.slots == filled && step is Awaiting
        }),
{
}

/// The slots after each arrival `(position, review)` is written into the slot at its position.
pub open spec fn fill_slots(slots: Seq<Option<ReviewView>>, arrivals: Seq<(int, ReviewView)>) -> Seq<
    Option<ReviewView>,
>
    decreases arrivals.len(),
{
    if arrivals.len() == 0 {
        slots
    } else {
        fill_slots(slots.update(arrivals[0].0, Some(arrivals[0].1)), arrivals.drop_first())
    }
}

/// Whether no two arrivals are for the same slot, and each is for a slot of `slots`.
pub open spec fn arrivals_fit(slots: Seq<Option<ReviewView>>, arrivals: Seq<(int, ReviewView)>) -> bool {
    &&& forall|i: int, j: int|
        0 <= i < j < arrivals.len() ==> (#[trigger] arrivals[i]).0 != (#[trigger] arrivals[j]).0
    &&& forall|i: int| 0 <= i < arrivals.len() ==> 0 <= (#[trigger] arrivals[i]).0 < slots.len()
}

proof fn lemma_fill_slots_by_position(
    slots: Seq<Option<ReviewView>>,
    arrivals: Seq<(int, ReviewView)>,
)
    requires
        arrivals_fit(slots, arrivals),
    ensures
        fill_slots(slots, arrivals).len() == slots.len(),
        forall|j: int|
            0 <= j < arrivals.len() ==> fill_slots(slots, arrivals)[(#[trigger] arrivals[j]).0]
                == Some(arrivals[j].1),
        forall|k: int|
            0 <= k < slots.len() && (forall|j: int|
                0 <= j < arrivals.len() ==> (#[trigger] arrivals[j]).0 != k) ==> fill_slots(
                slots,
                arrivals,
            )[k] == slots[k],
    decreases arrivals.len(),
{
    if arrivals.len() > 0 {
        let first = arrivals[0];
        let rest = arrivals.drop_first();
        let next = slots.update(first.0, Some(first.1));
        assert forall|i: int, j: int| 0 <= i < j < rest.len() implies (#[trigger] rest[i]).0 != (
        #[trigger] rest[j]).0 by {
            assert(rest[i] == arrivals[i + 1] && rest[j] == arrivals[j + 1]);
        }
        assert forall|i: int| 0 <= i < rest.len() implies 0 <= (#[trigger] rest[i]).0 < next.len() by {
            assert(rest[i] == arrivals[i + 1]);
        }
        lemma_fill_slots_by_position(next, rest);
        assert(fill_slots(slots, arrivals) == fill_slots(next, rest));
        assert forall|j: int| 0 <= j < arrivals.len() implies fill_slots(slots, arrivals)[(
        #[trigger] arrivals[j]).0] == Some(arrivals[j].1) by {
            if j > 0 {
                assert(rest[j - 1] == arrivals[j]);
            } else {
                assert forall|m: int| 0 <= m < rest.len() implies (#[trigger] rest[m]).0 != first.0 by {
                    assert(rest[m] == arrivals[m + 1]);
                }
                assert(fill_slots(next, rest)[first.0] == next[first.0]);
            }
        }
        assert forall|k: int|
            0 <= k < slots.len() && (forall|j: int|
                0 <= j < arrivals.len() ==> (#[trigger] arrivals[j]).0 != k) implies fill_slots(
            slots,
            arrivals,
        )[k] == slots[k] by {
            assert(arrivals[0].0 != k);
            assert forall|m: int| 0 <= m < rest.len() implies (#[trigger] rest[m]).0 != k by {
                assert(rest[m] == arrivals[m + 1]);
            }
            assert(fill_slots(next, rest)[k] == next[k]);
            assert(next[k] == slots[k]);
        }
    }
}

/// The order in which the detail pages of a listing page arrive does not
/// matter: writing the same arrivals into their slots in any two orders
/// gives the same slots, hence the same batch of reviews, in card order.
pub proof fn lemma_arrival_order_irrelevant(
    slots: Seq<Option<ReviewView>>,
    first_order: Seq<(int, ReviewView)>,
    second_order: Seq<(int, ReviewView)>,
)
    requires
        arrivals_fit(slots, first_order),
        arrivals_fit(slots, second_order),
        forall|j: int| 0 <= j < first_order.len() ==> second_order.contains(#[trigger] first_order[j]),
        forall|j: int| 0 <= j < second_order.len() ==> first_order.contains(#[trigger] second_order[j]),
    ensures
        fill_slots(slots, first_order) == fill_slots(slots, second_order),
{
    lemma_fill_slots_by_position(slots, first_order);
    lemma_fill_slots_by_position(slots, second_order);
    let a = fill_slots(slots, first_order);
    let b = fill_slots(slots, second_order);
    assert forall|k: int| 0 <= k < slots.len() implies a[k] == b[k] by {
        if exists|j: int| 0 <= j < first_order.len() && (#[trigger] first_order[j]).0 == k {
            let j = choose|j: int| 0 <= j < first_order.len() && (#[trigger] first_order[j]).0 == k;
            let m = choose|m: int| 0 <= m < second_order.len() && second_order[m] == first_order[j];
            assert(second_order[m] == first_order[j]);
            assert(a[k] == Some(first_order[j].1));
            assert(b[k] == Some(second_order[m].1));
        } else if exists|m: int| 0 <= m < second_order.len() && (#[trigger] second_order[m]).0 == k {
            let m = choose|m: int| 0 <= m < second_order.len() && (#[trigger] second_order[m]).0 == k;
            let j = choose|j: int| 0 <= j < first_order.len() && first_order[j] == second_order[m];
            assert(first_order[j].0 == k);
        } else {
            assert forall|j: int| 0 <= j < first_order.len() implies (#[trigger] first_order[j]).0
                != k by {}
            assert forall|m: int| 0 <= m < second_order.len() implies (#[trigger] second_order[m]).0
                != k by {}
            assert(a[k] == slots[k]);
            assert(b[k] == slots[k]);
        }
    }
    assert(a == b);
}

} // verus!
