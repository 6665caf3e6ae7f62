use vstd::prelude::*;

use crate::types::Coin;

verus! {

/// Number of coins asked for in each page of a coin listing.
pub const COIN_PAGE_SIZE: usize = 100;

/// Number of entries asked for in the single page of a balance listing.
pub const BALANCE_PAGE_SIZE: usize = 9999;

#[derive(Clone, Copy, Debug, PartialEq, Eq, Structural)]
pub enum PageDirection {
    Forward,
    Backward,
}

/// One paginated query: where to resume, how many results, which way.
#[derive(Debug)]
pub struct PageRequest {
    pub cursor: Option<String>,
    pub results: usize,
    pub direction: PageDirection,
}

/// The request for the one page of balances of an address.
pub fn balances_request() -> (r: PageRequest)
    ensures
        r.cursor is None,
        r.results == BALANCE_PAGE_SIZE,
        r.direction == PageDirection::Forward,
{
    PageRequest { cursor: None, results: BALANCE_PAGE_SIZE, direction: PageDirection::Forward }
}

fn clone_cursor(c: &Option<String>) -> (r: Option<String>)
    ensures
        match (c, r) {
            (Some(a), Some(b)) => a@ == b@,
            (None, None) => true,
            _ => false,
        },
{
    match c {
        Some(s) => Some(s.clone()),
        None => None,
    }
}

/// The coins of a finished listing: the pages received, in order, up to the
/// first empty one.
pub open spec fn concat_pages(pages: Seq<Seq<Coin>>) -> Seq<Coin>
    decreases pages.len(),
{
    if pages.len() == 0 {
        Seq::empty()
    } else {
        concat_pages(pages.drop_last()) + pages.last()
    }
}

/// What a listing has gathered, whether it has ended, and how many pages it
/// has received.
pub open spec fn listing_step(
    state: (Seq<Coin>, bool, nat),
    page: Seq<Coin>,
) -> (Seq<Coin>, bool, nat) {
    if page.len() == 0 {
        (state.0, true, state.2 + 1)
    } else {
        (state.0 + page, false, state.2 + 1)
    }
}

/// The state of a listing that started empty and received `pages` in order.
pub open spec fn listing_after(pages: Seq<Seq<Coin>>) -> (Seq<Coin>, bool, nat)
    decreases pages.len(),
{
    if pages.len() == 0 {
        (Seq::empty(), false, 0)
    } else {
        listing_step(listing_after(pages.drop_last()), pages.last())
    }
}

/// The walk over all coins of an address, one page at a time. The caller
/// sends `next_request`, hands each page back to `receive_page`, and stops
/// when the listing is done. A page with no coins ends it; the cursor
/// returned with a page is sent, as it came, with the next request.
pub struct CoinListing {
    coins: Vec<Coin>,
    cursor: Option<String>,
    done: bool,
    pages: usize,
}

impl CoinListing {
    pub closed spec fn state(&self) -> (Seq<Coin>, bool, nat) {
        (self.coins@, self.done, self.pages as nat)
    }

    pub closed spec fn cursor_view(&self) -> Option<Seq<char>> {
        match self.cursor {
            Some(s) => Some(s@),
            None => None,
        }
    }

    pub fn new() -> (r: CoinListing)
        ensures
            r.state() == listing_after(Seq::empty()),
            r.cursor_view() is None,
    {
        CoinListing { coins: Vec::new(), cursor: None, done: false, pages: 0 }
    }

    pub fn is_done(&self) -> (r: bool)
        ensures
            r == self.state().1,
    {
        self.done
    }

    /// How many pages were received so far.
    pub fn pages_received(&self) -> (r: usize)
        ensures
            r == self.state().2,
    {
        self.pages
    }

    /// The request for the next page: from the last cursor received, forward,
    /// `COIN_PAGE_SIZE` coins.
    pub fn next_request(&self) -> (r: PageRequest)
        ensures
            r.results == COIN_PAGE_SIZE,
            r.direction == PageDirection::Forward,
            match (r.cursor, self.cursor_view()) {
                (Some(a), Some(b)) => a@ == b,
                (None, None) => true,
                _ => false,
            },
    {
        PageRequest {
            cursor: clone_cursor(&self.cursor),
            results: COIN_PAGE_SIZE,
            direction: PageDirection::Forward,
        }
    }

    /// Takes one page and the cursor that came with it.
    pub fn receive_page(&mut self, results: Vec<Coin>, cursor: Option<String>)
        requires
            !old(self).state().1,
            old(self).state().0.len() + results@.len() <= usize::MAX,
            old(self).state().2 < usize::MAX,
        ensures
            final(self).state() == listing_step(old(self).state(), results@),
            results@.len() == 0 ==> final(self).cursor_view() == old(self).cursor_view(),
            results@.len() > 0 ==> final(self).cursor_view() == match cursor {
                Some(s) => Some(s@),
                None => None::<Seq<char>>,
            },
    {
        self.pages = self.pages + 1;
        if results.len() == 0 {
            self.done = true;
            return;
        }
        let mut i: usize = 0;
        while i < results.len()
            invariant
                0 <= i <= results@.len(),
                self.coins@ == old(self).coins@ + results@.subrange(0, i as int),
                old(self).coins@.len() + results@.len() <= usize::MAX,
                self.pages == old(self).pages + 1,
                self.done == old(self).done,
                self.cursor == old(self).cursor,
            decreases results@.len() - i,
        {
            self.coins.push(results[i]);
            i = i + 1;
            assert(results@.subrange(0, i as int) == results@.subrange(0, i - 1 as int).push(
                results@[i - 1],
            ));
        }
        assert(results@.subrange(0, results@.len() as int) == results@);
        self.cursor = cursor;
    }

    /// The coins gathered, in the order the pages gave them.
    pub fn into_coins(self) -> (r: Vec<Coin>)
        ensures
            r@ == self.state().0,
    {
        self.coins
    }
}

/// A listing whose pages are all non-empty but the last, which is empty,
/// ends after exactly those pages and yields every coin of every page, in
/// order, each once: however the coins are split into pages.
pub proof fn lemma_listing_yields_all_pages(pages: Seq<Seq<Coin>>)
    requires
        pages.len() >= 1,
        pages.last().len() == 0,
        forall|i: int| 0 <= i < pages.len() - 1 ==> pages[i].len() > 0,
    ensures
        listing_after(pages) == (concat_pages(pages.drop_last()), true, pages.len()),
{
    lemma_listing_before_end(pages.drop_last());
}

/// Before the ending page, a listing of non-empty pages holds their
/// concatenation and goes on.
pub proof fn lemma_listing_before_end(pages: Seq<Seq<Coin>>)
    requires
        forall|i: int| 0 <= i < pages.len() ==> pages[i].len() > 0,
    ensures
        listing_after(pages) == (concat_pages(pages), false, pages.len()),
    decreases pages.len(),
{
    if pages.len() > 0 {
        lemma_listing_before_end(pages.drop_last());
    }
}

/// An address with no coins: the listing ends after one round trip, with
/// no coins.
pub proof fn lemma_empty_listing_one_round_trip()
    ensures
        listing_after(seq![Seq::<Coin>::empty()]) == (Seq::<Coin>::empty(), true, 1nat),
{
    let pages = seq![Seq::<Coin>::empty()];
    assert(pages.drop_last() =~= Seq::<Seq<Coin>>::empty());
    assert(listing_after(pages.drop_last()) == (Seq::<Coin>::empty(), false, 0nat));
    assert(pages.last() == Seq::<Coin>::empty());
}

} // verus!
