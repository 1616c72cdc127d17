//! The normalised store and its idempotent writers.

use crate::model::{
    id_view, AuctionHouse, FeedEvent, FeedEventWallet, Listing, ListingView, Metadata, Offer,
    OfferView, Purchase, PurchaseEvent, PurchaseView, RewardCenter, RewardPayout,
    RewardsPurchaseTicket,
};
use crate::rows::{first_index, lemma_first_index, lemma_no_match, update_where, views};
use crate::state::{
    auction_house_at, lemma_cancel_wf, lemma_empty_wf, lemma_reward_tables_wf,
    lemma_upsert_listing_wf, lemma_upsert_offer_wf, lemma_upsert_purchase_wf, listing_at,
    listing_awaiting, listing_canceled, listing_sold, merge_listing, merge_offer, merge_purchase,
    metadata_at, metadata_burned, metadata_of_mint, offer_at, offer_awaiting, offer_canceled,
    offer_taken, open_listing_at, open_offer_at, payout_for, purchase_of, reward_center_at, sale_of,
    ticket_at, trade_of, StoreView,
};
use vstd::prelude::*;

verus! {

/// The normalised store: one table per kind of row.
///
/// Every store that this module hands out is well formed, and every
/// writer keeps it so.
pub struct Store {
    listings: Vec<Listing>,
    offers: Vec<Offer>,
    purchases: Vec<Purchase>,
    feed_events: Vec<FeedEvent>,
    purchase_events: Vec<PurchaseEvent>,
    feed_event_wallets: Vec<FeedEventWallet>,
    purchase_tickets: Vec<RewardsPurchaseTicket>,
    reward_centers: Vec<RewardCenter>,
    reward_payouts: Vec<RewardPayout>,
    auction_houses: Vec<AuctionHouse>,
    metadatas: Vec<Metadata>,
}

impl View for Store {
    type V = StoreView;

    closed spec fn view(&self) -> StoreView {
        StoreView {
            listings: views(self.listings@),
            offers: views(self.offers@),
            purchases: views(self.purchases@),
            feed_events: views(self.feed_events@),
            purchase_events: views(self.purchase_events@),
            feed_event_wallets: views(self.feed_event_wallets@),
            purchase_tickets: views(self.purchase_tickets@),
            reward_centers: views(self.reward_centers@),
            reward_payouts: views(self.reward_payouts@),
            auction_houses: views(self.auction_houses@),
            metadatas: views(self.metadatas@),
        }
    }
}

// ----- searching a table ----------------------------------------------

fn find_listing(rows: &Vec<Listing>, trade_state: &String) -> (r: Option<usize>)
    ensures
        first_index(views(rows@), listing_at(trade_state@)) == match r {
            Some(i) => Some(i as int),
            None => None,
        },
        r matches Some(i) ==> i < rows.len(),
{
    let ghost pred = listing_at(trade_state@);
    let mut i: usize = 0;
    while i < rows.len()
        invariant
            i <= rows.len(),
            pred == listing_at(trade_state@),
            forall|j: int| 0 <= j < i ==> !pred(#[trigger] views(rows@)[j]),
        decreases rows.len() - i,
    {
        if rows[i].trade_state == *trade_state {
            proof {
                lemma_first_index(views(rows@), pred, i as int);
            }
            return Some(i);
        }
        i += 1;
    }
    proof {
        lemma_no_match(views(rows@), pred, |l: ListingView| l);
    }
    None
}

fn find_offer(rows: &Vec<Offer>, trade_state: &String) -> (r: Option<usize>)
    ensures
        first_index(views(rows@), offer_at(trade_state@)) == match r {
            Some(i) => Some(i as int),
            None => None,
        },
        r matches Some(i) ==> i < rows.len(),
{
    let ghost pred = offer_at(trade_state@);
    let mut i: usize = 0;
    while i < rows.len()
        invariant
            i <= rows.len(),
            pred == offer_at(trade_state@),
            forall|j: int| 0 <= j < i ==> !pred(#[trigger] views(rows@)[j]),
        decreases rows.len() - i,
    {
        if rows[i].trade_state == *trade_state {
            proof {
                lemma_first_index(views(rows@), pred, i as int);
            }
            return Some(i);
        }
        i += 1;
    }
    proof {
        lemma_no_match(views(rows@), pred, |o: OfferView| o);
    }
    None
}

fn find_trade(rows: &Vec<Purchase>, row: &Purchase) -> (r: Option<usize>)
    ensures
        first_index(views(rows@), trade_of(row@)) == match r {
            Some(i) => Some(i as int),
            None => None,
        },
        r matches Some(i) ==> i < rows.len(),
{
    let ghost pred = trade_of(row@);
    let mut i: usize = 0;
    while i < rows.len()
        invariant
            i <= rows.len(),
            pred == trade_of(row@),
            forall|j: int| 0 <= j < i ==> !pred(#[trigger] views(rows@)[j]),
        decreases rows.len() - i,
    {
        let p = &rows[i];
        if p.buyer == row.buyer && p.seller == row.seller && p.auction_house == row.auction_house
            && p.metadata == row.metadata && p.price == row.price && p.token_size
            == row.token_size {
            proof {
                lemma_first_index(views(rows@), pred, i as int);
            }
            return Some(i);
        }
        i += 1;
    }
    proof {
        lemma_no_match(views(rows@), pred, |p: PurchaseView| p);
    }
    None
}

fn find_sale_in(rows: &Vec<Purchase>, l: &Listing) -> (r: Option<usize>)
    ensures
        first_index(views(rows@), sale_of(l@)) == match r {
            Some(i) => Some(i as int),
            None => None,
        },
        r matches Some(i) ==> i < rows.len(),
{
    let ghost pred = sale_of(l@);
    let mut i: usize = 0;
    while i < rows.len()
        invariant
            i <= rows.len(),
            pred == sale_of(l@),
            forall|j: int| 0 <= j < i ==> !pred(#[trigger] views(rows@)[j]),
        decreases rows.len() - i,
    {
        let p = &rows[i];
        if p.seller == l.seller && p.auction_house == l.auction_house && p.metadata == l.metadata
            && p.price == l.price && p.token_size == l.token_size && p.slot == l.slot {
            proof {
                lemma_first_index(views(rows@), pred, i as int);
            }
            return Some(i);
        }
        i += 1;
    }
    proof {
        lemma_no_match(views(rows@), pred, |p: PurchaseView| p);
    }
    None
}

fn find_purchase_in(rows: &Vec<Purchase>, o: &Offer) -> (r: Option<usize>)
    ensures
        first_index(views(rows@), purchase_of(o@)) == match r {
            Some(i) => Some(i as int),
            None => None,
        },
        r matches Some(i) ==> i < rows.len(),
{
    let ghost pred = purchase_of(o@);
    let mut i: usize = 0;
    while i < rows.len()
        invariant
            i <= rows.len(),
            pred == purchase_of(o@),
            forall|j: int| 0 <= j < i ==> !pred(#[trigger] views(rows@)[j]),
        decreases rows.len() - i,
    {
        let p = &rows[i];
        if p.buyer == o.buyer && p.auction_house == o.auction_house && p.metadata == o.metadata
            && p.price == o.price && p.token_size == o.token_size && p.slot == o.slot {
            proof {
                lemma_first_index(views(rows@), pred, i as int);
            }
            return Some(i);
        }
        i += 1;
    }
    proof {
        lemma_no_match(views(rows@), pred, |p: PurchaseView| p);
    }
    None
}

fn find_ticket(rows: &Vec<RewardsPurchaseTicket>, address: &String) -> (r: Option<usize>)
    ensures
        first_index(views(rows@), ticket_at(address@)) == match r {
            Some(i) => Some(i as int),
            None => None,
        },
        r matches Some(i) ==> i < rows.len(),
{
    let ghost pred = ticket_at(address@);
    let mut i: usize = 0;
    while i < rows.len()
        invariant
            i <= rows.len(),
            pred == ticket_at(address@),
            forall|j: int| 0 <= j < i ==> !pred(#[trigger] views(rows@)[j]),
        decreases rows.len() - i,
    {
        if rows[i].address == *address {
            proof {
                lemma_first_index(views(rows@), pred, i as int);
            }
            return Some(i);
        }
        i += 1;
    }
    proof {
        lemma_no_match(views(rows@), pred, |t: crate::model::RewardsPurchaseTicketView| t);
    }
    None
}

fn find_payout(rows: &Vec<RewardPayout>, ticket: &String) -> (r: Option<usize>)
    ensures
        first_index(views(rows@), payout_for(ticket@)) == match r {
            Some(i) => Some(i as int),
            None => None,
        },
        r matches Some(i) ==> i < rows.len(),
{
    let ghost pred = payout_for(ticket@);
    let mut i: usize = 0;
    while i < rows.len()
        invariant
            i <= rows.len(),
            pred == payout_for(ticket@),
            forall|j: int| 0 <= j < i ==> !pred(#[trigger] views(rows@)[j]),
        decreases rows.len() - i,
    {
        if rows[i].purchase_ticket == *ticket {
            proof {
                lemma_first_index(views(rows@), pred, i as int);
            }
            return Some(i);
        }
        i += 1;
    }
    proof {
        lemma_no_match(views(rows@), pred, |p: crate::model::RewardPayoutView| p);
    }
    None
}

fn find_reward_center(rows: &Vec<RewardCenter>, address: &String) -> (r: Option<usize>)
    ensures
        first_index(views(rows@), reward_center_at(address@)) == match r {
            Some(i) => Some(i as int),
            None => None,
        },
        r matches Some(i) ==> i < rows.len(),
{
    let ghost pred = reward_center_at(address@);
    let mut i: usize = 0;
    while i < rows.len()
        invariant
            i <= rows.len(),
            pred == reward_center_at(address@),
            forall|j: int| 0 <= j < i ==> !pred(#[trigger] views(rows@)[j]),
        decreases rows.len() - i,
    {
        if rows[i].address == *address {
            proof {
                lemma_first_index(views(rows@), pred, i as int);
            }
            return Some(i);
        }
        i += 1;
    }
    proof {
        lemma_no_match(views(rows@), pred, |c: crate::model::RewardCenterView| c);
    }
    None
}

fn find_auction_house(rows: &Vec<AuctionHouse>, address: &String) -> (r: Option<usize>)
    ensures
        first_index(views(rows@), auction_house_at(address@)) == match r {
            Some(i) => Some(i as int),
            None => None,
        },
        r matches Some(i) ==> i < rows.len(),
{
    let ghost pred = auction_house_at(address@);
    let mut i: usize = 0;
    while i < rows.len()
        invariant
            i <= rows.len(),
            pred == auction_house_at(address@),
            forall|j: int| 0 <= j < i ==> !pred(#[trigger] views(rows@)[j]),
        decreases rows.len() - i,
    {
        if rows[i].address == *address {
            proof {
                lemma_first_index(views(rows@), pred, i as int);
            }
            return Some(i);
        }
        i += 1;
    }
    proof {
        lemma_no_match(views(rows@), pred, |a: crate::model::AuctionHouseView| a);
    }
    None
}

fn find_metadata(rows: &Vec<Metadata>, address: &String) -> (r: Option<usize>)
    ensures
        first_index(views(rows@), metadata_at(address@)) == match r {
            Some(i) => Some(i as int),
            None => None,
        },
        r matches Some(i) ==> i < rows.len(),
{
    let ghost pred = metadata_at(address@);
    let mut i: usize = 0;
    while i < rows.len()
        invariant
            i <= rows.len(),
            pred == metadata_at(address@),
            forall|j: int| 0 <= j < i ==> !pred(#[trigger] views(rows@)[j]),
        decreases rows.len() - i,
    {
        if rows[i].address == *address {
            proof {
                lemma_first_index(views(rows@), pred, i as int);
            }
            return Some(i);
        }
        i += 1;
    }
    proof {
        lemma_no_match(views(rows@), pred, |m: crate::model::MetadataView| m);
    }
    None
}

// ----- rewriting a table ----------------------------------------------

fn sell_listings(rows: &mut Vec<Listing>, p: &Purchase, id: u64)
    ensures
        views(final(rows)@) == update_where(
            views(old(rows)@),
            listing_awaiting(p@),
            listing_sold(id as nat, p.slot),
        ),
{
    let ghost target = update_where(
        views(old(rows)@),
        listing_awaiting(p@),
        listing_sold(id as nat, p.slot),
    );
    let mut i: usize = 0;
    while i < rows.len()
        invariant
            i <= rows.len(),
            rows.len() == old(rows).len(),
            target == update_where(
                views(old(rows)@),
                listing_awaiting(p@),
                listing_sold(id as nat, p.slot),
            ),
            forall|j: int| 0 <= j < i ==> #[trigger] views(rows@)[j] == target[j],
            forall|j: int| i <= j < rows.len() ==> #[trigger] views(rows@)[j] == views(old(rows)@)[j],
        decreases rows.len() - i,
    {
        let ghost prev = rows@;
        let l = &rows[i];
        if l.auction_house == p.auction_house && l.seller == p.seller && l.metadata == p.metadata
            && l.price == p.price && l.token_size == p.token_size && l.purchase_id.is_none()
            && l.canceled_at.is_none() {
            rows[i].purchase_id = Some(id);
            rows[i].slot = p.slot;
        }
        proof {
            assert forall|j: int| 0 <= j < i + 1 implies #[trigger] views(rows@)[j] == target[j] by {
                assert(views(prev)[j] == prev[j]@);
            }
            assert forall|j: int| i + 1 <= j < rows.len() implies #[trigger] views(rows@)[j] == views(
                old(rows)@,
            )[j] by {
                assert(views(prev)[j] == prev[j]@);
            }
        }
        i += 1;
    }
    assert(views(rows@) =~= target);
}

fn take_offers(rows: &mut Vec<Offer>, p: &Purchase, id: u64)
    ensures
        views(final(rows)@) == update_where(
            views(old(rows)@),
            offer_awaiting(p@),
            offer_taken(id as nat, p.slot),
        ),
{
    let ghost target = update_where(
        views(old(rows)@),
        offer_awaiting(p@),
        offer_taken(id as nat, p.slot),
    );
    let mut i: usize = 0;
    while i < rows.len()
        invariant
            i <= rows.len(),
            rows.len() == old(rows).len(),
            target == update_where(
                views(old(rows)@),
                offer_awaiting(p@),
                offer_taken(id as nat, p.slot),
            ),
            forall|j: int| 0 <= j < i ==> #[trigger] views(rows@)[j] == target[j],
            forall|j: int| i <= j < rows.len() ==> #[trigger] views(rows@)[j] == views(old(rows)@)[j],
        decreases rows.len() - i,
    {
        let ghost prev = rows@;
        let o = &rows[i];
        if o.auction_house == p.auction_house && o.buyer == p.buyer && o.metadata == p.metadata
            && o.purchase_id.is_none() && o.canceled_at.is_none() {
            rows[i].purchase_id = Some(id);
            rows[i].slot = p.slot;
        }
        proof {
            assert forall|j: int| 0 <= j < i + 1 implies #[trigger] views(rows@)[j] == target[j] by {
                assert(views(prev)[j] == prev[j]@);
            }
            assert forall|j: int| i + 1 <= j < rows.len() implies #[trigger] views(rows@)[j] == views(
                old(rows)@,
            )[j] by {
                assert(views(prev)[j] == prev[j]@);
            }
        }
        i += 1;
    }
    assert(views(rows@) =~= target);
}

fn cancel_listings(rows: &mut Vec<Listing>, trade_state: &String, at: i64, slot: i64)
    ensures
        views(final(rows)@) == update_where(
            views(old(rows)@),
            open_listing_at(trade_state@),
            listing_canceled(at, slot),
        ),
{
    let ghost target = update_where(
        views(old(rows)@),
        open_listing_at(trade_state@),
        listing_canceled(at, slot),
    );
    let mut i: usize = 0;
    while i < rows.len()
        invariant
            i <= rows.len(),
            rows.len() == old(rows).len(),
            target == update_where(
                views(old(rows)@),
                open_listing_at(trade_state@),
                listing_canceled(at, slot),
            ),
            forall|j: int| 0 <= j < i ==> #[trigger] views(rows@)[j] == target[j],
            forall|j: int| i <= j < rows.len() ==> #[trigger] views(rows@)[j] == views(old(rows)@)[j],
        decreases rows.len() - i,
    {
        let ghost prev = rows@;
        let l = &rows[i];
        if l.trade_state == *trade_state && l.purchase_id.is_none() && l.canceled_at.is_none() {
            rows[i].canceled_at = Some(at);
            rows[i].slot = slot;
        }
        proof {
            assert forall|j: int| 0 <= j < i + 1 implies #[trigger] views(rows@)[j] == target[j] by {
                assert(views(prev)[j] == prev[j]@);
            }
            assert forall|j: int| i + 1 <= j < rows.len() implies #[trigger] views(rows@)[j] == views(
                old(rows)@,
            )[j] by {
                assert(views(prev)[j] == prev[j]@);
            }
        }
        i += 1;
    }
    assert(views(rows@) =~= target);
}

fn cancel_offers(rows: &mut Vec<Offer>, trade_state: &String, at: i64, slot: i64)
    ensures
        views(final(rows)@) == update_where(
            views(old(rows)@),
            open_offer_at(trade_state@),
            offer_canceled(at, slot),
        ),
{
    let ghost target = update_where(
        views(old(rows)@),
        open_offer_at(trade_state@),
        offer_canceled(at, slot),
    );
    let mut i: usize = 0;
    while i < rows.len()
        invariant
            i <= rows.len(),
            rows.len() == old(rows).len(),
            target == update_where(
                views(old(rows)@),
                open_offer_at(trade_state@),
                offer_canceled(at, slot),
            ),
            forall|j: int| 0 <= j < i ==> #[trigger] views(rows@)[j] == target[j],
            forall|j: int| i <= j < rows.len() ==> #[trigger] views(rows@)[j] == views(old(rows)@)[j],
        decreases rows.len() - i,
    {
        let ghost prev = rows@;
        let o = &rows[i];
        if o.trade_state == *trade_state && o.purchase_id.is_none() && o.canceled_at.is_none() {
            rows[i].canceled_at = Some(at);
            rows[i].slot = slot;
        }
        proof {
            assert forall|j: int| 0 <= j < i + 1 implies #[trigger] views(rows@)[j] == target[j] by {
                assert(views(prev)[j] == prev[j]@);
            }
            assert forall|j: int| i + 1 <= j < rows.len() implies #[trigger] views(rows@)[j] == views(
                old(rows)@,
            )[j] by {
                assert(views(prev)[j] == prev[j]@);
            }
        }
        i += 1;
    }
    assert(views(rows@) =~= target);
}

fn burn_metadatas(rows: &mut Vec<Metadata>, mint: &String, at: i64, slot: i64)
    ensures
        views(final(rows)@) == update_where(
            views(old(rows)@),
            metadata_of_mint(mint@),
            metadata_burned(at, slot),
        ),
{
    let ghost target = update_where(
        views(old(rows)@),
        metadata_of_mint(mint@),
        metadata_burned(at, slot),
    );
    let mut i: usize = 0;
    while i < rows.len()
        invariant
            i <= rows.len(),
            rows.len() == old(rows).len(),
            target == update_where(
                views(old(rows)@),
                metadata_of_mint(mint@),
                metadata_burned(at, slot),
            ),
            forall|j: int| 0 <= j < i ==> #[trigger] views(rows@)[j] == target[j],
            forall|j: int| i <= j < rows.len() ==> #[trigger] views(rows@)[j] == views(old(rows)@)[j],
        decreases rows.len() - i,
    {
        let ghost prev = rows@;
        if rows[i].mint_address == *mint {
            rows[i].burned_at = Some(at);
            rows[i].slot = slot;
        }
        proof {
            assert forall|j: int| 0 <= j < i + 1 implies #[trigger] views(rows@)[j] == target[j] by {
                assert(views(prev)[j] == prev[j]@);
            }
            assert forall|j: int| i + 1 <= j < rows.len() implies #[trigger] views(rows@)[j] == views(
                old(rows)@,
            )[j] by {
                assert(views(prev)[j] == prev[j]@);
            }
        }
        i += 1;
    }
    assert(views(rows@) =~= target);
}

impl Store {
    /// Whether the store is well formed.
    pub open spec fn wf(&self) -> bool {
        self@.wf()
    }

    /// The store without rows.
    pub fn new() -> (store: Store)
        ensures
            store.wf(),
            store@ == StoreView::empty(),
    {
        let store = Store {
            listings: Vec::new(),
            offers: Vec::new(),
            purchases: Vec::new(),
            feed_events: Vec::new(),
            purchase_events: Vec::new(),
            feed_event_wallets: Vec::new(),
            purchase_tickets: Vec::new(),
            reward_centers: Vec::new(),
            reward_payouts: Vec::new(),
            auction_houses: Vec::new(),
            metadatas: Vec::new(),
        };
        proof {
            lemma_empty_wf();
            assert(store@.listings =~= Seq::empty());
            assert(store@.offers =~= Seq::empty());
            assert(store@.purchases =~= Seq::empty());
            assert(store@.feed_events =~= Seq::empty());
            assert(store@.purchase_events =~= Seq::empty());
            assert(store@.feed_event_wallets =~= Seq::empty());
            assert(store@.purchase_tickets =~= Seq::empty());
            assert(store@.reward_centers =~= Seq::empty());
            assert(store@.reward_payouts =~= Seq::empty());
            assert(store@.auction_houses =~= Seq::empty());
            assert(store@.metadatas =~= Seq::empty());
        }
        store
    }

    // ----- reading ------------------------------------------------------

    /// The listings, in order of arrival.
    pub fn listings(&self) -> (rows: &Vec<Listing>)
        ensures
            views(rows@) == self@.listings,
    {
        &self.listings
    }

    /// The offers, in order of arrival.
    pub fn offers(&self) -> (rows: &Vec<Offer>)
        ensures
            views(rows@) == self@.offers,
    {
        &self.offers
    }

    /// The purchases, in order of arrival.
    pub fn purchases(&self) -> (rows: &Vec<Purchase>)
        ensures
            views(rows@) == self@.purchases,
    {
        &self.purchases
    }

    /// The feed events, in order of arrival.
    pub fn feed_events(&self) -> (rows: &Vec<FeedEvent>)
        ensures
            views(rows@) == self@.feed_events,
    {
        &self.feed_events
    }

    /// The purchase events, in order of arrival.
    pub fn purchase_events(&self) -> (rows: &Vec<PurchaseEvent>)
        ensures
            views(rows@) == self@.purchase_events,
    {
        &self.purchase_events
    }

    /// The wallet rows of the feed events, in order of arrival.
    pub fn feed_event_wallets(&self) -> (rows: &Vec<FeedEventWallet>)
        ensures
            views(rows@) == self@.feed_event_wallets,
    {
        &self.feed_event_wallets
    }

    /// The purchase tickets, in order of arrival.
    pub fn purchase_tickets(&self) -> (rows: &Vec<RewardsPurchaseTicket>)
        ensures
            views(rows@) == self@.purchase_tickets,
    {
        &self.purchase_tickets
    }

    /// The reward centers, in order of arrival.
    pub fn reward_centers(&self) -> (rows: &Vec<RewardCenter>)
        ensures
            views(rows@) == self@.reward_centers,
    {
        &self.reward_centers
    }

    /// The reward payouts, in order of arrival.
    pub fn reward_payouts(&self) -> (rows: &Vec<RewardPayout>)
        ensures
            views(rows@) == self@.reward_payouts,
    {
        &self.reward_payouts
    }

    /// The auction houses, in order of arrival.
    pub fn auction_houses(&self) -> (rows: &Vec<AuctionHouse>)
        ensures
            views(rows@) == self@.auction_houses,
    {
        &self.auction_houses
    }

    /// The metadatas, in order of arrival.
    pub fn metadatas(&self) -> (rows: &Vec<Metadata>)
        ensures
            views(rows@) == self@.metadatas,
    {
        &self.metadatas
    }

    // ----- listings and offers ------------------------------------------

    /// Writes a listing under its trade state and returns its identifier.
    ///
    /// A new trade state gets a new row. A known one has its row
    /// overwritten by `row`, except that `purchase_id` and `canceled_at`
    /// stay as they are once they are set.
    pub fn upsert_listing(&mut self, row: Listing) -> (id: u64)
        requires
            old(self).wf(),
        ensures
            final(self).wf(),
            final(self)@ == old(self)@.upsert_listing(row@),
            id == old(self)@.listing_id(row@),
    {
        proof {
            lemma_upsert_listing_wf(self@, row@);
        }
        match find_listing(&self.listings, &row.trade_state) {
            Some(i) => {
                let stored = &self.listings[i];
                let merged = Listing {
                    id: stored.id,
                    purchase_id: if stored.purchase_id.is_some() {
                        stored.purchase_id
                    } else {
                        row.purchase_id
                    },
                    canceled_at: if stored.canceled_at.is_some() {
                        stored.canceled_at
                    } else {
                        row.canceled_at
                    },
                    trade_state: row.trade_state,
                    auction_house: row.auction_house,
                    marketplace_program: row.marketplace_program,
                    seller: row.seller,
                    metadata: row.metadata,
                    price: row.price,
                    token_size: row.token_size,
                    trade_state_bump: row.trade_state_bump,
                    created_at: row.created_at,
                    slot: row.slot,
                    write_version: row.write_version,
                    expiry: row.expiry,
                };
                assert(merged@ == merge_listing(views(old(self).listings@)[i as int], row@));
                self.listings[i] = merged;
                assert(views(self.listings@) =~= views(old(self).listings@).update(
                    i as int,
                    merge_listing(views(old(self).listings@)[i as int], row@),
                ));
                assert(old(self)@.listings[i as int].id == i);
                i as u64
            },
            None => {
                let id = self.listings.len() as u64;
                let fresh = Listing {
                    id,
                    purchase_id: row.purchase_id,
                    canceled_at: row.canceled_at,
                    trade_state: row.trade_state,
                    auction_house: row.auction_house,
                    marketplace_program: row.marketplace_program,
                    seller: row.seller,
                    metadata: row.metadata,
                    price: row.price,
                    token_size: row.token_size,
                    trade_state_bump: row.trade_state_bump,
                    created_at: row.created_at,
                    slot: row.slot,
                    write_version: row.write_version,
                    expiry: row.expiry,
                };
                self.listings.push(fresh);
                assert(views(self.listings@) =~= views(old(self).listings@).push(
                    ListingView { id: old(self).listings@.len(), ..row@ },
                ));
                id
            },
        }
    }

    /// Writes an offer under its trade state and returns its identifier.
    ///
    /// A new trade state gets a new row. A known one has its row
    /// overwritten by `row`, except that `purchase_id` and `canceled_at`
    /// stay as they are once they are set.
    pub fn upsert_offer(&mut self, row: Offer) -> (id: u64)
        requires
            old(self).wf(),
        ensures
            final(self).wf(),
            final(self)@ == old(self)@.upsert_offer(row@),
            id == old(self)@.offer_id(row@),
    {
        proof {
            lemma_upsert_offer_wf(self@, row@);
        }
        match find_offer(&self.offers, &row.trade_state) {
            Some(i) => {
                let stored = &self.offers[i];
                let merged = Offer {
                    id: stored.id,
                    purchase_id: if stored.purchase_id.is_some() {
                        stored.purchase_id
                    } else {
                        row.purchase_id
                    },
                    canceled_at: if stored.canceled_at.is_some() {
                        stored.canceled_at
                    } else {
                        row.canceled_at
                    },
                    trade_state: row.trade_state,
                    auction_house: row.auction_house,
                    marketplace_program: row.marketplace_program,
                    buyer: row.buyer,
                    metadata: row.metadata,
                    price: row.price,
                    token_size: row.token_size,
                    trade_state_bump: row.trade_state_bump,
                    created_at: row.created_at,
                    slot: row.slot,
                    write_version: row.write_version,
                    expiry: row.expiry,
                };
                assert(merged@ == merge_offer(views(old(self).offers@)[i as int], row@));
                self.offers[i] = merged;
                assert(views(self.offers@) =~= views(old(self).offers@).update(
                    i as int,
                    merge_offer(views(old(self).offers@)[i as int], row@),
                ));
                assert(old(self)@.offers[i as int].id == i);
                i as u64
            },
            None => {
                let id = self.offers.len() as u64;
                let fresh = Offer {
                    id,
                    purchase_id: row.purchase_id,
                    canceled_at: row.canceled_at,
                    trade_state: row.trade_state,
                    auction_house: row.auction_house,
                    marketplace_program: row.marketplace_program,
                    buyer: row.buyer,
                    metadata: row.metadata,
                    price: row.price,
                    token_size: row.token_size,
                    trade_state_bump: row.trade_state_bump,
                    created_at: row.created_at,
                    slot: row.slot,
                    write_version: row.write_version,
                    expiry: row.expiry,
                };
                self.offers.push(fresh);
                assert(views(self.offers@) =~= views(old(self).offers@).push(
                    OfferView { id: old(self).offers@.len(), ..row@ },
                ));
                id
            },
        }
    }

    /// Cancels the listing under `trade_state` if it is still open, and
    /// leaves the store as it is otherwise.
    pub fn cancel_listing(&mut self, trade_state: &String, at: i64, slot: i64)
        requires
            old(self).wf(),
        ensures
            final(self).wf(),
            final(self)@ == old(self)@.cancel_listing(trade_state@, at, slot),
    {
        proof {
            lemma_cancel_wf(self@, trade_state@, at, slot);
        }
        cancel_listings(&mut self.listings, trade_state, at, slot);
    }

    /// Cancels the offer under `trade_state` if it is still open, and
    /// leaves the store as it is otherwise.
    pub fn cancel_offer(&mut self, trade_state: &String, at: i64, slot: i64)
        requires
            old(self).wf(),
        ensures
            final(self).wf(),
            final(self)@ == old(self)@.cancel_offer(trade_state@, at, slot),
    {
        proof {
            lemma_cancel_wf(self@, trade_state@, at, slot);
        }
        cancel_offers(&mut self.offers, trade_state, at, slot);
    }

    // ----- purchases ----------------------------------------------------

    /// The first purchase with the seller, auction house, metadata, price,
    /// size and slot of the listing `row`.
    pub fn find_sale(&self, row: &Listing) -> (id: Option<u64>)
        ensures
            id_view(id) == self@.find_sale(row@),
    {
        match find_sale_in(&self.purchases, row) {
            Some(i) => Some(i as u64),
            None => None,
        }
    }

    /// The first purchase with the buyer, auction house, metadata, price,
    /// size and slot of the offer `row`.
    pub fn find_purchase(&self, row: &Offer) -> (id: Option<u64>)
        ensures
            id_view(id) == self@.find_purchase(row@),
    {
        match find_purchase_in(&self.purchases, row) {
            Some(i) => Some(i as u64),
            None => None,
        }
    }

    /// Writes a realised trade and returns its identifier.
    ///
    /// A trade that is not stored yet gets a new row and one feed event
    /// with a purchase event and two wallet rows. A stored one has its
    /// slot, write version and creation time refreshed. Either way the
    /// open offers and listings that the trade fulfils are closed by it.
    pub fn upsert_purchase(&mut self, row: Purchase) -> (id: u64)
        requires
            old(self).wf(),
        ensures
            final(self).wf(),
            final(self)@ == old(self)@.upsert_purchase(row@),
            id == old(self)@.purchase_id(row@),
    {
        proof {
            lemma_upsert_purchase_wf(self@, row@);
        }
        let found = find_trade(&self.purchases, &row);
        let id: u64 = match found {
            Some(i) => {
                self.purchases[i].slot = row.slot;
                self.purchases[i].write_version = row.write_version;
                self.purchases[i].created_at = row.created_at;
                assert(views(self.purchases@) =~= views(old(self).purchases@).update(
                    i as int,
                    merge_purchase(views(old(self).purchases@)[i as int], row@),
                ));
                i as u64
            },
            None => {
                let id = self.purchases.len() as u64;
                let mut fresh = row.clone();
                fresh.id = id;
                self.purchases.push(fresh);
                assert(views(self.purchases@) =~= views(old(self).purchases@).push(
                    PurchaseView { id: old(self).purchases@.len(), ..row@ },
                ));
                id
            },
        };
        assert(self@ == old(self)@.put_purchase(row@));
        take_offers(&mut self.offers, &row, id);
        sell_listings(&mut self.listings, &row, id);
        assert(self@ == old(self)@.put_purchase(row@).link_purchase(row@, id as nat));
        if found.is_none() {
            let ghost linked = self@;
            let feed_event_id = self.feed_events.len() as u64;
            self.feed_events.push(FeedEvent { id: feed_event_id });
            self.purchase_events.push(PurchaseEvent { purchase_id: id, feed_event_id });
            self.feed_event_wallets.push(
                FeedEventWallet { wallet_address: row.seller.clone(), feed_event_id },
            );
            self.feed_event_wallets.push(
                FeedEventWallet { wallet_address: row.buyer.clone(), feed_event_id },
            );
            proof {
                let done = linked.emit_purchase_event(id as nat, row@.buyer, row@.seller);
                assert(self@.feed_events =~= done.feed_events);
                assert(self@.purchase_events =~= done.purchase_events);
                assert(self@.feed_event_wallets =~= done.feed_event_wallets);
                assert(self@ == done);
            }
        }
        id
    }

    // ----- reward tables ------------------------------------------------

    /// Writes a purchase ticket under its address, replacing the row that
    /// is stored there.
    pub fn upsert_ticket(&mut self, row: RewardsPurchaseTicket)
        requires
            old(self).wf(),
        ensures
            final(self).wf(),
            final(self)@ == old(self)@.upsert_ticket(row@),
    {
        proof {
            lemma_reward_tables_wf(self@);
            assert(self@.upsert_ticket(row@).wf());
        }
        match find_ticket(&self.purchase_tickets, &row.address) {
            Some(i) => {
                self.purchase_tickets[i] = row;
                assert(views(self.purchase_tickets@) =~= views(old(self).purchase_tickets@).update(
                    i as int,
                    row@,
                ));
            },
            None => {
                self.purchase_tickets.push(row);
                assert(views(self.purchase_tickets@) =~= views(old(self).purchase_tickets@).push(
                    row@,
                ));
            },
        }
    }

    /// Inserts a payout unless its purchase ticket already has one.
    pub fn insert_payout(&mut self, row: RewardPayout)
        requires
            old(self).wf(),
        ensures
            final(self).wf(),
            final(self)@ == old(self)@.insert_payout(row@),
    {
        proof {
            lemma_reward_tables_wf(self@);
            assert(self@.insert_payout(row@).wf());
        }
        match find_payout(&self.reward_payouts, &row.purchase_ticket) {
            Some(_) => {},
            None => {
                self.reward_payouts.push(row);
                assert(views(self.reward_payouts@) =~= views(old(self).reward_payouts@).push(row@));
            },
        }
    }

    /// Writes a reward center under its address, replacing the row that
    /// is stored there.
    pub fn upsert_reward_center(&mut self, row: RewardCenter)
        requires
            old(self).wf(),
        ensures
            final(self).wf(),
            final(self)@ == old(self)@.upsert_reward_center(row@),
    {
        proof {
            lemma_reward_tables_wf(self@);
            assert(self@.upsert_reward_center(row@).wf());
        }
        match find_reward_center(&self.reward_centers, &row.address) {
            Some(i) => {
                self.reward_centers[i] = row;
                assert(views(self.reward_centers@) =~= views(old(self).reward_centers@).update(
                    i as int,
                    row@,
                ));
            },
            None => {
                self.reward_centers.push(row);
                assert(views(self.reward_centers@) =~= views(old(self).reward_centers@).push(row@));
            },
        }
    }

    /// Writes an auction house under its address, replacing the row that
    /// is stored there.
    pub fn upsert_auction_house(&mut self, row: AuctionHouse)
        requires
            old(self).wf(),
        ensures
            final(self).wf(),
            final(self)@ == old(self)@.upsert_auction_house(row@),
    {
        proof {
            lemma_reward_tables_wf(self@);
            assert(self@.upsert_auction_house(row@).wf());
        }
        match find_auction_house(&self.auction_houses, &row.address) {
            Some(i) => {
                self.auction_houses[i] = row;
                assert(views(self.auction_houses@) =~= views(old(self).auction_houses@).update(
                    i as int,
                    row@,
                ));
            },
            None => {
                self.auction_houses.push(row);
                assert(views(self.auction_houses@) =~= views(old(self).auction_houses@).push(row@));
            },
        }
    }

    /// The reward center stored under `address`.
    pub fn reward_center(&self, address: &String) -> (center: Option<RewardCenter>)
        ensures
            match center {
                Some(c) => self@.reward_center(address@) == Some(c@),
                None => self@.reward_center(address@) is None,
            },
    {
        match find_reward_center(&self.reward_centers, address) {
            Some(i) => Some(self.reward_centers[i].clone()),
            None => None,
        }
    }

    /// The auction house that the reward center under `address` overlays.
    ///
    /// Present exactly when the reward center is stored and the auction
    /// house it names is stored too.
    pub fn auction_house_of(&self, address: &String) -> (house: Option<AuctionHouse>)
        ensures
            match house {
                Some(h) => self@.auction_house_of(address@) == Some(h@),
                None => self@.auction_house_of(address@) is None,
            },
    {
        match find_reward_center(&self.reward_centers, address) {
            Some(i) => {
                match find_auction_house(&self.auction_houses, &self.reward_centers[i].auction_house) {
                    Some(j) => Some(self.auction_houses[j].clone()),
                    None => None,
                }
            },
            None => None,
        }
    }

    // ----- metadatas ----------------------------------------------------

    /// Writes a metadata under its address, replacing the row that is
    /// stored there.
    pub fn upsert_metadata(&mut self, row: Metadata)
        requires
            old(self).wf(),
        ensures
            final(self).wf(),
            final(self)@ == old(self)@.upsert_metadata(row@),
    {
        proof {
            lemma_reward_tables_wf(self@);
            assert(self@.upsert_metadata(row@).wf());
        }
        match find_metadata(&self.metadatas, &row.address) {
            Some(i) => {
                self.metadatas[i] = row;
                assert(views(self.metadatas@) =~= views(old(self).metadatas@).update(i as int, row@));
            },
            None => {
                self.metadatas.push(row);
                assert(views(self.metadatas@) =~= views(old(self).metadatas@).push(row@));
            },
        }
    }

    /// Marks every metadata of `mint` as burned at `at`.
    pub fn burn(&mut self, mint: &String, at: i64, slot: i64)
        requires
            old(self).wf(),
        ensures
            final(self).wf(),
            final(self)@ == old(self)@.burn(mint@, at, slot),
    {
        proof {
            lemma_reward_tables_wf(self@);
            assert(self@.burn(mint@, at, slot).wf());
        }
        burn_metadatas(&mut self.metadatas, mint, at, slot);
    }
}

} // verus!
