//! The normalised store as a mathematical value, and what each write
//! makes of it.

use crate::error::Error;
use crate::model::{
    AuctionHouseView, FeedEventView, FeedEventWalletView, ListingView, MetadataView, OfferView,
    PurchaseEventView, PurchaseView, RewardCenterView, RewardPayoutView, RewardsPurchaseTicketView,
};
use crate::rows::{first_index, lemma_first_index_found, lemma_first_index_none, update_where};
use vstd::prelude::*;

verus! {

/// Where a message leaves the store, and how it ended.
pub struct Outcome {
    pub store: StoreView,
    pub result: Result<(), Error>,
}

/// The outcome of a message that changed nothing and ended well.
pub open spec fn untouched(s: StoreView) -> Outcome {
    Outcome { store: s, result: Ok(()) }
}

/// The outcome of a message that failed before it changed anything.
pub open spec fn rejected(s: StoreView, e: Error) -> Outcome {
    Outcome { store: s, result: Err(e) }
}

/// The outcome of a message that ended well in the store `s`.
pub open spec fn applied(s: StoreView) -> Outcome {
    Outcome { store: s, result: Ok(()) }
}

/// The tables of the store.
pub struct StoreView {
    pub listings: Seq<ListingView>,
    pub offers: Seq<OfferView>,
    pub purchases: Seq<PurchaseView>,
    pub feed_events: Seq<FeedEventView>,
    pub purchase_events: Seq<PurchaseEventView>,
    pub feed_event_wallets: Seq<FeedEventWalletView>,
    pub purchase_tickets: Seq<RewardsPurchaseTicketView>,
    pub reward_centers: Seq<RewardCenterView>,
    pub reward_payouts: Seq<RewardPayoutView>,
    pub auction_houses: Seq<AuctionHouseView>,
    pub metadatas: Seq<MetadataView>,
}

// ----- row predicates -------------------------------------------------

/// The listing stored under a trade state.
pub open spec fn listing_at(trade_state: Seq<char>) -> spec_fn(ListingView) -> bool {
    |l: ListingView| l.trade_state == trade_state
}

/// The offer stored under a trade state.
pub open spec fn offer_at(trade_state: Seq<char>) -> spec_fn(OfferView) -> bool {
    |o: OfferView| o.trade_state == trade_state
}

/// A listing is open while it is neither sold nor canceled.
pub open spec fn listing_open(l: ListingView) -> bool {
    l.purchase_id is None && l.canceled_at is None
}

/// An offer is open while it is neither taken nor canceled.
pub open spec fn offer_open(o: OfferView) -> bool {
    o.purchase_id is None && o.canceled_at is None
}

/// The open listing stored under a trade state.
pub open spec fn open_listing_at(trade_state: Seq<char>) -> spec_fn(ListingView) -> bool {
    |l: ListingView| l.trade_state == trade_state && listing_open(l)
}

/// The open offer stored under a trade state.
pub open spec fn open_offer_at(trade_state: Seq<char>) -> spec_fn(OfferView) -> bool {
    |o: OfferView| o.trade_state == trade_state && offer_open(o)
}

/// The listing offers what the purchase bought, from its seller, through
/// its auction house, at its price and size.
pub open spec fn listing_matches(l: ListingView, p: PurchaseView) -> bool {
    &&& l.auction_house == p.auction_house
    &&& l.seller == p.seller
    &&& l.metadata == p.metadata
    &&& l.price == p.price
    &&& l.token_size == p.token_size
}

/// The offer bids for what the purchase bought, by its buyer, through its
/// auction house.
pub open spec fn offer_matches(o: OfferView, p: PurchaseView) -> bool {
    &&& o.auction_house == p.auction_house
    &&& o.buyer == p.buyer
    &&& o.metadata == p.metadata
}

/// The open listings that a purchase fulfils.
pub open spec fn listing_awaiting(p: PurchaseView) -> spec_fn(ListingView) -> bool {
    |l: ListingView| listing_matches(l, p) && listing_open(l)
}

/// The open offers that a purchase fulfils.
pub open spec fn offer_awaiting(p: PurchaseView) -> spec_fn(OfferView) -> bool {
    |o: OfferView| offer_matches(o, p) && offer_open(o)
}

/// Two purchase rows describe the same realised trade.
pub open spec fn same_trade(p: PurchaseView, q: PurchaseView) -> bool {
    &&& p.buyer == q.buyer
    &&& p.seller == q.seller
    &&& p.auction_house == q.auction_house
    &&& p.metadata == q.metadata
    &&& p.price == q.price
    &&& p.token_size == q.token_size
}

/// The purchase that realises the same trade as `p`.
pub open spec fn trade_of(p: PurchaseView) -> spec_fn(PurchaseView) -> bool {
    |q: PurchaseView| same_trade(q, p)
}

/// The purchases that a new listing may have been fulfilled by: same
/// seller, auction house, metadata, price, size and slot.
pub open spec fn sale_of(l: ListingView) -> spec_fn(PurchaseView) -> bool {
    |p: PurchaseView| listing_matches(l, p) && p.slot == l.slot
}

/// The purchases that a new offer may have been fulfilled by: same buyer,
/// auction house, metadata, price, size and slot.
pub open spec fn purchase_of(o: OfferView) -> spec_fn(PurchaseView) -> bool {
    |p: PurchaseView|
        offer_matches(o, p) && p.price == o.price && p.token_size == o.token_size && p.slot
            == o.slot
}

/// The purchase ticket stored under an address.
pub open spec fn ticket_at(address: Seq<char>) -> spec_fn(RewardsPurchaseTicketView) -> bool {
    |t: RewardsPurchaseTicketView| t.address == address
}

/// The payout stored for a purchase ticket.
pub open spec fn payout_for(ticket: Seq<char>) -> spec_fn(RewardPayoutView) -> bool {
    |p: RewardPayoutView| p.purchase_ticket == ticket
}

/// The reward center stored under an address.
pub open spec fn reward_center_at(address: Seq<char>) -> spec_fn(RewardCenterView) -> bool {
    |r: RewardCenterView| r.address == address
}

/// The auction house stored under an address.
pub open spec fn auction_house_at(address: Seq<char>) -> spec_fn(AuctionHouseView) -> bool {
    |a: AuctionHouseView| a.address == address
}

/// The metadata stored under an address.
pub open spec fn metadata_at(address: Seq<char>) -> spec_fn(MetadataView) -> bool {
    |m: MetadataView| m.address == address
}

/// The metadatas of a mint.
pub open spec fn metadata_of_mint(mint: Seq<char>) -> spec_fn(MetadataView) -> bool {
    |m: MetadataView| m.mint_address == mint
}

// ----- row rewrites ---------------------------------------------------

/// Closes a listing by a purchase.
pub open spec fn listing_sold(purchase_id: nat, slot: i64) -> spec_fn(ListingView) -> ListingView {
    |l: ListingView| ListingView { purchase_id: Some(purchase_id), slot, ..l }
}

/// Closes an offer by a purchase.
pub open spec fn offer_taken(purchase_id: nat, slot: i64) -> spec_fn(OfferView) -> OfferView {
    |o: OfferView| OfferView { purchase_id: Some(purchase_id), slot, ..o }
}

/// Closes a listing by cancellation.
pub open spec fn listing_canceled(at: i64, slot: i64) -> spec_fn(ListingView) -> ListingView {
    |l: ListingView| ListingView { canceled_at: Some(at), slot, ..l }
}

/// Closes an offer by cancellation.
pub open spec fn offer_canceled(at: i64, slot: i64) -> spec_fn(OfferView) -> OfferView {
    |o: OfferView| OfferView { canceled_at: Some(at), slot, ..o }
}

/// Marks a metadata as burned.
pub open spec fn metadata_burned(at: i64, slot: i64) -> spec_fn(MetadataView) -> MetadataView {
    |m: MetadataView| MetadataView { burned_at: Some(at), slot, ..m }
}

/// What a stored listing becomes when `row` arrives for its trade state:
/// every column is taken from `row`, but the identifier stays, and so do
/// `purchase_id` and `canceled_at` where they are already set.
pub open spec fn merge_listing(stored: ListingView, row: ListingView) -> ListingView {
    ListingView {
        id: stored.id,
        purchase_id: if stored.purchase_id is Some {
            stored.purchase_id
        } else {
            row.purchase_id
        },
        canceled_at: if stored.canceled_at is Some {
            stored.canceled_at
        } else {
            row.canceled_at
        },
        ..row
    }
}

/// What a stored offer becomes when `row` arrives for its trade state.
pub open spec fn merge_offer(stored: OfferView, row: OfferView) -> OfferView {
    OfferView {
        id: stored.id,
        purchase_id: if stored.purchase_id is Some {
            stored.purchase_id
        } else {
            row.purchase_id
        },
        canceled_at: if stored.canceled_at is Some {
            stored.canceled_at
        } else {
            row.canceled_at
        },
        ..row
    }
}

/// What a stored purchase becomes when `row` arrives for the same trade:
/// slot, write version and creation time are overwritten.
pub open spec fn merge_purchase(stored: PurchaseView, row: PurchaseView) -> PurchaseView {
    PurchaseView {
        slot: row.slot,
        write_version: row.write_version,
        created_at: row.created_at,
        ..stored
    }
}

impl StoreView {
    /// The store without rows.
    pub open spec fn empty() -> StoreView {
        StoreView {
            listings: Seq::empty(),
            offers: Seq::empty(),
            purchases: Seq::empty(),
            feed_events: Seq::empty(),
            purchase_events: Seq::empty(),
            feed_event_wallets: Seq::empty(),
            purchase_tickets: Seq::empty(),
            reward_centers: Seq::empty(),
            reward_payouts: Seq::empty(),
            auction_houses: Seq::empty(),
            metadatas: Seq::empty(),
        }
    }

    // ----- well-formedness --------------------------------------------

    /// Listings are numbered by position and no two share a trade state.
    pub open spec fn listings_wf(self) -> bool {
        &&& forall|i: int| 0 <= i < self.listings.len() ==> (#[trigger] self.listings[i]).id == i
        &&& forall|i: int, j: int|
            0 <= i < j < self.listings.len() ==> (#[trigger] self.listings[i]).trade_state != (
            #[trigger] self.listings[j]).trade_state
    }

    /// Offers are numbered by position and no two share a trade state.
    pub open spec fn offers_wf(self) -> bool {
        &&& forall|i: int| 0 <= i < self.offers.len() ==> (#[trigger] self.offers[i]).id == i
        &&& forall|i: int, j: int|
            0 <= i < j < self.offers.len() ==> (#[trigger] self.offers[i]).trade_state != (
            #[trigger] self.offers[j]).trade_state
    }

    /// Purchases are numbered by position and no two realise the same
    /// trade.
    pub open spec fn purchases_wf(self) -> bool {
        &&& forall|i: int| 0 <= i < self.purchases.len() ==> (#[trigger] self.purchases[i]).id == i
        &&& forall|i: int, j: int|
            0 <= i < j < self.purchases.len() ==> !same_trade(
                #[trigger] self.purchases[i],
                #[trigger] self.purchases[j],
            )
    }

    /// The purchase with number `i` owns the feed event with number `i`,
    /// the purchase event at position `i`, and the wallet rows at
    /// positions `2 i` (its seller) and `2 i + 1` (its buyer).
    pub open spec fn feed_wf(self) -> bool {
        &&& self.feed_events.len() == self.purchases.len()
        &&& self.purchase_events.len() == self.purchases.len()
        &&& self.feed_event_wallets.len() == 2 * self.purchases.len()
        &&& forall|i: int| 0 <= i < self.feed_events.len() ==> (#[trigger] self.feed_events[i]).id == i
        &&& forall|i: int|
            0 <= i < self.purchase_events.len() ==> #[trigger] self.purchase_events[i]
                == (PurchaseEventView { purchase_id: i as nat, feed_event_id: i as nat })
        &&& forall|i: int|
            0 <= i < self.purchases.len() ==> self.feed_event_wallets[2 * i] == (FeedEventWalletView {
                wallet_address: (#[trigger] self.purchases[i]).seller,
                feed_event_id: i as nat,
            }) && self.feed_event_wallets[2 * i + 1] == (FeedEventWalletView {
                wallet_address: self.purchases[i].buyer,
                feed_event_id: i as nat,
            })
    }

    /// No two rows of a keyed table share their key.
    pub open spec fn keys_wf(self) -> bool {
        &&& forall|i: int, j: int|
            0 <= i < j < self.purchase_tickets.len() ==> (#[trigger] self.purchase_tickets[i]).address
                != (#[trigger] self.purchase_tickets[j]).address
        &&& forall|i: int, j: int|
            0 <= i < j < self.reward_payouts.len() ==> (
            #[trigger] self.reward_payouts[i]).purchase_ticket != (
            #[trigger] self.reward_payouts[j]).purchase_ticket
        &&& forall|i: int, j: int|
            0 <= i < j < self.reward_centers.len() ==> (#[trigger] self.reward_centers[i]).address != (
            #[trigger] self.reward_centers[j]).address
        &&& forall|i: int, j: int|
            0 <= i < j < self.auction_houses.len() ==> (#[trigger] self.auction_houses[i]).address != (
            #[trigger] self.auction_houses[j]).address
        &&& forall|i: int, j: int|
            0 <= i < j < self.metadatas.len() ==> (#[trigger] self.metadatas[i]).address != (
            #[trigger] self.metadatas[j]).address
    }

    /// The invariant of the store.
    pub open spec fn wf(self) -> bool {
        &&& self.listings_wf()
        &&& self.offers_wf()
        &&& self.purchases_wf()
        &&& self.feed_wf()
        &&& self.keys_wf()
    }

    // ----- listings and offers ----------------------------------------

    /// The store after `row` was written under its trade state.
    pub open spec fn upsert_listing(self, row: ListingView) -> StoreView {
        match first_index(self.listings, listing_at(row.trade_state)) {
            Some(i) => StoreView {
                listings: self.listings.update(i, merge_listing(self.listings[i], row)),
                ..self
            },
            None => StoreView {
                listings: self.listings.push(ListingView { id: self.listings.len(), ..row }),
                ..self
            },
        }
    }

    /// The identifier under which `upsert_listing` leaves `row`.
    pub open spec fn listing_id(self, row: ListingView) -> nat {
        match first_index(self.listings, listing_at(row.trade_state)) {
            Some(i) => i as nat,
            None => self.listings.len(),
        }
    }

    /// The store after `row` was written under its trade state.
    pub open spec fn upsert_offer(self, row: OfferView) -> StoreView {
        match first_index(self.offers, offer_at(row.trade_state)) {
            Some(i) => StoreView {
                offers: self.offers.update(i, merge_offer(self.offers[i], row)),
                ..self
            },
            None => StoreView {
                offers: self.offers.push(OfferView { id: self.offers.len(), ..row }),
                ..self
            },
        }
    }

    /// The identifier under which `upsert_offer` leaves `row`.
    pub open spec fn offer_id(self, row: OfferView) -> nat {
        match first_index(self.offers, offer_at(row.trade_state)) {
            Some(i) => i as nat,
            None => self.offers.len(),
        }
    }

    /// The store after the open listing under `trade_state` was canceled.
    pub open spec fn cancel_listing(self, trade_state: Seq<char>, at: i64, slot: i64) -> StoreView {
        StoreView {
            listings: update_where(
                self.listings,
                open_listing_at(trade_state),
                listing_canceled(at, slot),
            ),
            ..self
        }
    }

    /// The store after the open offer under `trade_state` was canceled.
    pub open spec fn cancel_offer(self, trade_state: Seq<char>, at: i64, slot: i64) -> StoreView {
        StoreView {
            offers: update_where(self.offers, open_offer_at(trade_state), offer_canceled(at, slot)),
            ..self
        }
    }

    // ----- purchases --------------------------------------------------

    /// The first purchase that may have fulfilled the listing `l`.
    pub open spec fn find_sale(self, l: ListingView) -> Option<nat> {
        match first_index(self.purchases, sale_of(l)) {
            Some(i) => Some(i as nat),
            None => None,
        }
    }

    /// The first purchase that may have fulfilled the offer `o`.
    pub open spec fn find_purchase(self, o: OfferView) -> Option<nat> {
        match first_index(self.purchases, purchase_of(o)) {
            Some(i) => Some(i as nat),
            None => None,
        }
    }

    /// Whether a purchase of the same trade as `row` is stored.
    pub open spec fn purchase_exists(self, row: PurchaseView) -> bool {
        first_index(self.purchases, trade_of(row)) is Some
    }

    /// The identifier under which `upsert_purchase` leaves `row`.
    pub open spec fn purchase_id(self, row: PurchaseView) -> nat {
        match first_index(self.purchases, trade_of(row)) {
            Some(i) => i as nat,
            None => self.purchases.len(),
        }
    }

    /// The store after every open offer and listing that the purchase
    /// fulfils was closed by it.
    pub open spec fn link_purchase(self, p: PurchaseView, id: nat) -> StoreView {
        StoreView {
            offers: update_where(self.offers, offer_awaiting(p), offer_taken(id, p.slot)),
            listings: update_where(self.listings, listing_awaiting(p), listing_sold(id, p.slot)),
            ..self
        }
    }

    /// The store after one feed event was recorded for a purchase: the
    /// feed event, its purchase event, and one wallet row each for seller
    /// and buyer.
    pub open spec fn emit_purchase_event(
        self,
        purchase_id: nat,
        buyer: Seq<char>,
        seller: Seq<char>,
    ) -> StoreView {
        let feed_event_id = self.feed_events.len();
        StoreView {
            feed_events: self.feed_events.push(FeedEventView { id: feed_event_id }),
            purchase_events: self.purchase_events.push(
                PurchaseEventView { purchase_id, feed_event_id },
            ),
            feed_event_wallets: self.feed_event_wallets.push(
                FeedEventWalletView { wallet_address: seller, feed_event_id },
            ).push(FeedEventWalletView { wallet_address: buyer, feed_event_id }),
            ..self
        }
    }

    /// The purchase table after `row` was written under its trade.
    pub open spec fn put_purchase(self, row: PurchaseView) -> StoreView {
        match first_index(self.purchases, trade_of(row)) {
            Some(i) => StoreView {
                purchases: self.purchases.update(i, merge_purchase(self.purchases[i], row)),
                ..self
            },
            None => StoreView {
                purchases: self.purchases.push(PurchaseView { id: self.purchases.len(), ..row }),
                ..self
            },
        }
    }

    /// The store after a realised trade was written: the purchase row is
    /// inserted or refreshed, the open offers and listings it fulfils are
    /// closed by it, and a feed event is recorded if the purchase is new.
    pub open spec fn upsert_purchase(self, row: PurchaseView) -> StoreView {
        let linked = self.put_purchase(row).link_purchase(row, self.purchase_id(row));
        if self.purchase_exists(row) {
            linked
        } else {
            linked.emit_purchase_event(self.purchase_id(row), row.buyer, row.seller)
        }
    }

    // ----- reward tables ----------------------------------------------

    /// The store after a purchase ticket was written under its address.
    pub open spec fn upsert_ticket(self, row: RewardsPurchaseTicketView) -> StoreView {
        match first_index(self.purchase_tickets, ticket_at(row.address)) {
            Some(i) => StoreView { purchase_tickets: self.purchase_tickets.update(i, row), ..self },
            None => StoreView { purchase_tickets: self.purchase_tickets.push(row), ..self },
        }
    }

    /// The store after a payout was inserted, unless its ticket already
    /// has one.
    pub open spec fn insert_payout(self, row: RewardPayoutView) -> StoreView {
        match first_index(self.reward_payouts, payout_for(row.purchase_ticket)) {
            Some(_) => self,
            None => StoreView { reward_payouts: self.reward_payouts.push(row), ..self },
        }
    }

    /// The store after a reward center was written under its address.
    pub open spec fn upsert_reward_center(self, row: RewardCenterView) -> StoreView {
        match first_index(self.reward_centers, reward_center_at(row.address)) {
            Some(i) => StoreView { reward_centers: self.reward_centers.update(i, row), ..self },
            None => StoreView { reward_centers: self.reward_centers.push(row), ..self },
        }
    }

    /// The store after an auction house was written under its address.
    pub open spec fn upsert_auction_house(self, row: AuctionHouseView) -> StoreView {
        match first_index(self.auction_houses, auction_house_at(row.address)) {
            Some(i) => StoreView { auction_houses: self.auction_houses.update(i, row), ..self },
            None => StoreView { auction_houses: self.auction_houses.push(row), ..self },
        }
    }

    /// The reward center stored under `address`.
    pub open spec fn reward_center(self, address: Seq<char>) -> Option<RewardCenterView> {
        match first_index(self.reward_centers, reward_center_at(address)) {
            Some(i) => Some(self.reward_centers[i]),
            None => None,
        }
    }

    /// The auction house that the reward center under `address` overlays,
    /// where both rows are stored.
    pub open spec fn auction_house_of(self, address: Seq<char>) -> Option<AuctionHouseView> {
        match self.reward_center(address) {
            Some(center) => match first_index(
                self.auction_houses,
                auction_house_at(center.auction_house),
            ) {
                Some(i) => Some(self.auction_houses[i]),
                None => None,
            },
            None => None,
        }
    }

    // ----- metadatas --------------------------------------------------

    /// The store after a metadata was written under its address.
    pub open spec fn upsert_metadata(self, row: MetadataView) -> StoreView {
        match first_index(self.metadatas, metadata_at(row.address)) {
            Some(i) => StoreView { metadatas: self.metadatas.update(i, row), ..self },
            None => StoreView { metadatas: self.metadatas.push(row), ..self },
        }
    }

    /// The store after every metadata of `mint` was marked burned.
    pub open spec fn burn(self, mint: Seq<char>, at: i64, slot: i64) -> StoreView {
        StoreView {
            metadatas: update_where(self.metadatas, metadata_of_mint(mint), metadata_burned(at, slot)),
            ..self
        }
    }
}

// ----- the writes keep the invariant ----------------------------------

/// The store without rows is well formed.
pub proof fn lemma_empty_wf()
    ensures
        StoreView::empty().wf(),
{
}

/// Writing a listing keeps the store well formed.
pub proof fn lemma_upsert_listing_wf(s: StoreView, row: ListingView)
    requires
        s.wf(),
    ensures
        s.upsert_listing(row).wf(),
{
    let pred = listing_at(row.trade_state);
    match first_index(s.listings, pred) {
        Some(i) => {
            lemma_first_index_found(s.listings, pred);
        },
        None => {
            lemma_first_index_none(s.listings, pred);
        },
    }
}

/// Writing an offer keeps the store well formed.
pub proof fn lemma_upsert_offer_wf(s: StoreView, row: OfferView)
    requires
        s.wf(),
    ensures
        s.upsert_offer(row).wf(),
{
    let pred = offer_at(row.trade_state);
    match first_index(s.offers, pred) {
        Some(i) => {
            lemma_first_index_found(s.offers, pred);
        },
        None => {
            lemma_first_index_none(s.offers, pred);
        },
    }
}

/// Canceling keeps the store well formed.
pub proof fn lemma_cancel_wf(s: StoreView, trade_state: Seq<char>, at: i64, slot: i64)
    requires
        s.wf(),
    ensures
        s.cancel_listing(trade_state, at, slot).wf(),
        s.cancel_offer(trade_state, at, slot).wf(),
{
}

/// Closing rows by a purchase keeps the store well formed.
pub proof fn lemma_link_purchase_wf(s: StoreView, p: PurchaseView, id: nat)
    requires
        s.wf(),
    ensures
        s.link_purchase(p, id).wf(),
{
}

/// Writing a purchase keeps the store well formed: in particular the new
/// purchase gets its one feed event, purchase event and pair of wallet
/// rows, and a known purchase gets none.
pub proof fn lemma_upsert_purchase_wf(s: StoreView, row: PurchaseView)
    requires
        s.wf(),
    ensures
        s.upsert_purchase(row).wf(),
{
    let pred = trade_of(row);
    let put = s.put_purchase(row);
    let id = s.purchase_id(row);
    match first_index(s.purchases, pred) {
        Some(i) => {
            lemma_first_index_found(s.purchases, pred);
            assert(put.purchases_wf());
            assert(put.feed_wf());
            lemma_link_purchase_wf(put, row, id);
        },
        None => {
            lemma_first_index_none(s.purchases, pred);
            let linked = put.link_purchase(row, id);
            let done = linked.emit_purchase_event(id, row.buyer, row.seller);
            assert(done.purchases_wf());
            assert(done.listings_wf());
            assert(done.offers_wf());
            assert(done.feed_wf());
        },
    }
}

/// Writing a ticket, a payout, a reward center, an auction house or a
/// metadata, and burning, keep the store well formed.
pub proof fn lemma_reward_tables_wf(s: StoreView)
    requires
        s.wf(),
    ensures
        forall|row: RewardsPurchaseTicketView| (#[trigger] s.upsert_ticket(row)).wf(),
        forall|row: RewardPayoutView| (#[trigger] s.insert_payout(row)).wf(),
        forall|row: RewardCenterView| (#[trigger] s.upsert_reward_center(row)).wf(),
        forall|row: AuctionHouseView| (#[trigger] s.upsert_auction_house(row)).wf(),
        forall|row: MetadataView| (#[trigger] s.upsert_metadata(row)).wf(),
        forall|mint: Seq<char>, at: i64, slot: i64| (#[trigger] s.burn(mint, at, slot)).wf(),
{
    assert forall|row: RewardsPurchaseTicketView| (#[trigger] s.upsert_ticket(row)).wf() by {
        let pred = ticket_at(row.address);
        if first_index(s.purchase_tickets, pred) is Some {
            lemma_first_index_found(s.purchase_tickets, pred);
        } else {
            lemma_first_index_none(s.purchase_tickets, pred);
        }
    }
    assert forall|row: RewardPayoutView| (#[trigger] s.insert_payout(row)).wf() by {
        let pred = payout_for(row.purchase_ticket);
        if first_index(s.reward_payouts, pred) is None {
            lemma_first_index_none(s.reward_payouts, pred);
        }
    }
    assert forall|row: RewardCenterView| (#[trigger] s.upsert_reward_center(row)).wf() by {
        let pred = reward_center_at(row.address);
        if first_index(s.reward_centers, pred) is Some {
            lemma_first_index_found(s.reward_centers, pred);
        } else {
            lemma_first_index_none(s.reward_centers, pred);
        }
    }
    assert forall|row: AuctionHouseView| (#[trigger] s.upsert_auction_house(row)).wf() by {
        let pred = auction_house_at(row.address);
        if first_index(s.auction_houses, pred) is Some {
            lemma_first_index_found(s.auction_houses, pred);
        } else {
            lemma_first_index_none(s.auction_houses, pred);
        }
    }
    assert forall|row: MetadataView| (#[trigger] s.upsert_metadata(row)).wf() by {
        let pred = metadata_at(row.address);
        if first_index(s.metadatas, pred) is Some {
            lemma_first_index_found(s.metadatas, pred);
        } else {
            lemma_first_index_none(s.metadatas, pred);
        }
    }
}

} // verus!
