//! What holds of every well-formed store and of every message delivered
//! to it.

use crate::codec::{kind_of, params_of, InstructionKind};
use crate::magic_eden_haus::{
    buy_outcome, buy_row, execute_sale_outcome, execute_sale_row, fits_i64, instruction_outcome,
    sale_outcome, sale_row, BUY_ACCOUNTS,
};
use crate::model::{ListingView, OfferView, PurchaseView, RewardsPurchaseTicketView};
use crate::purchase_ticket::{
    payout_of, payout_row, payout_step, purchase_step, ticket_outcome, ticket_purchase, ticket_row,
    PurchaseTicketView,
};
use crate::pubkey::{key_text, key_texts};
use crate::router::{
    routed_account, routed_instruction, AccountData, AccountMessage, InstructionMessage, Programs,
};
use crate::rows::{
    first_index, is_first, lemma_first_index, lemma_first_index_found, lemma_first_index_none,
    lemma_no_match,
};
use crate::state::{
    lemma_cancel_wf, lemma_reward_tables_wf, lemma_upsert_listing_wf, lemma_upsert_offer_wf,
    lemma_upsert_purchase_wf, listing_at, listing_awaiting, listing_matches, listing_open,
    listing_sold, offer_at, offer_awaiting, offer_matches, offer_open, offer_taken, payout_for,
    purchase_of, sale_of, same_trade, ticket_at, trade_of, Outcome, StoreView,
};
use crate::token::{burn_outcome, BURN_ACCOUNTS};
use vstd::prelude::*;

verus! {

// ----- one feed event per purchase --------------------------------------

/// Every purchase is referenced by exactly one purchase event, that
/// event's feed event is stored exactly once, and exactly two wallet rows
/// reference the feed event: one for the seller and one for the buyer.
pub proof fn lemma_purchase_has_one_feed_event(s: StoreView, p: int)
    requires
        s.wf(),
        0 <= p < s.purchases.len(),
    ensures
        s.purchase_events.len() == s.purchases.len(),
        forall|e: int|
            0 <= e < s.purchase_events.len() ==> ((#[trigger] s.purchase_events[e]).purchase_id
                == s.purchases[p].id <==> e == p),
        forall|f: int|
            0 <= f < s.feed_events.len() ==> ((#[trigger] s.feed_events[f]).id
                == s.purchase_events[p].feed_event_id <==> f == p),
        s.feed_event_wallets.len() == 2 * s.purchases.len(),
        forall|w: int|
            0 <= w < s.feed_event_wallets.len() ==> ((#[trigger] s.feed_event_wallets[w]).feed_event_id
                == s.purchase_events[p].feed_event_id <==> (w == 2 * p || w == 2 * p + 1)),
        s.feed_event_wallets[2 * p].wallet_address == s.purchases[p].seller,
        s.feed_event_wallets[2 * p + 1].wallet_address == s.purchases[p].buyer,
{
    assert(s.purchases[p].id == p);
    assert(s.purchase_events[p].feed_event_id == p);
    assert forall|w: int| 0 <= w < s.feed_event_wallets.len() implies ((
    #[trigger] s.feed_event_wallets[w]).feed_event_id == s.purchase_events[p].feed_event_id <==> (w
        == 2 * p || w == 2 * p + 1)) by {
        let i = w / 2;
        assert(s.purchases[i].id == i);
        assert(w == 2 * i || w == 2 * i + 1);
    }
}

/// Every feed event, purchase event and wallet row belongs to a stored
/// purchase.
pub proof fn lemma_feed_rows_have_a_purchase(s: StoreView)
    requires
        s.wf(),
    ensures
        forall|e: int|
            0 <= e < s.purchase_events.len() ==> (#[trigger] s.purchase_events[e]).purchase_id
                < s.purchases.len() && s.purchase_events[e].feed_event_id < s.feed_events.len(),
        forall|w: int|
            0 <= w < s.feed_event_wallets.len() ==> (#[trigger] s.feed_event_wallets[w]).feed_event_id
                < s.feed_events.len(),
{
    assert forall|w: int| 0 <= w < s.feed_event_wallets.len() implies (
    #[trigger] s.feed_event_wallets[w]).feed_event_id < s.feed_events.len() by {
        let i = w / 2;
        assert(s.purchases[i].id == i);
        assert(w == 2 * i || w == 2 * i + 1);
    }
}

// ----- links point at matching purchases --------------------------------

/// The purchase named by `purchase_id` is stored and trades the given
/// metadata through the given auction house.
pub open spec fn link_holds(
    s: StoreView,
    purchase_id: Option<nat>,
    metadata: Seq<char>,
    auction_house: Seq<char>,
) -> bool {
    purchase_id matches Some(p) ==> p < s.purchases.len() && s.purchases[p as int].metadata
        == metadata && s.purchases[p as int].auction_house == auction_house
}

/// Every listing and offer that names a purchase names a stored one with
/// its own metadata and auction house.
pub open spec fn linked(s: StoreView) -> bool {
    &&& forall|i: int|
        0 <= i < s.listings.len() ==> link_holds(
            s,
            (#[trigger] s.listings[i]).purchase_id,
            s.listings[i].metadata,
            s.listings[i].auction_house,
        )
    &&& forall|i: int|
        0 <= i < s.offers.len() ==> link_holds(
            s,
            (#[trigger] s.offers[i]).purchase_id,
            s.offers[i].metadata,
            s.offers[i].auction_house,
        )
}

/// In the store without rows the links hold, and no row is both sold and
/// canceled.
pub proof fn lemma_empty_store_is_linked_and_exclusive()
    ensures
        StoreView::empty().wf(),
        linked(StoreView::empty()),
        exclusive(StoreView::empty()),
{
}

/// The listing under the trade state of `row` is sold and differs from
/// `row` in metadata or auction house.
pub open spec fn moves_sold_listing(s: StoreView, row: ListingView) -> bool {
    match first_index(s.listings, listing_at(row.trade_state)) {
        Some(i) => s.listings[i].purchase_id is Some && (s.listings[i].metadata != row.metadata
            || s.listings[i].auction_house != row.auction_house),
        None => false,
    }
}

/// The offer under the trade state of `row` is taken and differs from
/// `row` in metadata or auction house.
pub open spec fn moves_taken_offer(s: StoreView, row: OfferView) -> bool {
    match first_index(s.offers, offer_at(row.trade_state)) {
        Some(i) => s.offers[i].purchase_id is Some && (s.offers[i].metadata != row.metadata
            || s.offers[i].auction_house != row.auction_house),
        None => false,
    }
}

/// A purchase found for a new listing is stored and matches it.
pub proof fn lemma_found_sale_matches(s: StoreView, l: ListingView)
    ensures
        s.find_sale(l) matches Some(p) ==> p < s.purchases.len() && listing_matches(
            l,
            s.purchases[p as int],
        ) && s.purchases[p as int].slot == l.slot,
{
    if first_index(s.purchases, sale_of(l)) is Some {
        lemma_first_index_found(s.purchases, sale_of(l));
    }
}

/// A purchase found for a new offer is stored and matches it.
pub proof fn lemma_found_purchase_matches(s: StoreView, o: OfferView)
    ensures
        s.find_purchase(o) matches Some(p) ==> p < s.purchases.len() && offer_matches(
            o,
            s.purchases[p as int],
        ) && s.purchases[p as int].slot == o.slot,
{
    if first_index(s.purchases, purchase_of(o)) is Some {
        lemma_first_index_found(s.purchases, purchase_of(o));
    }
}

/// Writing a listing keeps the links, unless it moves a sold listing to
/// another metadata or auction house.
pub proof fn lemma_upsert_listing_keeps_links(s: StoreView, row: ListingView)
    requires
        s.wf(),
        linked(s),
        link_holds(s, row.purchase_id, row.metadata, row.auction_house),
        !moves_sold_listing(s, row),
    ensures
        linked(s.upsert_listing(row)),
{
    let pred = listing_at(row.trade_state);
    if first_index(s.listings, pred) is Some {
        lemma_first_index_found(s.listings, pred);
    }
}

/// Writing an offer keeps the links, unless it moves a taken offer to
/// another metadata or auction house.
pub proof fn lemma_upsert_offer_keeps_links(s: StoreView, row: OfferView)
    requires
        s.wf(),
        linked(s),
        link_holds(s, row.purchase_id, row.metadata, row.auction_house),
        !moves_taken_offer(s, row),
    ensures
        linked(s.upsert_offer(row)),
{
    let pred = offer_at(row.trade_state);
    if first_index(s.offers, pred) is Some {
        lemma_first_index_found(s.offers, pred);
    }
}

/// Writing a purchase keeps the links.
pub proof fn lemma_upsert_purchase_keeps_links(s: StoreView, row: PurchaseView)
    requires
        s.wf(),
        linked(s),
    ensures
        linked(s.upsert_purchase(row)),
{
    let pred = trade_of(row);
    let id = s.purchase_id(row);
    let put = s.put_purchase(row);
    if first_index(s.purchases, pred) is Some {
        lemma_first_index_found(s.purchases, pred);
    } else {
        lemma_first_index_none(s.purchases, pred);
    }
    assert(id < put.purchases.len());
    assert(put.purchases[id as int].metadata == row.metadata);
    assert(put.purchases[id as int].auction_house == row.auction_house);
    assert(linked(put)) by {
        assert forall|i: int| 0 <= i < put.listings.len() implies link_holds(
            put,
            (#[trigger] put.listings[i]).purchase_id,
            put.listings[i].metadata,
            put.listings[i].auction_house,
        ) by {
            assert(link_holds(
                s,
                s.listings[i].purchase_id,
                s.listings[i].metadata,
                s.listings[i].auction_house,
            ));
        }
        assert forall|i: int| 0 <= i < put.offers.len() implies link_holds(
            put,
            (#[trigger] put.offers[i]).purchase_id,
            put.offers[i].metadata,
            put.offers[i].auction_house,
        ) by {
            assert(link_holds(
                s,
                s.offers[i].purchase_id,
                s.offers[i].metadata,
                s.offers[i].auction_house,
            ));
        }
    }
    let done = put.link_purchase(row, id);
    assert(linked(done)) by {
        assert forall|i: int| 0 <= i < done.listings.len() implies link_holds(
            done,
            (#[trigger] done.listings[i]).purchase_id,
            done.listings[i].metadata,
            done.listings[i].auction_house,
        ) by {
            assert(link_holds(
                put,
                put.listings[i].purchase_id,
                put.listings[i].metadata,
                put.listings[i].auction_house,
            ));
        }
        assert forall|i: int| 0 <= i < done.offers.len() implies link_holds(
            done,
            (#[trigger] done.offers[i]).purchase_id,
            done.offers[i].metadata,
            done.offers[i].auction_house,
        ) by {
            assert(link_holds(
                put,
                put.offers[i].purchase_id,
                put.offers[i].metadata,
                put.offers[i].auction_house,
            ));
        }
    }
}

/// Canceling keeps the links.
pub proof fn lemma_cancel_keeps_links(s: StoreView, trade_state: Seq<char>, at: i64, slot: i64)
    requires
        linked(s),
    ensures
        linked(s.cancel_listing(trade_state, at, slot)),
        linked(s.cancel_offer(trade_state, at, slot)),
{
    let a = s.cancel_listing(trade_state, at, slot);
    assert forall|i: int| 0 <= i < a.listings.len() implies link_holds(
        a,
        (#[trigger] a.listings[i]).purchase_id,
        a.listings[i].metadata,
        a.listings[i].auction_house,
    ) by {
        assert(link_holds(
            s,
            s.listings[i].purchase_id,
            s.listings[i].metadata,
            s.listings[i].auction_house,
        ));
    }
    let b = s.cancel_offer(trade_state, at, slot);
    assert forall|i: int| 0 <= i < b.offers.len() implies link_holds(
        b,
        (#[trigger] b.offers[i]).purchase_id,
        b.offers[i].metadata,
        b.offers[i].auction_house,
    ) by {
        assert(link_holds(s, s.offers[i].purchase_id, s.offers[i].metadata, s.offers[i].auction_house));
    }
}

/// The instruction is a sell or a buy that passes its checks and moves a
/// sold listing, or a taken offer, to another metadata or auction house.
pub open spec fn moves_closed_row(
    s: StoreView,
    program: Seq<char>,
    data: Seq<u8>,
    accounts: Seq<Seq<char>>,
    slot: u64,
    now: i64,
) -> bool {
    &&& data.len() >= 8
    &&& instruction_outcome(s, program, data, accounts, slot, now).result is Ok
    &&& match params_of(data.subrange(8, data.len() as int)) {
        Some(p) => match kind_of(data.subrange(0, 8)) {
            Some(InstructionKind::Sell) => moves_sold_listing(
                s,
                sale_row(program, p, accounts, slot, now, None),
            ),
            Some(InstructionKind::Buy) => accounts.len() == BUY_ACCOUNTS && moves_taken_offer(
                s,
                buy_row(program, p, accounts, slot, now, None),
            ),
            _ => false,
        },
        None => false,
    }
}

/// An instruction keeps the links, unless it moves a closed row to
/// another metadata or auction house.
pub proof fn lemma_instruction_keeps_links(
    s: StoreView,
    program: Seq<char>,
    data: Seq<u8>,
    accounts: Seq<Seq<char>>,
    slot: u64,
    now: i64,
)
    requires
        s.wf(),
        linked(s),
        !moves_closed_row(s, program, data, accounts, slot, now),
    ensures
        linked(instruction_outcome(s, program, data, accounts, slot, now).store),
{
    let out = instruction_outcome(s, program, data, accounts, slot, now);
    if data.len() >= 8 && out.result is Ok {
        let body = data.subrange(8, data.len() as int);
        match kind_of(data.subrange(0, 8)) {
            Some(InstructionKind::Sell) => {
                let p = params_of(body)->0;
                let probe = sale_row(program, p, accounts, slot, now, None);
                let row = sale_row(program, p, accounts, slot, now, s.find_sale(probe));
                lemma_found_sale_matches(s, probe);
                assert(moves_sold_listing(s, row) == moves_sold_listing(s, probe));
                lemma_upsert_listing_keeps_links(s, row);
            },
            Some(InstructionKind::Buy) => {
                let p = params_of(body)->0;
                if accounts.len() == BUY_ACCOUNTS {
                    let probe = buy_row(program, p, accounts, slot, now, None);
                    let row = buy_row(program, p, accounts, slot, now, s.find_purchase(probe));
                    lemma_found_purchase_matches(s, probe);
                    assert(moves_taken_offer(s, row) == moves_taken_offer(s, probe));
                    lemma_upsert_offer_keeps_links(s, row);
                }
            },
            Some(InstructionKind::ExecuteSale) => {
                let p = params_of(body)->0;
                lemma_upsert_purchase_keeps_links(
                    s,
                    execute_sale_row(program, p, accounts, slot, now),
                );
            },
            Some(InstructionKind::CancelSell) => {
                lemma_cancel_keeps_links(s, accounts[6], now, slot as i64);
            },
            Some(InstructionKind::CancelBuy) => {
                lemma_cancel_keeps_links(s, accounts[5], now, slot as i64);
            },
            None => {},
        }
    }
}

// ----- a message delivered again changes nothing ------------------------

/// Writing the same listing twice is writing it once.
pub proof fn lemma_upsert_listing_idempotent(s: StoreView, row: ListingView)
    ensures
        s.upsert_listing(row).upsert_listing(row) == s.upsert_listing(row),
{
    let pred = listing_at(row.trade_state);
    let once = s.upsert_listing(row);
    match first_index(s.listings, pred) {
        Some(i) => {
            lemma_first_index_found(s.listings, pred);
            assert(is_first(once.listings, pred, i));
            lemma_first_index(once.listings, pred, i);
            assert(once.upsert_listing(row).listings =~= once.listings);
        },
        None => {
            lemma_first_index_none(s.listings, pred);
            let i = s.listings.len() as int;
            assert(is_first(once.listings, pred, i));
            lemma_first_index(once.listings, pred, i);
            assert(once.upsert_listing(row).listings =~= once.listings);
        },
    }
}

/// Writing the same offer twice is writing it once.
pub proof fn lemma_upsert_offer_idempotent(s: StoreView, row: OfferView)
    ensures
        s.upsert_offer(row).upsert_offer(row) == s.upsert_offer(row),
{
    let pred = offer_at(row.trade_state);
    let once = s.upsert_offer(row);
    match first_index(s.offers, pred) {
        Some(i) => {
            lemma_first_index_found(s.offers, pred);
            assert(is_first(once.offers, pred, i));
            lemma_first_index(once.offers, pred, i);
            assert(once.upsert_offer(row).offers =~= once.offers);
        },
        None => {
            lemma_first_index_none(s.offers, pred);
            let i = s.offers.len() as int;
            assert(is_first(once.offers, pred, i));
            lemma_first_index(once.offers, pred, i);
            assert(once.upsert_offer(row).offers =~= once.offers);
        },
    }
}

/// Writing the same purchase twice is writing it once: the second write
/// finds the purchase, nothing left to close, and records no feed event.
pub proof fn lemma_upsert_purchase_idempotent(s: StoreView, row: PurchaseView)
    ensures
        s.upsert_purchase(row).upsert_purchase(row) == s.upsert_purchase(row),
{
    let pred = trade_of(row);
    let once = s.upsert_purchase(row);
    let id = s.purchase_id(row) as int;
    if first_index(s.purchases, pred) is Some {
        lemma_first_index_found(s.purchases, pred);
    } else {
        lemma_first_index_none(s.purchases, pred);
    }
    assert(is_first(once.purchases, pred, id));
    lemma_first_index(once.purchases, pred, id);
    let put = once.put_purchase(row);
    assert(put.purchases =~= once.purchases);
    assert(put == once);
    lemma_no_match(once.offers, offer_awaiting(row), offer_taken(id as nat, row.slot));
    lemma_no_match(once.listings, listing_awaiting(row), listing_sold(id as nat, row.slot));
}

/// Canceling twice is canceling once.
pub proof fn lemma_cancel_idempotent(s: StoreView, trade_state: Seq<char>, at: i64, slot: i64)
    ensures
        s.cancel_listing(trade_state, at, slot).cancel_listing(trade_state, at, slot)
            == s.cancel_listing(trade_state, at, slot),
        s.cancel_offer(trade_state, at, slot).cancel_offer(trade_state, at, slot) == s.cancel_offer(
            trade_state,
            at,
            slot,
        ),
{
    let a = s.cancel_listing(trade_state, at, slot);
    assert(a.cancel_listing(trade_state, at, slot).listings =~= a.listings);
    let b = s.cancel_offer(trade_state, at, slot);
    assert(b.cancel_offer(trade_state, at, slot).offers =~= b.offers);
}

/// An instruction delivered a second time, at the same slot and time,
/// ends as it did the first time and leaves the store as the first
/// delivery left it.
pub proof fn lemma_instruction_idempotent(
    s: StoreView,
    program: Seq<char>,
    data: Seq<u8>,
    accounts: Seq<Seq<char>>,
    slot: u64,
    now: i64,
)
    ensures
        instruction_outcome(
            instruction_outcome(s, program, data, accounts, slot, now).store,
            program,
            data,
            accounts,
            slot,
            now,
        ) == instruction_outcome(s, program, data, accounts, slot, now),
{
    let out = instruction_outcome(s, program, data, accounts, slot, now);
    if data.len() >= 8 && out.result is Ok {
        let body = data.subrange(8, data.len() as int);
        match kind_of(data.subrange(0, 8)) {
            Some(InstructionKind::Sell) => {
                let p = params_of(body)->0;
                let probe = sale_row(program, p, accounts, slot, now, None);
                let row = sale_row(program, p, accounts, slot, now, s.find_sale(probe));
                assert(out.store.find_sale(probe) == s.find_sale(probe));
                lemma_upsert_listing_idempotent(s, row);
            },
            Some(InstructionKind::Buy) => {
                let p = params_of(body)->0;
                if accounts.len() == BUY_ACCOUNTS {
                    let probe = buy_row(program, p, accounts, slot, now, None);
                    let row = buy_row(program, p, accounts, slot, now, s.find_purchase(probe));
                    assert(out.store.find_purchase(probe) == s.find_purchase(probe));
                    lemma_upsert_offer_idempotent(s, row);
                }
            },
            Some(InstructionKind::ExecuteSale) => {
                let p = params_of(body)->0;
                lemma_upsert_purchase_idempotent(
                    s,
                    execute_sale_row(program, p, accounts, slot, now),
                );
            },
            Some(InstructionKind::CancelSell) => {
                lemma_cancel_idempotent(s, accounts[6], now, slot as i64);
            },
            Some(InstructionKind::CancelBuy) => {
                lemma_cancel_idempotent(s, accounts[5], now, slot as i64);
            },
            None => {},
        }
    }
}

/// The outcome of delivering one instruction `n` times in a row.
pub open spec fn delivered_times(
    s: StoreView,
    program: Seq<char>,
    data: Seq<u8>,
    accounts: Seq<Seq<char>>,
    slot: u64,
    now: i64,
    n: nat,
) -> Outcome
    decreases n,
{
    if n <= 1 {
        instruction_outcome(s, program, data, accounts, slot, now)
    } else {
        instruction_outcome(
            delivered_times(s, program, data, accounts, slot, now, (n - 1) as nat).store,
            program,
            data,
            accounts,
            slot,
            now,
        )
    }
}

/// Delivering an instruction any number of times is delivering it once.
pub proof fn lemma_replay_is_delivery(
    s: StoreView,
    program: Seq<char>,
    data: Seq<u8>,
    accounts: Seq<Seq<char>>,
    slot: u64,
    now: i64,
    n: nat,
)
    requires
        n >= 1,
    ensures
        delivered_times(s, program, data, accounts, slot, now, n) == instruction_outcome(
            s,
            program,
            data,
            accounts,
            slot,
            now,
        ),
    decreases n,
{
    if n > 1 {
        lemma_replay_is_delivery(s, program, data, accounts, slot, now, (n - 1) as nat);
        lemma_instruction_idempotent(s, program, data, accounts, slot, now);
    }
}

// ----- sold or canceled, never both -------------------------------------

/// No listing and no offer is both closed by a purchase and canceled.
pub open spec fn exclusive(s: StoreView) -> bool {
    &&& forall|i: int|
        0 <= i < s.listings.len() ==> !((#[trigger] s.listings[i]).purchase_id is Some
            && s.listings[i].canceled_at is Some)
    &&& forall|i: int|
        0 <= i < s.offers.len() ==> !((#[trigger] s.offers[i]).purchase_id is Some
            && s.offers[i].canceled_at is Some)
}

/// The listing under the trade state of `row` is canceled, and a purchase
/// is stored that `row` would be born sold by.
pub open spec fn relists_canceled(s: StoreView, row: ListingView) -> bool {
    match first_index(s.listings, listing_at(row.trade_state)) {
        Some(i) => s.listings[i].canceled_at is Some && s.listings[i].purchase_id is None
            && s.find_sale(row) is Some,
        None => false,
    }
}

/// The offer under the trade state of `row` is canceled, and a purchase
/// is stored that `row` would be born taken by.
pub open spec fn rebids_canceled(s: StoreView, row: OfferView) -> bool {
    match first_index(s.offers, offer_at(row.trade_state)) {
        Some(i) => s.offers[i].canceled_at is Some && s.offers[i].purchase_id is None
            && s.find_purchase(row) is Some,
        None => false,
    }
}

/// The instruction is a sell or a buy that passes its checks, arrives for
/// a canceled row, and finds a purchase with its own slot to close the
/// row by.
pub open spec fn revives_canceled_row(
    s: StoreView,
    program: Seq<char>,
    data: Seq<u8>,
    accounts: Seq<Seq<char>>,
    slot: u64,
    now: i64,
) -> bool {
    &&& data.len() >= 8
    &&& instruction_outcome(s, program, data, accounts, slot, now).result is Ok
    &&& match params_of(data.subrange(8, data.len() as int)) {
        Some(p) => match kind_of(data.subrange(0, 8)) {
            Some(InstructionKind::Sell) => relists_canceled(
                s,
                sale_row(program, p, accounts, slot, now, None),
            ),
            Some(InstructionKind::Buy) => accounts.len() == BUY_ACCOUNTS && rebids_canceled(
                s,
                buy_row(program, p, accounts, slot, now, None),
            ),
            _ => false,
        },
        None => false,
    }
}

/// After an instruction, no row is both sold and canceled, unless the
/// instruction revives a canceled row; and one that does leaves a row
/// that is both.
pub proof fn lemma_instruction_keeps_exclusive(
    s: StoreView,
    program: Seq<char>,
    data: Seq<u8>,
    accounts: Seq<Seq<char>>,
    slot: u64,
    now: i64,
)
    requires
        exclusive(s),
    ensures
        exclusive(instruction_outcome(s, program, data, accounts, slot, now).store)
            <==> !revives_canceled_row(s, program, data, accounts, slot, now),
{
    let out = instruction_outcome(s, program, data, accounts, slot, now);
    if data.len() >= 8 && out.result is Ok {
        let body = data.subrange(8, data.len() as int);
        match kind_of(data.subrange(0, 8)) {
            Some(InstructionKind::Sell) => {
                let p = params_of(body)->0;
                let probe = sale_row(program, p, accounts, slot, now, None);
                let pred = listing_at(probe.trade_state);
                if first_index(s.listings, pred) is Some {
                    lemma_first_index_found(s.listings, pred);
                    let i = first_index(s.listings, pred)->0;
                    if relists_canceled(s, probe) {
                        assert(out.store.listings[i].purchase_id is Some);
                        assert(out.store.listings[i].canceled_at is Some);
                    }
                }
            },
            Some(InstructionKind::Buy) => {
                let p = params_of(body)->0;
                if accounts.len() == BUY_ACCOUNTS {
                    let probe = buy_row(program, p, accounts, slot, now, None);
                    let pred = offer_at(probe.trade_state);
                    if first_index(s.offers, pred) is Some {
                        lemma_first_index_found(s.offers, pred);
                        let i = first_index(s.offers, pred)->0;
                        if rebids_canceled(s, probe) {
                            assert(out.store.offers[i].purchase_id is Some);
                            assert(out.store.offers[i].canceled_at is Some);
                        }
                    }
                }
            },
            Some(InstructionKind::ExecuteSale) => {
                let p = params_of(body)->0;
                let row = execute_sale_row(program, p, accounts, slot, now);
                let put = s.put_purchase(row);
                assert(put.listings == s.listings);
                assert(put.offers == s.offers);
            },
            Some(InstructionKind::CancelSell) => {},
            Some(InstructionKind::CancelBuy) => {},
            None => {},
        }
    }
}

// ----- what is closed stays closed --------------------------------------

/// No instruction removes a row, and none reopens a listing or an offer:
/// a purchase that closed a row stays on it, a sold row is never
/// canceled, and a cancellation is never taken back.
pub proof fn lemma_instruction_keeps_closed(
    s: StoreView,
    program: Seq<char>,
    data: Seq<u8>,
    accounts: Seq<Seq<char>>,
    slot: u64,
    now: i64,
)
    ensures
        ({
            let t = instruction_outcome(s, program, data, accounts, slot, now).store;
            &&& t.listings.len() >= s.listings.len()
            &&& t.offers.len() >= s.offers.len()
            &&& t.purchases.len() >= s.purchases.len()
            &&& forall|i: int|
                0 <= i < s.listings.len() ==> {
                    &&& (#[trigger] s.listings[i]).purchase_id is Some ==> t.listings[i].purchase_id
                        == s.listings[i].purchase_id && t.listings[i].canceled_at
                        == s.listings[i].canceled_at
                    &&& s.listings[i].canceled_at is Some ==> t.listings[i].canceled_at
                        == s.listings[i].canceled_at
                }
            &&& forall|i: int|
                0 <= i < s.offers.len() ==> {
                    &&& (#[trigger] s.offers[i]).purchase_id is Some ==> t.offers[i].purchase_id
                        == s.offers[i].purchase_id && t.offers[i].canceled_at
                        == s.offers[i].canceled_at
                    &&& s.offers[i].canceled_at is Some ==> t.offers[i].canceled_at
                        == s.offers[i].canceled_at
                }
        }),
{
    let out = instruction_outcome(s, program, data, accounts, slot, now);
    if data.len() >= 8 && out.result is Ok {
        let body = data.subrange(8, data.len() as int);
        match kind_of(data.subrange(0, 8)) {
            Some(InstructionKind::Sell) => {
                let p = params_of(body)->0;
                let probe = sale_row(program, p, accounts, slot, now, None);
                let pred = listing_at(probe.trade_state);
                if first_index(s.listings, pred) is Some {
                    lemma_first_index_found(s.listings, pred);
                }
            },
            Some(InstructionKind::Buy) => {
                let p = params_of(body)->0;
                if accounts.len() == BUY_ACCOUNTS {
                    let probe = buy_row(program, p, accounts, slot, now, None);
                    let pred = offer_at(probe.trade_state);
                    if first_index(s.offers, pred) is Some {
                        lemma_first_index_found(s.offers, pred);
                    }
                }
            },
            Some(InstructionKind::ExecuteSale) => {
                let p = params_of(body)->0;
                let row = execute_sale_row(program, p, accounts, slot, now);
                let pred = trade_of(row);
                if first_index(s.purchases, pred) is Some {
                    lemma_first_index_found(s.purchases, pred);
                }
                let put = s.put_purchase(row);
                assert(put.listings == s.listings);
                assert(put.offers == s.offers);
            },
            Some(InstructionKind::CancelSell) => {},
            Some(InstructionKind::CancelBuy) => {},
            None => {},
        }
    }
}

/// An execute-sale that passes its checks closes every open listing and
/// every open offer that its purchase fulfils, by that purchase, and
/// leaves every other listing and offer as it is.
pub proof fn lemma_execute_sale_closes(
    s: StoreView,
    program: Seq<char>,
    data: Seq<u8>,
    accounts: Seq<Seq<char>>,
    slot: u64,
    now: i64,
)
    requires
        execute_sale_outcome(s, program, data, accounts, slot, now).result is Ok,
    ensures
        ({
            let p = execute_sale_row(program, params_of(data)->0, accounts, slot, now);
            let t = execute_sale_outcome(s, program, data, accounts, slot, now).store;
            &&& t.listings.len() == s.listings.len()
            &&& t.offers.len() == s.offers.len()
            &&& s.purchase_id(p) < t.purchases.len()
            &&& same_trade(t.purchases[s.purchase_id(p) as int], p)
            &&& forall|i: int|
                0 <= i < s.listings.len() ==> #[trigger] t.listings[i] == if listing_matches(
                    s.listings[i],
                    p,
                ) && listing_open(s.listings[i]) {
                    ListingView {
                        purchase_id: Some(s.purchase_id(p)),
                        slot: slot as i64,
                        ..s.listings[i]
                    }
                } else {
                    s.listings[i]
                }
            &&& forall|i: int|
                0 <= i < s.offers.len() ==> #[trigger] t.offers[i] == if offer_matches(
                    s.offers[i],
                    p,
                ) && offer_open(s.offers[i]) {
                    OfferView { purchase_id: Some(s.purchase_id(p)), slot: slot as i64, ..s.offers[i] }
                } else {
                    s.offers[i]
                }
        }),
{
    let p = execute_sale_row(program, params_of(data)->0, accounts, slot, now);
    let pred = trade_of(p);
    if first_index(s.purchases, pred) is Some {
        lemma_first_index_found(s.purchases, pred);
    }
    let put = s.put_purchase(p);
    assert(put.listings == s.listings);
    assert(put.offers == s.offers);
}

/// A sell that passes its checks while a purchase with its seller,
/// auction house, metadata, price, size and slot is stored leaves its
/// listing closed by a purchase.
pub proof fn lemma_late_sale_is_born_sold(
    s: StoreView,
    program: Seq<char>,
    data: Seq<u8>,
    accounts: Seq<Seq<char>>,
    slot: u64,
    now: i64,
)
    requires
        sale_outcome(s, program, data, accounts, slot, now).result is Ok,
        s.find_sale(sale_row(program, params_of(data)->0, accounts, slot, now, None)) is Some,
    ensures
        ({
            let row = sale_row(program, params_of(data)->0, accounts, slot, now, None);
            let t = sale_outcome(s, program, data, accounts, slot, now).store;
            &&& s.listing_id(row) < t.listings.len()
            &&& t.listings[s.listing_id(row) as int].trade_state == accounts[8]
            &&& t.listings[s.listing_id(row) as int].purchase_id is Some
        }),
{
    let row = sale_row(program, params_of(data)->0, accounts, slot, now, None);
    let pred = listing_at(row.trade_state);
    if first_index(s.listings, pred) is Some {
        lemma_first_index_found(s.listings, pred);
    }
}

/// A buy that passes its checks while a purchase with its buyer, auction
/// house, metadata, price, size and slot is stored leaves its offer
/// closed by a purchase.
pub proof fn lemma_late_buy_is_born_taken(
    s: StoreView,
    program: Seq<char>,
    data: Seq<u8>,
    accounts: Seq<Seq<char>>,
    slot: u64,
    now: i64,
)
    requires
        accounts.len() == BUY_ACCOUNTS,
        buy_outcome(s, program, data, accounts, slot, now).result is Ok,
        s.find_purchase(buy_row(program, params_of(data)->0, accounts, slot, now, None)) is Some,
    ensures
        ({
            let row = buy_row(program, params_of(data)->0, accounts, slot, now, None);
            let t = buy_outcome(s, program, data, accounts, slot, now).store;
            &&& s.offer_id(row) < t.offers.len()
            &&& t.offers[s.offer_id(row) as int].trade_state == accounts[7]
            &&& t.offers[s.offer_id(row) as int].purchase_id is Some
        }),
{
    let row = buy_row(program, params_of(data)->0, accounts, slot, now, None);
    let pred = offer_at(row.trade_state);
    if first_index(s.offers, pred) is Some {
        lemma_first_index_found(s.offers, pred);
    }
}

// ----- any order of delivery --------------------------------------------

/// One instruction message as the feed delivers it, with the time at
/// which it is handled.
pub struct Delivery {
    pub data: Seq<u8>,
    pub accounts: Seq<Seq<char>>,
    pub slot: u64,
    pub now: i64,
}

/// The store after one delivery.
pub open spec fn deliver(s: StoreView, program: Seq<char>, m: Delivery) -> StoreView {
    instruction_outcome(s, program, m.data, m.accounts, m.slot, m.now).store
}

/// The store after the deliveries `ms`, in order.
pub open spec fn deliver_all(s: StoreView, program: Seq<char>, ms: Seq<Delivery>) -> StoreView
    decreases ms.len(),
{
    if ms.len() == 0 {
        s
    } else {
        deliver(deliver_all(s, program, ms.drop_last()), program, ms.last())
    }
}

/// Whatever is delivered, in whatever order, a well-formed store stays
/// well formed.
pub proof fn lemma_deliveries_keep_wf(s: StoreView, program: Seq<char>, ms: Seq<Delivery>)
    requires
        s.wf(),
    ensures
        deliver_all(s, program, ms).wf(),
    decreases ms.len(),
{
    if ms.len() > 0 {
        lemma_deliveries_keep_wf(s, program, ms.drop_last());
        let before = deliver_all(s, program, ms.drop_last());
        let m = ms.last();
        lemma_instruction_keeps_wf(before, program, m.data, m.accounts, m.slot, m.now);
    }
}

/// An instruction keeps a well-formed store well formed.
pub proof fn lemma_instruction_keeps_wf(
    s: StoreView,
    program: Seq<char>,
    data: Seq<u8>,
    accounts: Seq<Seq<char>>,
    slot: u64,
    now: i64,
)
    requires
        s.wf(),
    ensures
        instruction_outcome(s, program, data, accounts, slot, now).store.wf(),
{
    let out = instruction_outcome(s, program, data, accounts, slot, now);
    if data.len() >= 8 && out.result is Ok {
        let body = data.subrange(8, data.len() as int);
        match kind_of(data.subrange(0, 8)) {
            Some(InstructionKind::Sell) => {
                let p = params_of(body)->0;
                let probe = sale_row(program, p, accounts, slot, now, None);
                lemma_upsert_listing_wf(
                    s,
                    sale_row(program, p, accounts, slot, now, s.find_sale(probe)),
                );
            },
            Some(InstructionKind::Buy) => {
                let p = params_of(body)->0;
                if accounts.len() == BUY_ACCOUNTS {
                    let probe = buy_row(program, p, accounts, slot, now, None);
                    lemma_upsert_offer_wf(
                        s,
                        buy_row(program, p, accounts, slot, now, s.find_purchase(probe)),
                    );
                }
            },
            Some(InstructionKind::ExecuteSale) => {
                let p = params_of(body)->0;
                lemma_upsert_purchase_wf(s, execute_sale_row(program, p, accounts, slot, now));
            },
            Some(InstructionKind::CancelSell) => {
                lemma_cancel_wf(s, accounts[6], now, slot as i64);
            },
            Some(InstructionKind::CancelBuy) => {
                lemma_cancel_wf(s, accounts[5], now, slot as i64);
            },
            None => {},
        }
    }
}

/// Whatever is delivered, in whatever order, no row is both sold and
/// canceled at the end, as long as no delivery revives a canceled row.
pub proof fn lemma_deliveries_keep_exclusive(s: StoreView, program: Seq<char>, ms: Seq<Delivery>)
    requires
        exclusive(s),
        forall|k: int|
            0 <= k < ms.len() ==> !revives_canceled_row(
                deliver_all(s, program, #[trigger] ms.take(k)),
                program,
                ms[k].data,
                ms[k].accounts,
                ms[k].slot,
                ms[k].now,
            ),
    ensures
        exclusive(deliver_all(s, program, ms)),
    decreases ms.len(),
{
    if ms.len() > 0 {
        let front = ms.drop_last();
        assert forall|k: int| 0 <= k < front.len() implies !revives_canceled_row(
            deliver_all(s, program, #[trigger] front.take(k)),
            program,
            front[k].data,
            front[k].accounts,
            front[k].slot,
            front[k].now,
        ) by {
            assert(front.take(k) =~= ms.take(k));
        }
        lemma_deliveries_keep_exclusive(s, program, front);
        let k = ms.len() - 1;
        assert(ms.take(k) =~= front);
        let m = ms.last();
        lemma_instruction_keeps_exclusive(
            deliver_all(s, program, front),
            program,
            m.data,
            m.accounts,
            m.slot,
            m.now,
        );
    }
}

/// Whatever is delivered afterwards, in whatever order, a listing or an
/// offer that a purchase has closed keeps that purchase and is never
/// canceled.
pub proof fn lemma_deliveries_keep_closed(s: StoreView, program: Seq<char>, ms: Seq<Delivery>)
    ensures
        ({
            let t = deliver_all(s, program, ms);
            &&& t.listings.len() >= s.listings.len()
            &&& t.offers.len() >= s.offers.len()
            &&& forall|i: int|
                0 <= i < s.listings.len() && (#[trigger] s.listings[i]).purchase_id is Some
                    ==> t.listings[i].purchase_id == s.listings[i].purchase_id
                    && t.listings[i].canceled_at == s.listings[i].canceled_at
            &&& forall|i: int|
                0 <= i < s.offers.len() && (#[trigger] s.offers[i]).purchase_id is Some
                    ==> t.offers[i].purchase_id == s.offers[i].purchase_id
                    && t.offers[i].canceled_at == s.offers[i].canceled_at
        }),
    decreases ms.len(),
{
    if ms.len() > 0 {
        lemma_deliveries_keep_closed(s, program, ms.drop_last());
        let before = deliver_all(s, program, ms.drop_last());
        let m = ms.last();
        lemma_instruction_keeps_closed(before, program, m.data, m.accounts, m.slot, m.now);
        let t = deliver_all(s, program, ms);
        assert forall|i: int|
            0 <= i < s.listings.len() && (#[trigger] s.listings[i]).purchase_id is Some implies t.listings[i].purchase_id
            == s.listings[i].purchase_id && t.listings[i].canceled_at
            == s.listings[i].canceled_at by {
            assert(before.listings[i].purchase_id is Some);
        }
        assert forall|i: int|
            0 <= i < s.offers.len() && (#[trigger] s.offers[i]).purchase_id is Some implies t.offers[i].purchase_id
            == s.offers[i].purchase_id && t.offers[i].canceled_at == s.offers[i].canceled_at by {
            assert(before.offers[i].purchase_id is Some);
        }
    }
}

/// Once an execute-sale has passed its checks, every listing and offer
/// that was open and fulfilled by its purchase when it arrived is closed
/// by that purchase and not canceled, whatever is delivered afterwards
/// and in whatever order.
pub proof fn lemma_executed_sale_is_final(
    s: StoreView,
    program: Seq<char>,
    sale: Delivery,
    later: Seq<Delivery>,
)
    requires
        sale.data.len() >= 8,
        kind_of(sale.data.subrange(0, 8)) == Some(InstructionKind::ExecuteSale),
        instruction_outcome(s, program, sale.data, sale.accounts, sale.slot, sale.now).result is Ok,
    ensures
        ({
            let p = execute_sale_row(
                program,
                params_of(sale.data.subrange(8, sale.data.len() as int))->0,
                sale.accounts,
                sale.slot,
                sale.now,
            );
            let t = deliver_all(deliver(s, program, sale), program, later);
            &&& t.listings.len() >= s.listings.len()
            &&& t.offers.len() >= s.offers.len()
            &&& forall|i: int|
                0 <= i < s.listings.len() && listing_matches(#[trigger] s.listings[i], p)
                    && listing_open(s.listings[i]) ==> t.listings[i].purchase_id == Some(
                    s.purchase_id(p),
                ) && t.listings[i].canceled_at is None
            &&& forall|i: int|
                0 <= i < s.offers.len() && offer_matches(#[trigger] s.offers[i], p) && offer_open(
                    s.offers[i],
                ) ==> t.offers[i].purchase_id == Some(s.purchase_id(p)) && t.offers[i].canceled_at
                    is None
        }),
{
    let body = sale.data.subrange(8, sale.data.len() as int);
    let p = execute_sale_row(program, params_of(body)->0, sale.accounts, sale.slot, sale.now);
    let mid = deliver(s, program, sale);
    lemma_execute_sale_closes(s, program, body, sale.accounts, sale.slot, sale.now);
    lemma_deliveries_keep_closed(mid, program, later);
    let t = deliver_all(mid, program, later);
    assert forall|i: int|
        0 <= i < s.listings.len() && listing_matches(#[trigger] s.listings[i], p) && listing_open(
            s.listings[i],
        ) implies t.listings[i].purchase_id == Some(s.purchase_id(p)) && t.listings[i].canceled_at
        is None by {
        assert(mid.listings[i].purchase_id == Some(s.purchase_id(p)));
    }
    assert forall|i: int|
        0 <= i < s.offers.len() && offer_matches(#[trigger] s.offers[i], p) && offer_open(
            s.offers[i],
        ) implies t.offers[i].purchase_id == Some(s.purchase_id(p)) && t.offers[i].canceled_at
        is None by {
        assert(mid.offers[i].purchase_id == Some(s.purchase_id(p)));
    }
}

// ----- purchase tickets -------------------------------------------------

/// A purchase ticket keeps a well-formed store well formed and keeps the
/// links.
pub proof fn lemma_ticket_keeps_wf_and_links(
    s: StoreView,
    program: Seq<char>,
    key: Seq<char>,
    t: PurchaseTicketView,
    slot: u64,
    write_version: u64,
)
    requires
        s.wf(),
    ensures
        ticket_outcome(s, program, key, t, slot, write_version).store.wf(),
        linked(s) ==> linked(ticket_outcome(s, program, key, t, slot, write_version).store),
{
    let row = ticket_row(key, t, slot, write_version);
    let s1 = s.upsert_ticket(row);
    lemma_reward_tables_wf(s);
    assert(s1.wf());
    assert(linked(s) ==> linked(s1));
    let paid = payout_step(s1, t.price, row);
    lemma_reward_tables_wf(s1);
    match s1.reward_center(row.reward_center_address) {
        Some(center) => {
            if payout_of(t.price, center) is Ok {
                let pr = payout_row(row, center, payout_of(t.price, center)->Ok_0);
                assert(s1.insert_payout(pr).wf());
            }
        },
        None => {},
    }
    assert(paid.store.wf());
    assert(linked(s) ==> linked(paid.store));
    match paid.store.auction_house_of(row.reward_center_address) {
        Some(house) => {
            let p = ticket_purchase(program, row, house.address);
            lemma_upsert_purchase_wf(paid.store, p);
            if linked(s) {
                lemma_upsert_purchase_keeps_links(paid.store, p);
            }
        },
        None => {},
    }
}

/// A purchase ticket delivered a second time, at the same slot and write
/// version, ends as it did the first time and leaves the store as the
/// first delivery left it.
pub proof fn lemma_ticket_idempotent(
    s: StoreView,
    program: Seq<char>,
    key: Seq<char>,
    t: PurchaseTicketView,
    slot: u64,
    write_version: u64,
)
    ensures
        ticket_outcome(
            ticket_outcome(s, program, key, t, slot, write_version).store,
            program,
            key,
            t,
            slot,
            write_version,
        ) == ticket_outcome(s, program, key, t, slot, write_version),
{
    let out = ticket_outcome(s, program, key, t, slot, write_version);
    if fits_i64(t.price) && fits_i64(t.token_size) && fits_i64(slot) && fits_i64(write_version) {
        let row = ticket_row(key, t, slot, write_version);
        let s1 = s.upsert_ticket(row);
        let paid = payout_step(s1, t.price, row);
        let u = out.store;
        // The second delivery finds the ticket where the first one left it.
        let at = ticket_at(row.address);
        let slot_of_ticket = match first_index(s.purchase_tickets, at) {
            Some(i) => i,
            None => s.purchase_tickets.len() as int,
        };
        if first_index(s.purchase_tickets, at) is Some {
            lemma_first_index_found(s.purchase_tickets, at);
        } else {
            lemma_first_index_none(s.purchase_tickets, at);
        }
        assert(u.purchase_tickets == s1.purchase_tickets) by {
            lemma_ticket_steps_frame(s1, program, t.price, row);
        }
        assert(is_first(u.purchase_tickets, at, slot_of_ticket));
        lemma_first_index(u.purchase_tickets, at, slot_of_ticket);
        assert(u.upsert_ticket(row).purchase_tickets =~= u.purchase_tickets);
        assert(u.upsert_ticket(row) == u);
        // It finds the reward center and the auction house unchanged, and
        // the payout already there.
        lemma_ticket_steps_frame(s1, program, t.price, row);
        assert(u.reward_centers == s1.reward_centers);
        assert(u.auction_houses == s1.auction_houses);
        match s1.reward_center(row.reward_center_address) {
            Some(center) => {
                if payout_of(t.price, center) is Ok {
                    let pr = payout_row(row, center, payout_of(t.price, center)->Ok_0);
                    let pf = payout_for(pr.purchase_ticket);
                    assert(u.reward_payouts == s1.insert_payout(pr).reward_payouts);
                    if first_index(s1.reward_payouts, pf) is None {
                        lemma_first_index_none(s1.reward_payouts, pf);
                        assert(is_first(u.reward_payouts, pf, s1.reward_payouts.len() as int));
                        lemma_first_index(u.reward_payouts, pf, s1.reward_payouts.len() as int);
                    }
                    assert(u.insert_payout(pr) == u);
                }
            },
            None => {},
        }
        assert(payout_step(u, t.price, row) == (Outcome { store: u, result: paid.result }));
        if paid.result is Ok {
            match paid.store.auction_house_of(row.reward_center_address) {
                Some(house) => {
                    let p = ticket_purchase(program, row, house.address);
                    assert(u == paid.store.upsert_purchase(p));
                    lemma_upsert_purchase_idempotent(paid.store, p);
                },
                None => {},
            }
        }
    }
}

/// The payout and purchase steps of a ticket leave the tickets, the
/// reward centers and the auction houses as they are, and the purchase
/// step leaves the payouts as they are.
proof fn lemma_ticket_steps_frame(
    s1: StoreView,
    program: Seq<char>,
    price: u64,
    row: RewardsPurchaseTicketView,
)
    ensures
        ({
            let paid = payout_step(s1, price, row);
            let done = purchase_step(paid.store, program, row);
            &&& paid.store.purchase_tickets == s1.purchase_tickets
            &&& paid.store.reward_centers == s1.reward_centers
            &&& paid.store.auction_houses == s1.auction_houses
            &&& paid.store.purchases == s1.purchases
            &&& done.store.purchase_tickets == s1.purchase_tickets
            &&& done.store.reward_centers == s1.reward_centers
            &&& done.store.auction_houses == s1.auction_houses
            &&& done.store.reward_payouts == paid.store.reward_payouts
        }),
{
}

/// Whatever is delivered, in whatever order, the links hold at the end,
/// as long as no delivery moves a closed row to another metadata or
/// auction house.
pub proof fn lemma_deliveries_keep_links(s: StoreView, program: Seq<char>, ms: Seq<Delivery>)
    requires
        s.wf(),
        linked(s),
        forall|k: int|
            0 <= k < ms.len() ==> !moves_closed_row(
                deliver_all(s, program, #[trigger] ms.take(k)),
                program,
                ms[k].data,
                ms[k].accounts,
                ms[k].slot,
                ms[k].now,
            ),
    ensures
        linked(deliver_all(s, program, ms)),
    decreases ms.len(),
{
    if ms.len() > 0 {
        let front = ms.drop_last();
        assert forall|k: int| 0 <= k < front.len() implies !moves_closed_row(
            deliver_all(s, program, #[trigger] front.take(k)),
            program,
            front[k].data,
            front[k].accounts,
            front[k].slot,
            front[k].now,
        ) by {
            assert(front.take(k) =~= ms.take(k));
        }
        lemma_deliveries_keep_links(s, program, front);
        lemma_deliveries_keep_wf(s, program, front);
        let k = ms.len() - 1;
        assert(ms.take(k) =~= front);
        let m = ms.last();
        lemma_instruction_keeps_links(
            deliver_all(s, program, front),
            program,
            m.data,
            m.accounts,
            m.slot,
            m.now,
        );
    }
}

// ----- sales at a slot of their own ---------------------------------------

/// The instruction that a delivery names, if it names one.
pub open spec fn delivery_kind(m: Delivery) -> Option<InstructionKind> {
    if m.data.len() < 8 {
        None
    } else {
        kind_of(m.data.subrange(0, 8))
    }
}

/// Every stored purchase was last written at the slot `t`.
pub open spec fn purchases_at_slot(s: StoreView, t: int) -> bool {
    forall|i: int| 0 <= i < s.purchases.len() ==> (#[trigger] s.purchases[i]).slot == t
}

/// The delivery is an execute-sale at the slot `t`, or a sell or a buy at
/// another slot, or neither of the three.
pub open spec fn keeps_sale_slot(m: Delivery, t: int) -> bool {
    match delivery_kind(m) {
        Some(InstructionKind::ExecuteSale) => m.slot == t,
        Some(InstructionKind::Sell) => m.slot != t,
        Some(InstructionKind::Buy) => m.slot != t,
        _ => true,
    }
}

/// While every sale arrives at one slot and every sell and buy at
/// another, a delivery keeps every row from being both sold and
/// canceled.
pub proof fn lemma_delivery_at_own_slot_keeps_exclusive(
    s: StoreView,
    program: Seq<char>,
    m: Delivery,
    t: int,
)
    requires
        exclusive(s),
        purchases_at_slot(s, t),
        keeps_sale_slot(m, t),
    ensures
        exclusive(deliver(s, program, m)),
        purchases_at_slot(deliver(s, program, m), t),
{
    let out = instruction_outcome(s, program, m.data, m.accounts, m.slot, m.now);
    lemma_instruction_keeps_exclusive(s, program, m.data, m.accounts, m.slot, m.now);
    if m.data.len() >= 8 && out.result is Ok {
        let body = m.data.subrange(8, m.data.len() as int);
        match kind_of(m.data.subrange(0, 8)) {
            Some(InstructionKind::Sell) => {
                let p = params_of(body)->0;
                lemma_found_sale_matches(s, sale_row(program, p, m.accounts, m.slot, m.now, None));
            },
            Some(InstructionKind::Buy) => {
                let p = params_of(body)->0;
                if m.accounts.len() == BUY_ACCOUNTS {
                    lemma_found_purchase_matches(
                        s,
                        buy_row(program, p, m.accounts, m.slot, m.now, None),
                    );
                }
            },
            Some(InstructionKind::ExecuteSale) => {
                let p = params_of(body)->0;
                let row = execute_sale_row(program, p, m.accounts, m.slot, m.now);
                if first_index(s.purchases, trade_of(row)) is Some {
                    lemma_first_index_found(s.purchases, trade_of(row));
                }
                let put = s.put_purchase(row);
                assert(purchases_at_slot(put, t));
            },
            _ => {},
        }
    }
}

/// Whatever is delivered, in whatever order, no row is both sold and
/// canceled at the end, as long as every sale arrives at one slot and
/// every sell and buy at another.
pub proof fn lemma_deliveries_at_own_slots_keep_exclusive(
    s: StoreView,
    program: Seq<char>,
    ms: Seq<Delivery>,
    t: int,
)
    requires
        exclusive(s),
        purchases_at_slot(s, t),
        forall|k: int| 0 <= k < ms.len() ==> keeps_sale_slot(#[trigger] ms[k], t),
    ensures
        exclusive(deliver_all(s, program, ms)),
        purchases_at_slot(deliver_all(s, program, ms), t),
    decreases ms.len(),
{
    if ms.len() > 0 {
        let front = ms.drop_last();
        assert forall|k: int| 0 <= k < front.len() implies keeps_sale_slot(#[trigger] front[k], t) by {
            assert(front[k] == ms[k]);
        }
        lemma_deliveries_at_own_slots_keep_exclusive(s, program, front, t);
        assert(keeps_sale_slot(ms[ms.len() - 1], t));
        lemma_delivery_at_own_slot_keeps_exclusive(
            deliver_all(s, program, front),
            program,
            ms.last(),
            t,
        );
    }
}

// ----- burns and routed messages ----------------------------------------

/// A burn delivered a second time, at the same slot and time, ends as it
/// did the first time and leaves the store as the first delivery left it.
pub proof fn lemma_burn_idempotent(s: StoreView, accounts: Seq<Seq<char>>, slot: u64, now: i64)
    ensures
        burn_outcome(burn_outcome(s, accounts, slot, now).store, accounts, slot, now) == burn_outcome(
            s,
            accounts,
            slot,
            now,
        ),
{
    if accounts.len() == BURN_ACCOUNTS && fits_i64(slot) {
        let once = s.burn(accounts[2], now, slot as i64);
        assert(once.burn(accounts[2], now, slot as i64).metadatas =~= once.metadatas);
    }
}

/// A routed message delivered a second time ends as it did the first
/// time and leaves the store as the first delivery left it.
pub proof fn lemma_routed_message_idempotent(
    programs: Programs,
    s: StoreView,
    instruction: InstructionMessage,
    account: AccountMessage,
    now: i64,
)
    ensures
        routed_instruction(
            programs,
            routed_instruction(programs, s, instruction, now).store,
            instruction,
            now,
        ) == routed_instruction(programs, s, instruction, now),
        routed_account(programs, routed_account(programs, s, account).store, account)
            == routed_account(programs, s, account),
{
    lemma_instruction_idempotent(
        s,
        key_text(instruction.program_id),
        instruction.data@,
        key_texts(instruction.accounts@),
        instruction.slot,
        now,
    );
    match account.account {
        AccountData::PurchaseTicket(ticket) => {
            lemma_ticket_idempotent(
                s,
                key_text(account.program_id),
                key_text(account.account_key),
                ticket@,
                account.slot,
                account.write_version,
            );
        },
        AccountData::Other => {},
    }
}

} // verus!
