use marketplace_indexer::model::{Listing, Offer, Purchase};
use marketplace_indexer::store::Store;

fn listing(trade_state: &str, slot: i64) -> Listing {
    Listing {
        id: 99,
        trade_state: trade_state.to_string(),
        auction_house: "house".to_string(),
        marketplace_program: "program".to_string(),
        seller: "seller".to_string(),
        metadata: "metadata".to_string(),
        purchase_id: None,
        price: 10,
        token_size: 1,
        trade_state_bump: 254,
        created_at: 1,
        canceled_at: None,
        slot,
        write_version: None,
        expiry: None,
    }
}

fn offer(trade_state: &str, price: i64, slot: i64) -> Offer {
    Offer {
        id: 99,
        trade_state: trade_state.to_string(),
        auction_house: "house".to_string(),
        marketplace_program: "program".to_string(),
        buyer: "buyer".to_string(),
        metadata: "metadata".to_string(),
        purchase_id: None,
        price,
        token_size: 1,
        trade_state_bump: 253,
        created_at: 1,
        canceled_at: None,
        slot,
        write_version: None,
        expiry: None,
    }
}

fn purchase(buyer: &str, slot: i64) -> Purchase {
    Purchase {
        id: 99,
        buyer: buyer.to_string(),
        seller: "seller".to_string(),
        auction_house: "house".to_string(),
        marketplace_program: "program".to_string(),
        metadata: "metadata".to_string(),
        token_size: 1,
        price: 10,
        created_at: 2,
        slot,
        write_version: Some(4),
    }
}

#[test]
fn a_new_store_is_empty() {
    let store = Store::new();
    assert_eq!(store.listings().len(), 0);
    assert_eq!(store.offers().len(), 0);
    assert_eq!(store.purchases().len(), 0);
    assert_eq!(store.feed_events().len(), 0);
    assert_eq!(store.purchase_events().len(), 0);
    assert_eq!(store.feed_event_wallets().len(), 0);
    assert_eq!(store.purchase_tickets().len(), 0);
    assert_eq!(store.reward_centers().len(), 0);
    assert_eq!(store.reward_payouts().len(), 0);
    assert_eq!(store.auction_houses().len(), 0);
    assert_eq!(store.metadatas().len(), 0);
}

#[test]
fn listings_are_numbered_in_order_of_arrival() {
    let mut store = Store::new();
    assert_eq!(store.upsert_listing(listing("a", 1)), 0);
    assert_eq!(store.upsert_listing(listing("b", 1)), 1);
    assert_eq!(store.upsert_listing(listing("a", 2)), 0);
    assert_eq!(store.listings().len(), 2);
    assert_eq!(store.listings()[0].id, 0);
    assert_eq!(store.listings()[1].id, 1);
    assert_eq!(store.listings()[0].slot, 2);
}

#[test]
fn upsert_listing_keeps_what_closed_the_row() {
    let mut store = Store::new();
    store.upsert_listing(listing("a", 1));
    store.cancel_listing(&"a".to_string(), 50, 2);
    let mut again = listing("a", 3);
    again.price = 11;
    again.canceled_at = Some(60);
    store.upsert_listing(again);
    let row = &store.listings()[0];
    assert_eq!(row.canceled_at, Some(50));
    assert_eq!(row.price, 11);
    assert_eq!(row.slot, 3);
}

#[test]
fn cancel_is_conditional() {
    let mut store = Store::new();
    store.upsert_listing(listing("a", 1));
    store.upsert_offer(offer("b", 10, 1));
    store.cancel_listing(&"zzz".to_string(), 50, 2);
    store.cancel_offer(&"zzz".to_string(), 50, 2);
    assert_eq!(store.listings()[0].canceled_at, None);
    assert_eq!(store.offers()[0].canceled_at, None);
    store.cancel_listing(&"a".to_string(), 50, 2);
    store.cancel_listing(&"a".to_string(), 70, 3);
    store.cancel_offer(&"b".to_string(), 51, 4);
    store.cancel_offer(&"b".to_string(), 71, 5);
    assert_eq!(store.listings()[0].canceled_at, Some(50));
    assert_eq!(store.listings()[0].slot, 2);
    assert_eq!(store.offers()[0].canceled_at, Some(51));
    assert_eq!(store.offers()[0].slot, 4);
}

#[test]
fn upsert_purchase_creates_once_and_refreshes_after() {
    let mut store = Store::new();
    assert_eq!(store.upsert_purchase(purchase("buyer", 5)), 0);
    let mut again = purchase("buyer", 6);
    again.created_at = 3;
    again.write_version = None;
    again.marketplace_program = "other".to_string();
    assert_eq!(store.upsert_purchase(again), 0);
    assert_eq!(store.purchases().len(), 1);
    let row = &store.purchases()[0];
    assert_eq!(row.slot, 6);
    assert_eq!(row.created_at, 3);
    assert_eq!(row.write_version, None);
    assert_eq!(row.marketplace_program, "program");
    assert_eq!(store.feed_events().len(), 1);
    assert_eq!(store.purchase_events().len(), 1);
    assert_eq!(store.feed_event_wallets().len(), 2);
}

#[test]
fn upsert_purchase_closes_what_it_fulfils() {
    let mut store = Store::new();
    store.upsert_listing(listing("open", 1));
    let mut dearer = listing("dearer", 1);
    dearer.price = 11;
    store.upsert_listing(dearer);
    store.upsert_listing(listing("canceled", 1));
    store.cancel_listing(&"canceled".to_string(), 50, 2);
    store.upsert_offer(offer("bid", 10, 1));
    store.upsert_offer(offer("low bid", 9, 1));
    let mut stranger = offer("stranger", 10, 1);
    stranger.buyer = "someone else".to_string();
    store.upsert_offer(stranger);

    let id = store.upsert_purchase(purchase("buyer", 7));
    assert_eq!(store.listings()[0].purchase_id, Some(id));
    assert_eq!(store.listings()[0].slot, 7);
    assert_eq!(store.listings()[1].purchase_id, None);
    assert_eq!(store.listings()[2].purchase_id, None);
    assert_eq!(store.listings()[2].canceled_at, Some(50));
    assert_eq!(store.offers()[0].purchase_id, Some(id));
    assert_eq!(store.offers()[1].purchase_id, Some(id));
    assert_eq!(store.offers()[2].purchase_id, None);
}

#[test]
fn find_sale_asks_for_the_slot() {
    let mut store = Store::new();
    store.upsert_purchase(purchase("one", 5));
    store.upsert_purchase(purchase("two", 5));
    assert_eq!(store.find_sale(&listing("a", 5)), Some(0));
    assert_eq!(store.find_sale(&listing("a", 6)), None);
    assert_eq!(store.find_purchase(&offer("b", 10, 5)), None);
    let mut bid = offer("b", 10, 5);
    bid.buyer = "two".to_string();
    assert_eq!(store.find_purchase(&bid), Some(1));
    bid.price = 9;
    assert_eq!(store.find_purchase(&bid), None);
}

#[test]
fn every_purchase_has_one_feed_event_and_two_wallets() {
    let mut store = Store::new();
    for (i, buyer) in ["a", "b", "c"].iter().enumerate() {
        store.upsert_purchase(purchase(buyer, i as i64));
    }
    store.upsert_purchase(purchase("b", 9));
    for p in store.purchases().iter() {
        let events: Vec<_> =
            store.purchase_events().iter().filter(|e| e.purchase_id == p.id).collect();
        assert_eq!(events.len(), 1);
        let feed: Vec<_> =
            store.feed_events().iter().filter(|f| f.id == events[0].feed_event_id).collect();
        assert_eq!(feed.len(), 1);
        let wallets: Vec<_> = store
            .feed_event_wallets()
            .iter()
            .filter(|w| w.feed_event_id == feed[0].id)
            .map(|w| w.wallet_address.clone())
            .collect();
        assert_eq!(wallets, vec![p.seller.clone(), p.buyer.clone()]);
    }
}
