use marketplace_indexer::codec::{encode_instruction, InstructionKind, InstructionParams};
use marketplace_indexer::error::Error;
use marketplace_indexer::magic_eden_haus::{
    process_buy, process_cancel_buy, process_cancel_sale, process_execute_sale,
    process_instruction, process_sale, to_i64,
};
use marketplace_indexer::model::{Listing, Offer, Purchase};
use marketplace_indexer::pubkey::Pubkey;
use marketplace_indexer::store::Store;

const NOW: i64 = 1_650_000_000;

fn key(n: u8) -> Pubkey {
    Pubkey::new([n; 32])
}

fn program() -> Pubkey {
    key(200)
}

fn seller() -> Pubkey {
    key(1)
}

fn buyer() -> Pubkey {
    key(2)
}

fn metadata() -> Pubkey {
    key(3)
}

fn house() -> Pubkey {
    key(4)
}

fn listing_state() -> Pubkey {
    key(5)
}

fn offer_state() -> Pubkey {
    key(6)
}

fn filler() -> Pubkey {
    key(99)
}

fn sell_params() -> InstructionParams {
    InstructionParams {
        trade_state_bump: 254,
        escrow_payment_bump: 255,
        buyer_price: 2_000_000,
        token_size: 1,
        expiry: 0,
    }
}

fn buy_params() -> InstructionParams {
    InstructionParams { trade_state_bump: 253, ..sell_params() }
}

fn sell_accounts() -> Vec<Pubkey> {
    let mut a = vec![filler(); 12];
    a[0] = seller();
    a[5] = metadata();
    a[7] = house();
    a[8] = listing_state();
    a
}

fn buy_accounts() -> Vec<Pubkey> {
    let mut a = vec![filler(); 12];
    a[0] = buyer();
    a[3] = metadata();
    a[6] = house();
    a[7] = offer_state();
    a
}

fn execute_accounts() -> Vec<Pubkey> {
    let mut a = vec![filler(); 18];
    a[0] = buyer();
    a[1] = seller();
    a[5] = metadata();
    a[9] = house();
    a[11] = offer_state();
    a[13] = listing_state();
    a
}

fn cancel_sell_accounts() -> Vec<Pubkey> {
    let mut a = vec![filler(); 8];
    a[6] = listing_state();
    a
}

fn cancel_buy_accounts() -> Vec<Pubkey> {
    let mut a = vec![filler(); 8];
    a[5] = offer_state();
    a
}

fn sell(store: &mut Store, slot: u64) -> Result<(), Error> {
    let data = encode_instruction(InstructionKind::Sell, &sell_params());
    process_instruction(store, &program(), &data, &sell_accounts(), slot, NOW)
}

fn buy(store: &mut Store, slot: u64) -> Result<(), Error> {
    let data = encode_instruction(InstructionKind::Buy, &buy_params());
    process_instruction(store, &program(), &data, &buy_accounts(), slot, NOW)
}

fn execute(store: &mut Store, slot: u64) -> Result<(), Error> {
    let data = encode_instruction(InstructionKind::ExecuteSale, &sell_params());
    process_instruction(store, &program(), &data, &execute_accounts(), slot, NOW)
}

fn cancel_sell(store: &mut Store, slot: u64) -> Result<(), Error> {
    let data = encode_instruction(InstructionKind::CancelSell, &sell_params());
    process_instruction(store, &program(), &data, &cancel_sell_accounts(), slot, NOW)
}

fn cancel_buy(store: &mut Store, slot: u64) -> Result<(), Error> {
    let data = encode_instruction(InstructionKind::CancelBuy, &sell_params());
    process_instruction(store, &program(), &data, &cancel_buy_accounts(), slot, NOW)
}

fn listing_fields(l: &Listing) -> String {
    format!("{:?}", l)
}

fn offer_fields(o: &Offer) -> String {
    format!("{:?}", o)
}

fn purchase_fields(p: &Purchase) -> String {
    format!("{:?}", p)
}

fn assert_settled(store: &Store) {
    assert_eq!(store.purchases().len(), 1);
    let purchase = &store.purchases()[0];
    assert_eq!(purchase.buyer, buyer().to_base58());
    assert_eq!(purchase.seller, seller().to_base58());
    assert_eq!(purchase.auction_house, house().to_base58());
    assert_eq!(purchase.metadata, metadata().to_base58());
    assert_eq!(purchase.marketplace_program, program().to_base58());
    assert_eq!(purchase.price, 2_000_000);
    assert_eq!(purchase.token_size, 1);

    assert_eq!(store.listings().len(), 1);
    let listing = &store.listings()[0];
    assert_eq!(listing.trade_state, listing_state().to_base58());
    assert_eq!(listing.purchase_id, Some(purchase.id));
    assert_eq!(listing.canceled_at, None);

    assert_eq!(store.offers().len(), 1);
    let offer = &store.offers()[0];
    assert_eq!(offer.trade_state, offer_state().to_base58());
    assert_eq!(offer.purchase_id, Some(purchase.id));
    assert_eq!(offer.canceled_at, None);

    assert_eq!(store.feed_events().len(), 1);
    assert_eq!(store.purchase_events().len(), 1);
    assert_eq!(store.purchase_events()[0].purchase_id, purchase.id);
    assert_eq!(store.purchase_events()[0].feed_event_id, store.feed_events()[0].id);
    let wallets: Vec<(String, u64)> = store
        .feed_event_wallets()
        .iter()
        .map(|w| (w.wallet_address.clone(), w.feed_event_id))
        .collect();
    assert_eq!(wallets.len(), 2);
    assert!(wallets.contains(&(buyer().to_base58(), store.feed_events()[0].id)));
    assert!(wallets.contains(&(seller().to_base58(), store.feed_events()[0].id)));
}

fn scenario_one() -> Store {
    let mut store = Store::new();
    assert_eq!(sell(&mut store, 100), Ok(()));
    assert_eq!(buy(&mut store, 101), Ok(()));
    assert_eq!(execute(&mut store, 102), Ok(()));
    store
}

#[test]
fn sell_buy_execute_sale_in_order() {
    let store = scenario_one();
    assert_settled(&store);
    let listing = &store.listings()[0];
    assert_eq!(listing.seller, seller().to_base58());
    assert_eq!(listing.metadata, metadata().to_base58());
    assert_eq!(listing.auction_house, house().to_base58());
    assert_eq!(listing.marketplace_program, program().to_base58());
    assert_eq!(listing.price, 2_000_000);
    assert_eq!(listing.token_size, 1);
    assert_eq!(listing.trade_state_bump, 254);
    assert_eq!(listing.expiry, None);
    assert_eq!(listing.created_at, NOW);
    assert_eq!(listing.slot, 102);
    let offer = &store.offers()[0];
    assert_eq!(offer.buyer, buyer().to_base58());
    assert_eq!(offer.trade_state_bump, 253);
    assert_eq!(offer.slot, 102);
    assert_eq!(store.purchases()[0].slot, 102);
    assert_eq!(store.purchases()[0].write_version, None);
}

#[test]
fn execute_sale_before_sell_and_buy_at_one_slot() {
    let mut store = Store::new();
    assert_eq!(execute(&mut store, 100), Ok(()));
    assert_eq!(store.feed_events().len(), 1);
    assert_eq!(sell(&mut store, 100), Ok(()));
    assert_eq!(buy(&mut store, 100), Ok(()));
    assert_settled(&store);
}

#[test]
fn execute_sale_before_sell_and_buy_at_other_slots() {
    let mut store = Store::new();
    assert_eq!(execute(&mut store, 102), Ok(()));
    assert_eq!(sell(&mut store, 100), Ok(()));
    assert_eq!(buy(&mut store, 101), Ok(()));
    // The purchase is looked up by the slot of the sell and of the buy,
    // so neither row finds the purchase of slot 102.
    assert_eq!(store.purchases().len(), 1);
    assert_eq!(store.feed_events().len(), 1);
    assert_eq!(store.feed_event_wallets().len(), 2);
    assert_eq!(store.listings()[0].purchase_id, None);
    assert_eq!(store.offers()[0].purchase_id, None);
    assert_eq!(store.listings()[0].canceled_at, None);
    assert_eq!(store.offers()[0].canceled_at, None);
    // The execute-sale delivered again closes both, with no new feed event.
    assert_eq!(execute(&mut store, 102), Ok(()));
    assert_settled(&store);
}

#[test]
fn cancel_sell_after_sell() {
    let mut store = Store::new();
    assert_eq!(sell(&mut store, 100), Ok(()));
    assert_eq!(cancel_sell(&mut store, 101), Ok(()));
    assert_eq!(store.listings().len(), 1);
    let listing = &store.listings()[0];
    assert_eq!(listing.trade_state, listing_state().to_base58());
    assert_eq!(listing.canceled_at, Some(NOW));
    assert_eq!(listing.slot, 101);
    assert_eq!(listing.purchase_id, None);
    assert_eq!(store.purchases().len(), 0);
    assert_eq!(store.feed_events().len(), 0);
    assert_eq!(store.purchase_events().len(), 0);
    assert_eq!(store.feed_event_wallets().len(), 0);
}

#[test]
fn cancel_buy_after_buy() {
    let mut store = Store::new();
    assert_eq!(buy(&mut store, 100), Ok(()));
    assert_eq!(cancel_buy(&mut store, 101), Ok(()));
    let offer = &store.offers()[0];
    assert_eq!(offer.canceled_at, Some(NOW));
    assert_eq!(offer.slot, 101);
    assert_eq!(offer.purchase_id, None);
    assert_eq!(store.purchases().len(), 0);
}

#[test]
fn replay_of_each_message_in_place() {
    let once = scenario_one();
    let mut store = Store::new();
    for _ in 0..2 {
        assert_eq!(sell(&mut store, 100), Ok(()));
    }
    for _ in 0..2 {
        assert_eq!(buy(&mut store, 101), Ok(()));
    }
    for _ in 0..2 {
        assert_eq!(execute(&mut store, 102), Ok(()));
    }
    assert_settled(&store);
    assert_eq!(listing_fields(&store.listings()[0]), listing_fields(&once.listings()[0]));
    assert_eq!(offer_fields(&store.offers()[0]), offer_fields(&once.offers()[0]));
    assert_eq!(purchase_fields(&store.purchases()[0]), purchase_fields(&once.purchases()[0]));
}

#[test]
fn replay_in_arbitrary_order() {
    let mut store = Store::new();
    assert_eq!(sell(&mut store, 100), Ok(()));
    assert_eq!(buy(&mut store, 101), Ok(()));
    assert_eq!(execute(&mut store, 102), Ok(()));
    assert_eq!(buy(&mut store, 101), Ok(()));
    assert_eq!(execute(&mut store, 102), Ok(()));
    assert_eq!(sell(&mut store, 100), Ok(()));
    assert_settled(&store);

    let mut other = Store::new();
    assert_eq!(buy(&mut other, 101), Ok(()));
    assert_eq!(execute(&mut other, 102), Ok(()));
    assert_eq!(sell(&mut other, 100), Ok(()));
    assert_eq!(sell(&mut other, 100), Ok(()));
    assert_eq!(execute(&mut other, 102), Ok(()));
    assert_eq!(buy(&mut other, 101), Ok(()));
    assert_settled(&other);
}

#[test]
fn one_message_many_times_is_one_message() {
    let mut once = Store::new();
    assert_eq!(sell(&mut once, 100), Ok(()));
    let mut many = Store::new();
    for _ in 0..5 {
        assert_eq!(sell(&mut many, 100), Ok(()));
    }
    assert_eq!(many.listings().len(), 1);
    assert_eq!(listing_fields(&many.listings()[0]), listing_fields(&once.listings()[0]));
}

#[test]
fn cancel_after_execute_sale_changes_nothing() {
    let mut store = scenario_one();
    assert_eq!(cancel_sell(&mut store, 103), Ok(()));
    assert_eq!(cancel_buy(&mut store, 103), Ok(()));
    assert_settled(&store);
    assert_eq!(store.listings()[0].slot, 102);
}

#[test]
fn execute_sale_after_cancel_leaves_the_row_canceled() {
    let mut store = Store::new();
    assert_eq!(sell(&mut store, 100), Ok(()));
    assert_eq!(cancel_sell(&mut store, 101), Ok(()));
    assert_eq!(execute(&mut store, 102), Ok(()));
    assert_eq!(store.purchases().len(), 1);
    assert_eq!(store.listings()[0].canceled_at, Some(NOW));
    assert_eq!(store.listings()[0].purchase_id, None);
}

#[test]
fn sell_for_a_canceled_row_with_a_purchase_of_its_slot_sets_both() {
    let mut store = Store::new();
    assert_eq!(sell(&mut store, 100), Ok(()));
    assert_eq!(cancel_sell(&mut store, 100), Ok(()));
    assert_eq!(execute(&mut store, 100), Ok(()));
    assert_eq!(sell(&mut store, 100), Ok(()));
    assert_eq!(store.listings()[0].canceled_at, Some(NOW));
    assert_eq!(store.listings()[0].purchase_id, Some(0));
}

#[test]
fn positive_expiry_is_kept() {
    let mut store = Store::new();
    let params = InstructionParams { expiry: 1_700_000_000, ..sell_params() };
    let data = encode_instruction(InstructionKind::Sell, &params);
    assert_eq!(process_instruction(&mut store, &program(), &data, &sell_accounts(), 7, NOW), Ok(()));
    assert_eq!(store.listings()[0].expiry, Some(1_700_000_000));
    let params = InstructionParams { expiry: -5, ..sell_params() };
    let data = encode_instruction(InstructionKind::Sell, &params);
    assert_eq!(process_instruction(&mut store, &program(), &data, &sell_accounts(), 8, NOW), Ok(()));
    assert_eq!(store.listings().len(), 1);
    assert_eq!(store.listings()[0].expiry, None);
    assert_eq!(store.listings()[0].slot, 8);
}

#[test]
fn buy_without_twelve_accounts_is_dropped() {
    let mut store = Store::new();
    let data = encode_instruction(InstructionKind::Buy, &buy_params());
    let mut accounts = buy_accounts();
    accounts.push(filler());
    assert_eq!(process_instruction(&mut store, &program(), &data, &accounts, 1, NOW), Ok(()));
    assert_eq!(store.offers().len(), 0);
    accounts.truncate(11);
    assert_eq!(process_instruction(&mut store, &program(), &data, &accounts, 1, NOW), Ok(()));
    assert_eq!(store.offers().len(), 0);
}

#[test]
fn too_few_accounts_fail_loudly() {
    let mut store = Store::new();
    let body = marketplace_indexer::codec::encode_params(&sell_params());
    assert_eq!(
        process_sale(&mut store, &program(), &body, &sell_accounts()[..8], 1, NOW),
        Err(Error::Codec)
    );
    assert_eq!(
        process_execute_sale(&mut store, &program(), &body, &execute_accounts()[..13], 1, NOW),
        Err(Error::Codec)
    );
    assert_eq!(process_cancel_sale(&mut store, &cancel_sell_accounts()[..6], 1, NOW), Err(Error::Codec));
    assert_eq!(process_cancel_buy(&mut store, &cancel_buy_accounts()[..5], 1, NOW), Err(Error::Codec));
    assert_eq!(store.listings().len(), 0);
    assert_eq!(store.purchases().len(), 0);
}

#[test]
fn short_parameters_fail_before_the_account_check() {
    let mut store = Store::new();
    assert_eq!(process_buy(&mut store, &program(), &[1, 2, 3], &[], 1, NOW), Err(Error::Codec));
    assert_eq!(process_sale(&mut store, &program(), &[], &sell_accounts(), 1, NOW), Err(Error::Codec));
}

#[test]
fn values_beyond_the_storage_type_are_bounds_errors() {
    let mut store = Store::new();
    let params = InstructionParams { buyer_price: (i64::MAX as u64) + 1, ..sell_params() };
    let data = encode_instruction(InstructionKind::Sell, &params);
    assert_eq!(
        process_instruction(&mut store, &program(), &data, &sell_accounts(), 1, NOW),
        Err(Error::Bounds)
    );
    let params = InstructionParams { token_size: u64::MAX, ..sell_params() };
    let data = encode_instruction(InstructionKind::ExecuteSale, &params);
    assert_eq!(
        process_instruction(&mut store, &program(), &data, &execute_accounts(), 1, NOW),
        Err(Error::Bounds)
    );
    assert_eq!(sell(&mut store, u64::MAX), Err(Error::Bounds));
    assert_eq!(cancel_sell(&mut store, 1 << 63), Err(Error::Bounds));
    assert_eq!(store.listings().len(), 0);
    assert_eq!(store.purchases().len(), 0);
    assert_eq!(to_i64(i64::MAX as u64), Ok(i64::MAX));
    assert_eq!(to_i64(0), Ok(0));
}

#[test]
fn unknown_discriminator_is_dropped() {
    let mut store = Store::new();
    let data = [9u8, 9, 9, 9, 9, 9, 9, 9, 1, 2, 3];
    assert_eq!(process_instruction(&mut store, &program(), &data, &[], 1, NOW), Ok(()));
    assert_eq!(process_instruction(&mut store, &program(), &[1, 2], &[], 1, NOW), Err(Error::Codec));
    assert_eq!(store.listings().len(), 0);
}

#[test]
fn second_buyer_gets_a_second_purchase() {
    let mut store = scenario_one();
    let mut accounts = execute_accounts();
    accounts[0] = key(77);
    let data = encode_instruction(InstructionKind::ExecuteSale, &sell_params());
    assert_eq!(process_instruction(&mut store, &program(), &data, &accounts, 103, NOW), Ok(()));
    assert_eq!(store.purchases().len(), 2);
    assert_eq!(store.purchases()[1].id, 1);
    assert_eq!(store.feed_events().len(), 2);
    assert_eq!(store.purchase_events()[1].purchase_id, 1);
    assert_eq!(store.feed_event_wallets().len(), 4);
    assert_eq!(store.feed_event_wallets()[2].wallet_address, seller().to_base58());
    assert_eq!(store.feed_event_wallets()[3].wallet_address, key(77).to_base58());
    // The listing stays with the purchase that closed it first.
    assert_eq!(store.listings()[0].purchase_id, Some(0));
}

#[test]
fn links_name_a_purchase_of_the_same_metadata_and_house() {
    let store = scenario_one();
    for l in store.listings().iter() {
        if let Some(id) = l.purchase_id {
            let p = &store.purchases()[id as usize];
            assert_eq!(p.metadata, l.metadata);
            assert_eq!(p.auction_house, l.auction_house);
        }
    }
    for o in store.offers().iter() {
        if let Some(id) = o.purchase_id {
            let p = &store.purchases()[id as usize];
            assert_eq!(p.metadata, o.metadata);
            assert_eq!(p.auction_house, o.auction_house);
        }
    }
}
