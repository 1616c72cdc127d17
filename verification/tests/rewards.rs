use marketplace_indexer::error::Error;
use marketplace_indexer::model::{AuctionHouse, Listing, Offer, PayoutOperation, RewardCenter};
use marketplace_indexer::pubkey::Pubkey;
use marketplace_indexer::purchase_ticket::{calculate_payout, process, PurchaseTicket};
use marketplace_indexer::router::{AccountData, AccountMessage, Programs};
use marketplace_indexer::store::Store;

fn key(n: u8) -> Pubkey {
    Pubkey::new([n; 32])
}

fn center(bps: i16, op: PayoutOperation, numeral: i16) -> RewardCenter {
    RewardCenter {
        address: key(10).to_base58(),
        token_mint: key(11).to_base58(),
        auction_house: key(12).to_base58(),
        bump: 255,
        seller_reward_payout_basis_points: bps,
        mathematical_operand: op,
        payout_numeral: numeral,
    }
}

fn ticket(price: u64) -> PurchaseTicket {
    PurchaseTicket {
        reward_center: key(10),
        seller: key(1),
        buyer: key(2),
        metadata: key(3),
        price,
        token_size: 1,
        created_at: 1_660_000_000,
    }
}

fn reward_program() -> Pubkey {
    key(201)
}

#[test]
fn payout_multiplies() {
    let r = center(500, PayoutOperation::Multiply, 2);
    // reward unit 2_000_000; seller 5 %, buyer 95 %
    assert_eq!(calculate_payout(1_000_000, &r), Ok((1_900_000, 100_000)));
}

#[test]
fn payout_divides_rounding_down() {
    let r = center(2_500, PayoutOperation::Divide, 3);
    // reward unit 333_333; seller 25 % = 83_333.25, buyer 75 % = 249_999.75
    assert_eq!(calculate_payout(1_000_000, &r), Ok((249_999, 83_333)));
}

#[test]
fn payout_divide_by_zero_is_an_error() {
    let r = center(500, PayoutOperation::Divide, 0);
    assert_eq!(calculate_payout(1_000_000, &r), Err(Error::Bounds));
}

#[test]
fn payout_multiply_by_zero_is_zero() {
    let r = center(500, PayoutOperation::Multiply, 0);
    assert_eq!(calculate_payout(1_000_000, &r), Ok((0, 0)));
}

#[test]
fn payout_does_not_truncate_large_products() {
    let r = center(10_000, PayoutOperation::Multiply, 32_767);
    let unit = u64::MAX as u128 * 32_767;
    assert_eq!(calculate_payout(u64::MAX, &r), Ok((0, unit)));
    let r = center(0, PayoutOperation::Multiply, 32_767);
    assert_eq!(calculate_payout(u64::MAX, &r), Ok((unit, 0)));
    let r = center(1, PayoutOperation::Multiply, 32_767);
    assert_eq!(
        calculate_payout(u64::MAX, &r),
        Ok((unit * 9_999 / 10_000, unit / 10_000))
    );
}

#[test]
fn payout_rejects_shares_out_of_range() {
    assert_eq!(
        calculate_payout(1, &center(10_001, PayoutOperation::Multiply, 1)),
        Err(Error::Bounds)
    );
    assert_eq!(calculate_payout(1, &center(-1, PayoutOperation::Multiply, 1)), Err(Error::Bounds));
    assert_eq!(calculate_payout(1, &center(500, PayoutOperation::Multiply, -1)), Err(Error::Bounds));
    let mut r = center(500, PayoutOperation::Multiply, 1);
    r.bump = 256;
    assert_eq!(calculate_payout(1, &r), Err(Error::Bounds));
    r.bump = -1;
    assert_eq!(calculate_payout(1, &r), Err(Error::Bounds));
}

#[test]
fn payout_rejects_a_center_without_keys() {
    let mut r = center(500, PayoutOperation::Multiply, 2);
    r.token_mint = "not a key".to_string();
    assert_eq!(calculate_payout(1_000_000, &r), Err(Error::Codec));
    let mut r = center(500, PayoutOperation::Multiply, 2);
    r.auction_house = "he11owor1d".to_string();
    assert_eq!(calculate_payout(1_000_000, &r), Err(Error::Codec));
}

fn store_with_center() -> Store {
    let mut store = Store::new();
    store.upsert_reward_center(center(500, PayoutOperation::Multiply, 2));
    store.upsert_auction_house(AuctionHouse { address: key(12).to_base58() });
    store
}

#[test]
fn reward_ticket_ingest() {
    let mut store = store_with_center();
    let r = process(&mut store, &reward_program(), &key(20), &ticket(1_000_000), 500, 9);
    assert_eq!(r, Ok(()));

    assert_eq!(store.purchase_tickets().len(), 1);
    let row = &store.purchase_tickets()[0];
    assert_eq!(row.address, key(20).to_base58());
    assert_eq!(row.reward_center_address, key(10).to_base58());
    assert_eq!(row.seller, key(1).to_base58());
    assert_eq!(row.buyer, key(2).to_base58());
    assert_eq!(row.metadata, key(3).to_base58());
    assert_eq!(row.price, 1_000_000);
    assert_eq!(row.token_size, 1);
    assert_eq!(row.created_at, 1_660_000_000);
    assert_eq!(row.slot, 500);
    assert_eq!(row.write_version, 9);

    assert_eq!(store.reward_payouts().len(), 1);
    let payout = &store.reward_payouts()[0];
    assert_eq!(payout.purchase_ticket, key(20).to_base58());
    assert_eq!(payout.reward_center, key(10).to_base58());
    assert_eq!(payout.seller_reward, 100_000);
    assert_eq!(payout.buyer_reward, 1_900_000);
    assert_eq!(payout.seller, key(1).to_base58());
    assert_eq!(payout.buyer, key(2).to_base58());

    assert_eq!(store.purchases().len(), 1);
    let purchase = &store.purchases()[0];
    assert_eq!(purchase.marketplace_program, reward_program().to_base58());
    assert_eq!(purchase.auction_house, key(12).to_base58());
    assert_eq!(purchase.price, 1_000_000);
    assert_eq!(purchase.created_at, 1_660_000_000);
    assert_eq!(purchase.slot, 500);
    assert_eq!(purchase.write_version, Some(9));

    assert_eq!(store.feed_events().len(), 1);
    assert_eq!(store.purchase_events().len(), 1);
    assert_eq!(store.feed_event_wallets().len(), 2);
    assert_eq!(store.feed_event_wallets()[0].wallet_address, key(1).to_base58());
    assert_eq!(store.feed_event_wallets()[1].wallet_address, key(2).to_base58());
}

#[test]
fn reward_ticket_replay_changes_nothing() {
    let mut store = store_with_center();
    for _ in 0..3 {
        assert_eq!(
            process(&mut store, &reward_program(), &key(20), &ticket(1_000_000), 500, 9),
            Ok(())
        );
    }
    assert_eq!(store.purchase_tickets().len(), 1);
    assert_eq!(store.reward_payouts().len(), 1);
    assert_eq!(store.purchases().len(), 1);
    assert_eq!(store.feed_events().len(), 1);
    assert_eq!(store.feed_event_wallets().len(), 2);
}

#[test]
fn reward_ticket_keeps_the_first_payout() {
    let mut store = store_with_center();
    assert_eq!(process(&mut store, &reward_program(), &key(20), &ticket(1_000_000), 500, 9), Ok(()));
    store.upsert_reward_center(center(1_000, PayoutOperation::Multiply, 2));
    assert_eq!(process(&mut store, &reward_program(), &key(20), &ticket(1_000_000), 501, 10), Ok(()));
    assert_eq!(store.reward_centers().len(), 1);
    assert_eq!(store.reward_payouts().len(), 1);
    assert_eq!(store.reward_payouts()[0].seller_reward, 100_000);
    assert_eq!(store.purchase_tickets()[0].slot, 501);
    assert_eq!(store.purchases()[0].slot, 501);
    assert_eq!(store.feed_events().len(), 1);
}

#[test]
fn reward_ticket_without_center_is_stored_and_not_found() {
    let mut store = Store::new();
    let r = process(&mut store, &reward_program(), &key(20), &ticket(1_000_000), 500, 9);
    assert_eq!(r, Err(Error::NotFound));
    assert_eq!(store.purchase_tickets().len(), 1);
    assert_eq!(store.reward_payouts().len(), 0);
    assert_eq!(store.purchases().len(), 0);
    assert_eq!(store.feed_events().len(), 0);
}

#[test]
fn reward_ticket_without_auction_house_pays_and_is_not_found() {
    let mut store = Store::new();
    store.upsert_reward_center(center(500, PayoutOperation::Multiply, 2));
    let r = process(&mut store, &reward_program(), &key(20), &ticket(1_000_000), 500, 9);
    assert_eq!(r, Err(Error::NotFound));
    assert_eq!(store.reward_payouts().len(), 1);
    assert_eq!(store.purchases().len(), 0);
}

#[test]
fn reward_ticket_with_failing_payout_stops_after_the_ticket() {
    let mut store = Store::new();
    store.upsert_reward_center(center(500, PayoutOperation::Divide, 0));
    store.upsert_auction_house(AuctionHouse { address: key(12).to_base58() });
    let r = process(&mut store, &reward_program(), &key(20), &ticket(1_000_000), 500, 9);
    assert_eq!(r, Err(Error::Bounds));
    assert_eq!(store.purchase_tickets().len(), 1);
    assert_eq!(store.reward_payouts().len(), 0);
    assert_eq!(store.purchases().len(), 0);
}

#[test]
fn reward_ticket_beyond_the_storage_type_is_rejected() {
    let mut store = store_with_center();
    let r = process(&mut store, &reward_program(), &key(20), &ticket(u64::MAX), 500, 9);
    assert_eq!(r, Err(Error::Bounds));
    let r = process(&mut store, &reward_program(), &key(20), &ticket(1), u64::MAX, 9);
    assert_eq!(r, Err(Error::Bounds));
    let r = process(&mut store, &reward_program(), &key(20), &ticket(1), 1, u64::MAX);
    assert_eq!(r, Err(Error::Bounds));
    let mut t = ticket(1);
    t.token_size = 1 << 63;
    assert_eq!(process(&mut store, &reward_program(), &key(20), &t, 1, 1), Err(Error::Bounds));
    assert_eq!(store.purchase_tickets().len(), 0);
}

#[test]
fn reward_ticket_closes_open_rows() {
    let mut store = store_with_center();
    let listing_id = store.upsert_listing(Listing {
        id: 0,
        trade_state: key(30).to_base58(),
        auction_house: key(12).to_base58(),
        marketplace_program: reward_program().to_base58(),
        seller: key(1).to_base58(),
        metadata: key(3).to_base58(),
        purchase_id: None,
        price: 1_000_000,
        token_size: 1,
        trade_state_bump: 1,
        created_at: 5,
        canceled_at: None,
        slot: 400,
        write_version: Some(1),
        expiry: None,
    });
    let offer_id = store.upsert_offer(Offer {
        id: 0,
        trade_state: key(31).to_base58(),
        auction_house: key(12).to_base58(),
        marketplace_program: reward_program().to_base58(),
        buyer: key(2).to_base58(),
        metadata: key(3).to_base58(),
        purchase_id: None,
        price: 900_000,
        token_size: 1,
        trade_state_bump: 1,
        created_at: 5,
        canceled_at: None,
        slot: 401,
        write_version: Some(1),
        expiry: None,
    });
    assert_eq!((listing_id, offer_id), (0, 0));
    assert_eq!(process(&mut store, &reward_program(), &key(20), &ticket(1_000_000), 500, 9), Ok(()));
    assert_eq!(store.listings()[0].purchase_id, Some(0));
    assert_eq!(store.listings()[0].slot, 500);
    // An offer is closed by a purchase of its buyer, house and metadata,
    // whatever its price.
    assert_eq!(store.offers()[0].purchase_id, Some(0));
    assert_eq!(store.offers()[0].slot, 500);
}

#[test]
fn router_sends_tickets_of_the_reward_center_program() {
    let programs = Programs { marketplace: key(200), reward_center: reward_program() };
    let mut store = store_with_center();
    let msg = AccountMessage {
        program_id: reward_program(),
        account_key: key(20),
        account: AccountData::PurchaseTicket(ticket(1_000_000)),
        slot: 500,
        write_version: 9,
    };
    assert_eq!(programs.route_account(&mut store, &msg), Ok(()));
    assert_eq!(store.purchase_tickets().len(), 1);
    assert_eq!(store.purchases().len(), 1);

    let other = AccountMessage { program_id: key(202), account_key: key(21), ..msg };
    assert_eq!(programs.route_account(&mut store, &other), Ok(()));
    assert_eq!(store.purchase_tickets().len(), 1);

    let untyped = AccountMessage {
        program_id: reward_program(),
        account_key: key(22),
        account: AccountData::Other,
        slot: 1,
        write_version: 1,
    };
    assert_eq!(programs.route_account(&mut store, &untyped), Ok(()));
    assert_eq!(store.purchase_tickets().len(), 1);
}
