use marketplace_indexer::codec::{encode_instruction, InstructionKind, InstructionParams};
use marketplace_indexer::error::Error;
use marketplace_indexer::model::Metadata;
use marketplace_indexer::pubkey::Pubkey;
use marketplace_indexer::router::{InstructionMessage, Programs};
use marketplace_indexer::store::Store;
use marketplace_indexer::token::process_burn_instruction;

fn key(n: u8) -> Pubkey {
    Pubkey::new([n; 32])
}

fn programs() -> Programs {
    Programs { marketplace: key(200), reward_center: key(201) }
}

fn sell_message(program: Pubkey) -> InstructionMessage {
    let params = InstructionParams {
        trade_state_bump: 254,
        escrow_payment_bump: 255,
        buyer_price: 2_000_000,
        token_size: 1,
        expiry: 0,
    };
    let mut accounts = vec![key(99); 12];
    accounts[0] = key(1);
    accounts[5] = key(3);
    accounts[7] = key(4);
    accounts[8] = key(5);
    InstructionMessage {
        program_id: program,
        data: encode_instruction(InstructionKind::Sell, &params),
        accounts,
        slot: 100,
        write_version: 1,
    }
}

#[test]
fn router_sends_instructions_of_the_marketplace_program() {
    let mut store = Store::new();
    assert_eq!(programs().route_instruction(&mut store, &sell_message(key(200)), 50), Ok(()));
    assert_eq!(store.listings().len(), 1);
    assert_eq!(store.listings()[0].marketplace_program, key(200).to_base58());
    assert_eq!(store.listings()[0].created_at, 50);
}

#[test]
fn router_drops_unknown_programs() {
    let mut store = Store::new();
    assert_eq!(programs().route_instruction(&mut store, &sell_message(key(7)), 50), Ok(()));
    assert_eq!(programs().route_instruction(&mut store, &sell_message(key(201)), 50), Ok(()));
    assert_eq!(store.listings().len(), 0);
}

#[test]
fn router_surfaces_codec_errors() {
    let mut store = Store::new();
    let mut msg = sell_message(key(200));
    msg.data.truncate(20);
    assert_eq!(programs().route_instruction(&mut store, &msg, 50), Err(Error::Codec));
    msg.data.truncate(3);
    assert_eq!(programs().route_instruction(&mut store, &msg, 50), Err(Error::Codec));
    assert_eq!(store.listings().len(), 0);
}

#[test]
fn router_drops_unknown_discriminators() {
    let mut store = Store::new();
    let mut msg = sell_message(key(200));
    msg.data[0] ^= 1;
    assert_eq!(programs().route_instruction(&mut store, &msg, 50), Ok(()));
    assert_eq!(store.listings().len(), 0);
}

fn metadata(address: u8, mint: u8) -> Metadata {
    Metadata {
        address: key(address).to_base58(),
        mint_address: key(mint).to_base58(),
        name: "token".to_string(),
        uri: "https://example.org/1.json".to_string(),
        seller_fee_basis_points: 500,
        primary_sale_happened: true,
        update_authority_address: key(9).to_base58(),
        burned_at: None,
        slot: 10,
    }
}

#[test]
fn burn_marks_the_metadata_of_the_mint() {
    let mut store = Store::new();
    store.upsert_metadata(metadata(60, 61));
    store.upsert_metadata(metadata(62, 63));
    let accounts = [key(1), key(2), key(61)];
    assert_eq!(process_burn_instruction(&mut store, &accounts, 77, 123), Ok(()));
    assert_eq!(store.metadatas()[0].burned_at, Some(123));
    assert_eq!(store.metadatas()[0].slot, 77);
    assert_eq!(store.metadatas()[1].burned_at, None);
    assert_eq!(store.metadatas()[1].slot, 10);
}

#[test]
fn burn_without_three_accounts_is_dropped() {
    let mut store = Store::new();
    store.upsert_metadata(metadata(60, 61));
    assert_eq!(process_burn_instruction(&mut store, &[key(1), key(61)], 77, 123), Ok(()));
    assert_eq!(
        process_burn_instruction(&mut store, &[key(1), key(2), key(61), key(61)], 77, 123),
        Ok(())
    );
    assert_eq!(store.metadatas()[0].burned_at, None);
}

#[test]
fn burn_beyond_the_storage_type_is_rejected() {
    let mut store = Store::new();
    store.upsert_metadata(metadata(60, 61));
    let accounts = [key(1), key(2), key(61)];
    assert_eq!(process_burn_instruction(&mut store, &accounts, u64::MAX, 123), Err(Error::Bounds));
    assert_eq!(store.metadatas()[0].burned_at, None);
}

#[test]
fn metadata_is_replaced_under_its_address() {
    let mut store = Store::new();
    store.upsert_metadata(metadata(60, 61));
    let mut newer = metadata(60, 61);
    newer.name = "renamed".to_string();
    newer.slot = 11;
    store.upsert_metadata(newer);
    assert_eq!(store.metadatas().len(), 1);
    assert_eq!(store.metadatas()[0].name, "renamed");
    assert_eq!(store.metadatas()[0].slot, 11);
}
