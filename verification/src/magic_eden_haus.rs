//! The handlers of the direct marketplace program: one per instruction.
//!
//! Every handler decodes the fixed parameter layout where its instruction
//! carries one, checks that the account list reaches the positions it
//! reads, converts the unsigned chain values to the signed storage type,
//! and hands the row to the store. A handler that fails leaves the store
//! as it found it.

use crate::codec::{
    decode_params, instruction_body, instruction_kind, kind_of, params_of, InstructionKind,
    InstructionParams,
};
use crate::error::Error;
use crate::model::{Listing, ListingView, Offer, OfferView, Purchase, PurchaseView};
use crate::pubkey::{key_text, key_texts, Pubkey};
use crate::state::{applied, rejected, untouched, Outcome, StoreView};
use crate::store::Store;
use vstd::prelude::*;

verus! {

/// Number of accounts a buy instruction comes with.
pub const BUY_ACCOUNTS: usize = 12;

/// Whether an unsigned chain value fits the signed storage type.
pub open spec fn fits_i64(v: u64) -> bool {
    v <= i64::MAX
}

/// The stored expiry of a raw one: none where the raw value is not
/// positive.
pub open spec fn expiry_of(raw: i64) -> Option<i64> {
    if raw <= 0 {
        None
    } else {
        Some(raw)
    }
}

/// The listing that a sell instruction describes.
pub open spec fn sale_row(
    program: Seq<char>,
    p: InstructionParams,
    accounts: Seq<Seq<char>>,
    slot: u64,
    now: i64,
    purchase_id: Option<nat>,
) -> ListingView
    recommends
        accounts.len() > 8,
{
    ListingView {
        id: 0,
        trade_state: accounts[8],
        auction_house: accounts[7],
        marketplace_program: program,
        seller: accounts[0],
        metadata: accounts[5],
        purchase_id,
        price: p.buyer_price as i64,
        token_size: p.token_size as i64,
        trade_state_bump: p.trade_state_bump as i16,
        created_at: now,
        canceled_at: None,
        slot: slot as i64,
        write_version: None,
        expiry: expiry_of(p.expiry),
    }
}

/// The offer that a buy instruction describes.
pub open spec fn buy_row(
    program: Seq<char>,
    p: InstructionParams,
    accounts: Seq<Seq<char>>,
    slot: u64,
    now: i64,
    purchase_id: Option<nat>,
) -> OfferView
    recommends
        accounts.len() > 7,
{
    OfferView {
        id: 0,
        trade_state: accounts[7],
        auction_house: accounts[6],
        marketplace_program: program,
        buyer: accounts[0],
        metadata: accounts[3],
        purchase_id,
        price: p.buyer_price as i64,
        token_size: p.token_size as i64,
        trade_state_bump: p.trade_state_bump as i16,
        created_at: now,
        canceled_at: None,
        slot: slot as i64,
        write_version: None,
        expiry: expiry_of(p.expiry),
    }
}

/// The purchase that an execute-sale instruction describes.
pub open spec fn execute_sale_row(
    program: Seq<char>,
    p: InstructionParams,
    accounts: Seq<Seq<char>>,
    slot: u64,
    now: i64,
) -> PurchaseView
    recommends
        accounts.len() > 9,
{
    PurchaseView {
        id: 0,
        buyer: accounts[0],
        seller: accounts[1],
        auction_house: accounts[9],
        marketplace_program: program,
        metadata: accounts[5],
        token_size: p.token_size as i64,
        price: p.buyer_price as i64,
        created_at: now,
        slot: slot as i64,
        write_version: None,
    }
}

/// What a sell instruction makes of the store.
///
/// The new listing is born sold where a purchase with its seller, auction
/// house, metadata, price, size and slot is already stored.
pub open spec fn sale_outcome(
    s: StoreView,
    program: Seq<char>,
    data: Seq<u8>,
    accounts: Seq<Seq<char>>,
    slot: u64,
    now: i64,
) -> Outcome {
    match params_of(data) {
        None => rejected(s, Error::Codec),
        Some(p) => if accounts.len() <= 8 {
            rejected(s, Error::Codec)
        } else if !(fits_i64(p.buyer_price) && fits_i64(p.token_size) && fits_i64(slot)) {
            rejected(s, Error::Bounds)
        } else {
            let found = s.find_sale(sale_row(program, p, accounts, slot, now, None));
            applied(s.upsert_listing(sale_row(program, p, accounts, slot, now, found)))
        },
    }
}

/// What a buy instruction makes of the store.
///
/// An instruction that does not come with exactly twelve accounts is
/// dropped. The new offer is born taken where a purchase with its buyer,
/// auction house, metadata, price, size and slot is already stored.
pub open spec fn buy_outcome(
    s: StoreView,
    program: Seq<char>,
    data: Seq<u8>,
    accounts: Seq<Seq<char>>,
    slot: u64,
    now: i64,
) -> Outcome {
    match params_of(data) {
        None => rejected(s, Error::Codec),
        Some(p) => if accounts.len() != BUY_ACCOUNTS {
            untouched(s)
        } else if !(fits_i64(p.buyer_price) && fits_i64(p.token_size) && fits_i64(slot)) {
            rejected(s, Error::Bounds)
        } else {
            let found = s.find_purchase(buy_row(program, p, accounts, slot, now, None));
            applied(s.upsert_offer(buy_row(program, p, accounts, slot, now, found)))
        },
    }
}

/// What an execute-sale instruction makes of the store.
pub open spec fn execute_sale_outcome(
    s: StoreView,
    program: Seq<char>,
    data: Seq<u8>,
    accounts: Seq<Seq<char>>,
    slot: u64,
    now: i64,
) -> Outcome {
    match params_of(data) {
        None => rejected(s, Error::Codec),
        Some(p) => if accounts.len() <= 13 {
            rejected(s, Error::Codec)
        } else if !(fits_i64(p.buyer_price) && fits_i64(p.token_size) && fits_i64(slot)) {
            rejected(s, Error::Bounds)
        } else {
            applied(s.upsert_purchase(execute_sale_row(program, p, accounts, slot, now)))
        },
    }
}

/// What a cancel-sell instruction makes of the store.
pub open spec fn cancel_sale_outcome(
    s: StoreView,
    accounts: Seq<Seq<char>>,
    slot: u64,
    now: i64,
) -> Outcome {
    if accounts.len() <= 6 {
        rejected(s, Error::Codec)
    } else if !fits_i64(slot) {
        rejected(s, Error::Bounds)
    } else {
        applied(s.cancel_listing(accounts[6], now, slot as i64))
    }
}

/// What a cancel-buy instruction makes of the store.
pub open spec fn cancel_buy_outcome(
    s: StoreView,
    accounts: Seq<Seq<char>>,
    slot: u64,
    now: i64,
) -> Outcome {
    if accounts.len() <= 5 {
        rejected(s, Error::Codec)
    } else if !fits_i64(slot) {
        rejected(s, Error::Bounds)
    } else {
        applied(s.cancel_offer(accounts[5], now, slot as i64))
    }
}

/// What an instruction of the direct marketplace program makes of the
/// store: a payload shorter than a discriminator is rejected, a
/// discriminator that names no indexed instruction is dropped, and every
/// other payload goes to the handler its discriminator names, parameters
/// and all.
pub open spec fn instruction_outcome(
    s: StoreView,
    program: Seq<char>,
    data: Seq<u8>,
    accounts: Seq<Seq<char>>,
    slot: u64,
    now: i64,
) -> Outcome {
    if data.len() < 8 {
        rejected(s, Error::Codec)
    } else {
        let body = data.subrange(8, data.len() as int);
        match kind_of(data.subrange(0, 8)) {
            Some(InstructionKind::Buy) => buy_outcome(s, program, body, accounts, slot, now),
            Some(InstructionKind::Sell) => sale_outcome(s, program, body, accounts, slot, now),
            Some(InstructionKind::ExecuteSale) => execute_sale_outcome(
                s,
                program,
                body,
                accounts,
                slot,
                now,
            ),
            Some(InstructionKind::CancelSell) => cancel_sale_outcome(s, accounts, slot, now),
            Some(InstructionKind::CancelBuy) => cancel_buy_outcome(s, accounts, slot, now),
            None => untouched(s),
        }
    }
}

/// Converts an unsigned chain value to the signed storage type.
///
/// Fails with `Bounds` exactly when the value does not fit.
pub fn to_i64(v: u64) -> (r: Result<i64, Error>)
    ensures
        fits_i64(v) ==> r == Ok::<i64, Error>(v as i64),
        !fits_i64(v) ==> r == Err::<i64, Error>(Error::Bounds),
{
    if v > 0x7fff_ffff_ffff_ffff {
        Err(Error::Bounds)
    } else {
        Ok(v as i64)
    }
}

fn stored_expiry(raw: i64) -> (r: Option<i64>)
    ensures
        r == expiry_of(raw),
{
    if raw <= 0 {
        None
    } else {
        Some(raw)
    }
}

fn text_of(accounts: &[Pubkey], i: usize) -> (text: String)
    requires
        i < accounts.len(),
    ensures
        text@ == key_texts(accounts@)[i as int],
{
    accounts[i].to_base58()
}

/// Handles an execute-sale instruction: writes the realised trade.
///
/// `data` is the payload after the discriminator, `now` the time at which
/// the message is handled.
pub fn process_execute_sale(
    store: &mut Store,
    program_id: &Pubkey,
    data: &[u8],
    accounts: &[Pubkey],
    slot: u64,
    now: i64,
) -> (r: Result<(), Error>)
    requires
        old(store).wf(),
    ensures
        final(store).wf(),
        (Outcome { store: final(store)@, result: r }) == execute_sale_outcome(
            old(store)@,
            key_text(*program_id),
            data@,
            key_texts(accounts@),
            slot,
            now,
        ),
{
    let params = match decode_params(data) {
        Ok(p) => p,
        Err(e) => {
            return Err(e);
        },
    };
    if accounts.len() <= 13 {
        return Err(Error::Codec);
    }
    let token_size = match to_i64(params.token_size) {
        Ok(v) => v,
        Err(e) => {
            return Err(e);
        },
    };
    let price = match to_i64(params.buyer_price) {
        Ok(v) => v,
        Err(e) => {
            return Err(e);
        },
    };
    let slot_i = match to_i64(slot) {
        Ok(v) => v,
        Err(e) => {
            return Err(e);
        },
    };
    let row = Purchase {
        id: 0,
        buyer: text_of(accounts, 0),
        seller: text_of(accounts, 1),
        auction_house: text_of(accounts, 9),
        marketplace_program: program_id.to_base58(),
        metadata: text_of(accounts, 5),
        token_size,
        price,
        created_at: now,
        slot: slot_i,
        write_version: None,
    };
    assert(row@ == execute_sale_row(
        key_text(*program_id),
        params,
        key_texts(accounts@),
        slot,
        now,
    ));
    store.upsert_purchase(row);
    Ok(())
}

/// Handles a sell instruction: writes the listing.
///
/// `data` is the payload after the discriminator, `now` the time at which
/// the message is handled.
pub fn process_sale(
    store: &mut Store,
    program_id: &Pubkey,
    data: &[u8],
    accounts: &[Pubkey],
    slot: u64,
    now: i64,
) -> (r: Result<(), Error>)
    requires
        old(store).wf(),
    ensures
        final(store).wf(),
        (Outcome { store: final(store)@, result: r }) == sale_outcome(
            old(store)@,
            key_text(*program_id),
            data@,
            key_texts(accounts@),
            slot,
            now,
        ),
{
    let params = match decode_params(data) {
        Ok(p) => p,
        Err(e) => {
            return Err(e);
        },
    };
    if accounts.len() <= 8 {
        return Err(Error::Codec);
    }
    let price = match to_i64(params.buyer_price) {
        Ok(v) => v,
        Err(e) => {
            return Err(e);
        },
    };
    let token_size = match to_i64(params.token_size) {
        Ok(v) => v,
        Err(e) => {
            return Err(e);
        },
    };
    let slot_i = match to_i64(slot) {
        Ok(v) => v,
        Err(e) => {
            return Err(e);
        },
    };
    let mut row = Listing {
        id: 0,
        trade_state: text_of(accounts, 8),
        auction_house: text_of(accounts, 7),
        marketplace_program: program_id.to_base58(),
        seller: text_of(accounts, 0),
        metadata: text_of(accounts, 5),
        purchase_id: None,
        price,
        token_size,
        trade_state_bump: params.trade_state_bump as i16,
        created_at: now,
        canceled_at: None,
        slot: slot_i,
        write_version: None,
        expiry: stored_expiry(params.expiry),
    };
    assert(row@ == sale_row(
        key_text(*program_id),
        params,
        key_texts(accounts@),
        slot,
        now,
        None,
    ));
    row.purchase_id = store.find_sale(&row);
    assert(row@ == sale_row(
        key_text(*program_id),
        params,
        key_texts(accounts@),
        slot,
        now,
        old(store)@.find_sale(
            sale_row(key_text(*program_id), params, key_texts(accounts@), slot, now, None),
        ),
    ));
    store.upsert_listing(row);
    Ok(())
}

/// Handles a buy instruction: writes the offer.
///
/// `data` is the payload after the discriminator, `now` the time at which
/// the message is handled.
pub fn process_buy(
    store: &mut Store,
    program_id: &Pubkey,
    data: &[u8],
    accounts: &[Pubkey],
    slot: u64,
    now: i64,
) -> (r: Result<(), Error>)
    requires
        old(store).wf(),
    ensures
        final(store).wf(),
        (Outcome { store: final(store)@, result: r }) == buy_outcome(
            old(store)@,
            key_text(*program_id),
            data@,
            key_texts(accounts@),
            slot,
            now,
        ),
{
    let params = match decode_params(data) {
        Ok(p) => p,
        Err(e) => {
            return Err(e);
        },
    };
    if accounts.len() != BUY_ACCOUNTS {
        return Ok(());
    }
    let price = match to_i64(params.buyer_price) {
        Ok(v) => v,
        Err(e) => {
            return Err(e);
        },
    };
    let token_size = match to_i64(params.token_size) {
        Ok(v) => v,
        Err(e) => {
            return Err(e);
        },
    };
    let slot_i = match to_i64(slot) {
        Ok(v) => v,
        Err(e) => {
            return Err(e);
        },
    };
    let mut row = Offer {
        id: 0,
        trade_state: text_of(accounts, 7),
        auction_house: text_of(accounts, 6),
        marketplace_program: program_id.to_base58(),
        buyer: text_of(accounts, 0),
        metadata: text_of(accounts, 3),
        purchase_id: None,
        price,
        token_size,
        trade_state_bump: params.trade_state_bump as i16,
        created_at: now,
        canceled_at: None,
        slot: slot_i,
        write_version: None,
        expiry: stored_expiry(params.expiry),
    };
    assert(row@ == buy_row(
        key_text(*program_id),
        params,
        key_texts(accounts@),
        slot,
        now,
        None,
    ));
    row.purchase_id = store.find_purchase(&row);
    assert(row@ == buy_row(
        key_text(*program_id),
        params,
        key_texts(accounts@),
        slot,
        now,
        old(store)@.find_purchase(
            buy_row(key_text(*program_id), params, key_texts(accounts@), slot, now, None),
        ),
    ));
    store.upsert_offer(row);
    Ok(())
}

/// Handles a cancel-sell instruction: cancels the listing if it is open.
pub fn process_cancel_sale(store: &mut Store, accounts: &[Pubkey], slot: u64, now: i64) -> (r:
    Result<(), Error>)
    requires
        old(store).wf(),
    ensures
        final(store).wf(),
        (Outcome { store: final(store)@, result: r }) == cancel_sale_outcome(
            old(store)@,
            key_texts(accounts@),
            slot,
            now,
        ),
{
    if accounts.len() <= 6 {
        return Err(Error::Codec);
    }
    let trade_state = text_of(accounts, 6);
    let slot_i = match to_i64(slot) {
        Ok(v) => v,
        Err(e) => {
            return Err(e);
        },
    };
    store.cancel_listing(&trade_state, now, slot_i);
    Ok(())
}

/// Handles a cancel-buy instruction: cancels the offer if it is open.
pub fn process_cancel_buy(store: &mut Store, accounts: &[Pubkey], slot: u64, now: i64) -> (r:
    Result<(), Error>)
    requires
        old(store).wf(),
    ensures
        final(store).wf(),
        (Outcome { store: final(store)@, result: r }) == cancel_buy_outcome(
            old(store)@,
            key_texts(accounts@),
            slot,
            now,
        ),
{
    if accounts.len() <= 5 {
        return Err(Error::Codec);
    }
    let trade_state = text_of(accounts, 5);
    let slot_i = match to_i64(slot) {
        Ok(v) => v,
        Err(e) => {
            return Err(e);
        },
    };
    store.cancel_offer(&trade_state, now, slot_i);
    Ok(())
}

/// Handles one instruction of the direct marketplace program.
///
/// `data` is the whole payload, discriminator first; `program_id` is the
/// program the instruction was sent to, under whose text the rows are
/// filed; `now` is the time at which the message is handled.
pub fn process_instruction(
    store: &mut Store,
    program_id: &Pubkey,
    data: &[u8],
    accounts: &[Pubkey],
    slot: u64,
    now: i64,
) -> (r: Result<(), Error>)
    requires
        old(store).wf(),
    ensures
        final(store).wf(),
        (Outcome { store: final(store)@, result: r }) == instruction_outcome(
            old(store)@,
            key_text(*program_id),
            data@,
            key_texts(accounts@),
            slot,
            now,
        ),
{
    let kind = match instruction_kind(data) {
        Ok(k) => k,
        Err(e) => {
            return Err(e);
        },
    };
    let body = instruction_body(data);
    match kind {
        Some(InstructionKind::Buy) => process_buy(store, program_id, body, accounts, slot, now),
        Some(InstructionKind::Sell) => process_sale(store, program_id, body, accounts, slot, now),
        Some(InstructionKind::ExecuteSale) => process_execute_sale(
            store,
            program_id,
            body,
            accounts,
            slot,
            now,
        ),
        Some(InstructionKind::CancelSell) => process_cancel_sale(store, accounts, slot, now),
        Some(InstructionKind::CancelBuy) => process_cancel_buy(store, accounts, slot, now),
        None => Ok(()),
    }
}

} // verus!
