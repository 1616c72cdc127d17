//! The handler of purchase ticket accounts and the reward payout
//! calculator.

use crate::error::Error;
use crate::magic_eden_haus::{fits_i64, to_i64};
use crate::model::{
    PayoutOperation, Purchase, PurchaseView, RewardCenter, RewardCenterView, RewardPayout,
    RewardPayoutView, RewardsPurchaseTicket, RewardsPurchaseTicketView,
};
use crate::pubkey::{key_named, key_text, Pubkey};
use crate::state::{Outcome, StoreView};
use crate::store::Store;
use vstd::prelude::*;

verus! {

/// The number of basis points in a whole.
pub const BASIS_POINTS: u128 = 10_000;

/// The account that the reward center program writes when a trade
/// settles through it.
#[derive(Clone, Copy, Debug)]
pub struct PurchaseTicket {
    pub reward_center: Pubkey,
    pub seller: Pubkey,
    pub buyer: Pubkey,
    pub metadata: Pubkey,
    pub price: u64,
    pub token_size: u64,
    pub created_at: i64,
}

/// The view of `PurchaseTicket`: the same data, as mathematics.
pub struct PurchaseTicketView {
    pub reward_center: Seq<char>,
    pub seller: Seq<char>,
    pub buyer: Seq<char>,
    pub metadata: Seq<char>,
    pub price: u64,
    pub token_size: u64,
    pub created_at: i64,
}

impl View for PurchaseTicket {
    type V = PurchaseTicketView;

    open spec fn view(&self) -> PurchaseTicketView {
        PurchaseTicketView {
            reward_center: key_text(self.reward_center),
            seller: key_text(self.seller),
            buyer: key_text(self.buyer),
            metadata: key_text(self.metadata),
            price: self.price,
            token_size: self.token_size,
            created_at: self.created_at,
        }
    }
}

// ----- the payout calculator --------------------------------------------

/// The reward unit of a price: the price times the numeral, or the price
/// divided by it, rounded down. Dividing by zero gives none.
pub open spec fn reward_unit(price: nat, operand: PayoutOperation, numeral: nat) -> Option<nat> {
    match operand {
        PayoutOperation::Multiply => Some(price * numeral),
        PayoutOperation::Divide => if numeral == 0 {
            None
        } else {
            Some(price / numeral)
        },
    }
}

/// The part of a reward unit that a share in basis points comes to,
/// rounded down.
pub open spec fn reward_share(unit: nat, basis_points: nat) -> nat {
    unit * basis_points / 10_000
}

/// The rewards of one trade.
pub struct Payout {
    pub buyer_reward: nat,
    pub seller_reward: nat,
}

/// The rewards that a reward center pays for a trade at `price`.
///
/// The center must name its token mint and its auction house by keys,
/// its seller share must lie between 0 and 10 000 basis points, its
/// numeral must not be negative, its bump must be a byte, and it must not
/// divide by zero. The seller gets the seller share of the reward unit,
/// the buyer the rest of the basis points.
pub open spec fn payout_of(price: u64, r: RewardCenterView) -> Result<Payout, Error> {
    if key_named(r.token_mint) is None || key_named(r.auction_house) is None {
        Err(Error::Codec)
    } else if !(0 <= r.seller_reward_payout_basis_points <= 10_000) || r.payout_numeral < 0 || !(0
        <= r.bump <= 255) {
        Err(Error::Bounds)
    } else {
        match reward_unit(price as nat, r.mathematical_operand, r.payout_numeral as nat) {
            None => Err(Error::Bounds),
            Some(unit) => Ok(
                Payout {
                    buyer_reward: reward_share(
                        unit,
                        (10_000 - r.seller_reward_payout_basis_points) as nat,
                    ),
                    seller_reward: reward_share(unit, r.seller_reward_payout_basis_points as nat),
                },
            ),
        }
    }
}

proof fn lemma_product_bound(a: nat, b: nat, a_max: nat, b_max: nat)
    by (nonlinear_arith)
    requires
        a <= a_max,
        b <= b_max,
    ensures
        a * b <= a_max * b_max,
{
}

/// Computes the rewards of a trade at `price` under the reward center `r`
/// and returns the buyer's reward, then the seller's.
///
/// The products are formed in 128 bits, which holds them in full.
pub fn calculate_payout(price: u64, r: &RewardCenter) -> (out: Result<(u128, u128), Error>)
    ensures
        match payout_of(price, r@) {
            Ok(p) => out == Ok::<(u128, u128), Error>((p.buyer_reward as u128, p.seller_reward as u128))
                && p.buyer_reward <= u128::MAX && p.seller_reward <= u128::MAX,
            Err(e) => out == Err::<(u128, u128), Error>(e),
        },
{
    if Pubkey::from_base58(r.token_mint.as_str()).is_none() {
        return Err(Error::Codec);
    }
    if Pubkey::from_base58(r.auction_house.as_str()).is_none() {
        return Err(Error::Codec);
    }
    if r.seller_reward_payout_basis_points < 0 || r.seller_reward_payout_basis_points > 10_000 {
        return Err(Error::Bounds);
    }
    if r.payout_numeral < 0 {
        return Err(Error::Bounds);
    }
    if r.bump < 0 || r.bump > 255 {
        return Err(Error::Bounds);
    }
    let seller_share: u128 = r.seller_reward_payout_basis_points as u128;
    let buyer_share: u128 = BASIS_POINTS - seller_share;
    let numeral: u128 = r.payout_numeral as u128;
    let unit: u128 = match r.mathematical_operand {
        PayoutOperation::Multiply => {
            proof {
                lemma_product_bound(price as nat, numeral as nat, u64::MAX as nat, 0x7fff);
            }
            price as u128 * numeral
        },
        PayoutOperation::Divide => {
            if numeral == 0 {
                return Err(Error::Bounds);
            }
            price as u128 / numeral
        },
    };
    proof {
        assert(unit <= u64::MAX * 0x7fff);
        lemma_product_bound(unit as nat, seller_share as nat, (u64::MAX * 0x7fff) as nat, 10_000);
        lemma_product_bound(unit as nat, buyer_share as nat, (u64::MAX * 0x7fff) as nat, 10_000);
    }
    let seller_reward: u128 = unit * seller_share / BASIS_POINTS;
    let buyer_reward: u128 = unit * buyer_share / BASIS_POINTS;
    Ok((buyer_reward, seller_reward))
}

// ----- the account handler ----------------------------------------------

/// The stored form of a purchase ticket.
pub open spec fn ticket_row(
    key: Seq<char>,
    t: PurchaseTicketView,
    slot: u64,
    write_version: u64,
) -> RewardsPurchaseTicketView {
    RewardsPurchaseTicketView {
        address: key,
        reward_center_address: t.reward_center,
        seller: t.seller,
        buyer: t.buyer,
        metadata: t.metadata,
        price: t.price as i64,
        token_size: t.token_size as i64,
        created_at: t.created_at,
        slot: slot as i64,
        write_version: write_version as i64,
    }
}

/// The payout row of a stored ticket under a reward center.
pub open spec fn payout_row(
    row: RewardsPurchaseTicketView,
    center: RewardCenterView,
    p: Payout,
) -> RewardPayoutView {
    RewardPayoutView {
        purchase_ticket: row.address,
        metadata: row.metadata,
        reward_center: center.address,
        buyer: row.buyer,
        buyer_reward: p.buyer_reward,
        seller: row.seller,
        seller_reward: p.seller_reward,
        created_at: row.created_at,
        slot: row.slot,
        write_version: row.write_version,
    }
}

/// The purchase that a stored ticket stands for, settled through the
/// given auction house and filed under the reward center program.
pub open spec fn ticket_purchase(
    program: Seq<char>,
    row: RewardsPurchaseTicketView,
    auction_house: Seq<char>,
) -> PurchaseView {
    PurchaseView {
        id: 0,
        buyer: row.buyer,
        seller: row.seller,
        auction_house,
        marketplace_program: program,
        metadata: row.metadata,
        token_size: row.token_size,
        price: row.price,
        created_at: row.created_at,
        slot: row.slot,
        write_version: Some(row.write_version),
    }
}

/// The last step of a ticket: the purchase is written, through the
/// auction house that the ticket's reward center overlays. Without that
/// auction house the step fails and changes nothing.
pub open spec fn purchase_step(
    s: StoreView,
    program: Seq<char>,
    row: RewardsPurchaseTicketView,
) -> Outcome {
    match s.auction_house_of(row.reward_center_address) {
        Some(house) => Outcome {
            store: s.upsert_purchase(ticket_purchase(program, row, house.address)),
            result: Ok(()),
        },
        None => Outcome { store: s, result: Err(Error::NotFound) },
    }
}

/// The middle step of a ticket: where its reward center is stored, the
/// payout is computed from the ticket's price and inserted unless the
/// ticket has one already. Without the reward center the step is
/// skipped; a payout that cannot be computed fails it.
pub open spec fn payout_step(
    s: StoreView,
    price: u64,
    row: RewardsPurchaseTicketView,
) -> Outcome {
    match s.reward_center(row.reward_center_address) {
        Some(center) => match payout_of(price, center) {
            Ok(p) => Outcome { store: s.insert_payout(payout_row(row, center, p)), result: Ok(()) },
            Err(e) => Outcome { store: s, result: Err(e) },
        },
        None => Outcome { store: s, result: Ok(()) },
    }
}

/// What a purchase ticket account makes of the store.
///
/// A ticket whose price, size, slot or write version does not fit the
/// storage type is rejected. Otherwise the ticket is written first, then
/// its payout, then its purchase; a step that fails ends the message and
/// leaves what the steps before it wrote.
pub open spec fn ticket_outcome(
    s: StoreView,
    program: Seq<char>,
    key: Seq<char>,
    t: PurchaseTicketView,
    slot: u64,
    write_version: u64,
) -> Outcome {
    if !(fits_i64(t.price) && fits_i64(t.token_size) && fits_i64(slot) && fits_i64(write_version)) {
        Outcome { store: s, result: Err(Error::Bounds) }
    } else {
        let row = ticket_row(key, t, slot, write_version);
        let paid = payout_step(s.upsert_ticket(row), t.price, row);
        if paid.result is Err {
            paid
        } else {
            purchase_step(paid.store, program, row)
        }
    }
}

/// Handles a purchase ticket account.
///
/// `program_id` is the reward center program, under whose text the
/// purchase is filed; `key` is the address of the account.
pub fn process(
    store: &mut Store,
    program_id: &Pubkey,
    key: &Pubkey,
    account_data: &PurchaseTicket,
    slot: u64,
    write_version: u64,
) -> (r: Result<(), Error>)
    requires
        old(store).wf(),
    ensures
        final(store).wf(),
        (Outcome { store: final(store)@, result: r }) == ticket_outcome(
            old(store)@,
            key_text(*program_id),
            key_text(*key),
            account_data@,
            slot,
            write_version,
        ),
{
    let price = match to_i64(account_data.price) {
        Ok(v) => v,
        Err(e) => {
            return Err(e);
        },
    };
    let token_size = match to_i64(account_data.token_size) {
        Ok(v) => v,
        Err(e) => {
            return Err(e);
        },
    };
    let slot_i = match to_i64(slot) {
        Ok(v) => v,
        Err(e) => {
            return Err(e);
        },
    };
    let write_version_i = match to_i64(write_version) {
        Ok(v) => v,
        Err(e) => {
            return Err(e);
        },
    };
    let row = RewardsPurchaseTicket {
        address: key.to_base58(),
        reward_center_address: account_data.reward_center.to_base58(),
        seller: account_data.seller.to_base58(),
        buyer: account_data.buyer.to_base58(),
        metadata: account_data.metadata.to_base58(),
        price,
        token_size,
        created_at: account_data.created_at,
        slot: slot_i,
        write_version: write_version_i,
    };
    let ghost row_view = ticket_row(key_text(*key), account_data@, slot, write_version);
    assert(row@ == row_view);
    store.upsert_ticket(row.clone());

    match store.reward_center(&row.reward_center_address) {
        Some(center) => {
            let (buyer_reward, seller_reward) = match calculate_payout(account_data.price, &center) {
                Ok(p) => p,
                Err(e) => {
                    return Err(e);
                },
            };
            let payout = RewardPayout {
                purchase_ticket: row.address.clone(),
                metadata: row.metadata.clone(),
                reward_center: center.address,
                buyer: row.buyer.clone(),
                buyer_reward,
                seller: row.seller.clone(),
                seller_reward,
                created_at: row.created_at,
                slot: row.slot,
                write_version: row.write_version,
            };
            store.insert_payout(payout);
        },
        None => {},
    }
    assert(store@ == payout_step(
        old(store)@.upsert_ticket(row_view),
        account_data.price,
        row_view,
    ).store);

    let house = match store.auction_house_of(&row.reward_center_address) {
        Some(h) => h,
        None => {
            return Err(Error::NotFound);
        },
    };
    let purchase = Purchase {
        id: 0,
        buyer: row.buyer,
        seller: row.seller,
        auction_house: house.address,
        marketplace_program: program_id.to_base58(),
        metadata: row.metadata,
        token_size: row.token_size,
        price: row.price,
        created_at: row.created_at,
        slot: row.slot,
        write_version: Some(row.write_version),
    };
    store.upsert_purchase(purchase);
    Ok(())
}

} // verus!
