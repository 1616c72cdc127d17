//! The normalised rows and their mathematical views.
//!
//! A row holds its keys as base58 text and its amounts as signed 64-bit
//! integers. The view of a row holds the same data with text as `Seq<char>`
//! and row identifiers as natural numbers.

use vstd::prelude::*;

verus! {

/// The view of an optional row identifier.
pub open spec fn id_view(id: Option<u64>) -> Option<nat> {
    match id {
        Some(i) => Some(i as nat),
        None => None,
    }
}

/// A seller's standing offer to sell one token bundle at a price.
#[derive(Debug)]
pub struct Listing {
    /// Assigned by the store; what a caller writes here is ignored.
    pub id: u64,
    pub trade_state: String,
    pub auction_house: String,
    pub marketplace_program: String,
    pub seller: String,
    pub metadata: String,
    pub purchase_id: Option<u64>,
    pub price: i64,
    pub token_size: i64,
    pub trade_state_bump: i16,
    pub created_at: i64,
    pub canceled_at: Option<i64>,
    pub slot: i64,
    pub write_version: Option<i64>,
    pub expiry: Option<i64>,
}

/// The view of `Listing`: the same data, as mathematics.
pub struct ListingView {
    pub id: nat,
    pub trade_state: Seq<char>,
    pub auction_house: Seq<char>,
    pub marketplace_program: Seq<char>,
    pub seller: Seq<char>,
    pub metadata: Seq<char>,
    pub purchase_id: Option<nat>,
    pub price: i64,
    pub token_size: i64,
    pub trade_state_bump: i16,
    pub created_at: i64,
    pub canceled_at: Option<i64>,
    pub slot: i64,
    pub write_version: Option<i64>,
    pub expiry: Option<i64>,
}

impl View for Listing {
    type V = ListingView;

    open spec fn view(&self) -> ListingView {
        ListingView {
            id: self.id as nat,
            trade_state: self.trade_state@,
            auction_house: self.auction_house@,
            marketplace_program: self.marketplace_program@,
            seller: self.seller@,
            metadata: self.metadata@,
            purchase_id: id_view(self.purchase_id),
            price: self.price,
            token_size: self.token_size,
            trade_state_bump: self.trade_state_bump,
            created_at: self.created_at,
            canceled_at: self.canceled_at,
            slot: self.slot,
            write_version: self.write_version,
            expiry: self.expiry,
        }
    }
}

impl Clone for Listing {
    fn clone(&self) -> (r: Self)
        ensures
            r@ == self@,
    {
        Listing {
            id: self.id,
            trade_state: self.trade_state.clone(),
            auction_house: self.auction_house.clone(),
            marketplace_program: self.marketplace_program.clone(),
            seller: self.seller.clone(),
            metadata: self.metadata.clone(),
            purchase_id: self.purchase_id,
            price: self.price,
            token_size: self.token_size,
            trade_state_bump: self.trade_state_bump,
            created_at: self.created_at,
            canceled_at: self.canceled_at,
            slot: self.slot,
            write_version: self.write_version,
            expiry: self.expiry,
        }
    }
}

/// A buyer's standing offer to buy one token bundle at a price.
#[derive(Debug)]
pub struct Offer {
    /// Assigned by the store; what a caller writes here is ignored.
    pub id: u64,
    pub trade_state: String,
    pub auction_house: String,
    pub marketplace_program: String,
    pub buyer: String,
    pub metadata: String,
    pub purchase_id: Option<u64>,
    pub price: i64,
    pub token_size: i64,
    pub trade_state_bump: i16,
    pub created_at: i64,
    pub canceled_at: Option<i64>,
    pub slot: i64,
    pub write_version: Option<i64>,
    pub expiry: Option<i64>,
}

/// The view of `Offer`: the same data, as mathematics.
pub struct OfferView {
    pub id: nat,
    pub trade_state: Seq<char>,
    pub auction_house: Seq<char>,
    pub marketplace_program: Seq<char>,
    pub buyer: Seq<char>,
    pub metadata: Seq<char>,
    pub purchase_id: Option<nat>,
    pub price: i64,
    pub token_size: i64,
    pub trade_state_bump: i16,
    pub created_at: i64,
    pub canceled_at: Option<i64>,
    pub slot: i64,
    pub write_version: Option<i64>,
    pub expiry: Option<i64>,
}

impl View for Offer {
    type V = OfferView;

    open spec fn view(&self) -> OfferView {
        OfferView {
            id: self.id as nat,
            trade_state: self.trade_state@,
            auction_house: self.auction_house@,
            marketplace_program: self.marketplace_program@,
            buyer: self.buyer@,
            metadata: self.metadata@,
            purchase_id: id_view(self.purchase_id),
            price: self.price,
            token_size: self.token_size,
            trade_state_bump: self.trade_state_bump,
            created_at: self.created_at,
            canceled_at: self.canceled_at,
            slot: self.slot,
            write_version: self.write_version,
            expiry: self.expiry,
        }
    }
}

impl Clone for Offer {
    fn clone(&self) -> (r: Self)
        ensures
            r@ == self@,
    {
        Offer {
            id: self.id,
            trade_state: self.trade_state.clone(),
            auction_house: self.auction_house.clone(),
            marketplace_program: self.marketplace_program.clone(),
            buyer: self.buyer.clone(),
            metadata: self.metadata.clone(),
            purchase_id: self.purchase_id,
            price: self.price,
            token_size: self.token_size,
            trade_state_bump: self.trade_state_bump,
            created_at: self.created_at,
            canceled_at: self.canceled_at,
            slot: self.slot,
            write_version: self.write_version,
            expiry: self.expiry,
        }
    }
}

/// A realised trade.
#[derive(Debug)]
pub struct Purchase {
    /// Assigned by the store; what a caller writes here is ignored.
    pub id: u64,
    pub buyer: String,
    pub seller: String,
    pub auction_house: String,
    pub marketplace_program: String,
    pub metadata: String,
    pub token_size: i64,
    pub price: i64,
    pub created_at: i64,
    pub slot: i64,
    pub write_version: Option<i64>,
}

/// The view of `Purchase`: the same data, as mathematics.
pub struct PurchaseView {
    pub id: nat,
    pub buyer: Seq<char>,
    pub seller: Seq<char>,
    pub auction_house: Seq<char>,
    pub marketplace_program: Seq<char>,
    pub metadata: Seq<char>,
    pub token_size: i64,
    pub price: i64,
    pub created_at: i64,
    pub slot: i64,
    pub write_version: Option<i64>,
}

impl View for Purchase {
    type V = PurchaseView;

    open spec fn view(&self) -> PurchaseView {
        PurchaseView {
            id: self.id as nat,
            buyer: self.buyer@,
            seller: self.seller@,
            auction_house: self.auction_house@,
            marketplace_program: self.marketplace_program@,
            metadata: self.metadata@,
            token_size: self.token_size,
            price: self.price,
            created_at: self.created_at,
            slot: self.slot,
            write_version: self.write_version,
        }
    }
}

impl Clone for Purchase {
    fn clone(&self) -> (r: Self)
        ensures
            r@ == self@,
    {
        Purchase {
            id: self.id,
            buyer: self.buyer.clone(),
            seller: self.seller.clone(),
            auction_house: self.auction_house.clone(),
            marketplace_program: self.marketplace_program.clone(),
            metadata: self.metadata.clone(),
            token_size: self.token_size,
            price: self.price,
            created_at: self.created_at,
            slot: self.slot,
            write_version: self.write_version,
        }
    }
}

/// A user-visible activity record.
#[derive(Clone, Copy, Debug)]
pub struct FeedEvent {
    pub id: u64,
}

/// The view of `FeedEvent`: the same data, as mathematics.
pub struct FeedEventView {
    pub id: nat,
}

impl View for FeedEvent {
    type V = FeedEventView;

    open spec fn view(&self) -> FeedEventView {
        FeedEventView { id: self.id as nat }
    }
}

/// The child row that ties a feed event to the purchase it reports.
#[derive(Clone, Copy, Debug)]
pub struct PurchaseEvent {
    pub purchase_id: u64,
    pub feed_event_id: u64,
}

/// The view of `PurchaseEvent`: the same data, as mathematics.
pub struct PurchaseEventView {
    pub purchase_id: nat,
    pub feed_event_id: nat,
}

impl View for PurchaseEvent {
    type V = PurchaseEventView;

    open spec fn view(&self) -> PurchaseEventView {
        PurchaseEventView {
            purchase_id: self.purchase_id as nat,
            feed_event_id: self.feed_event_id as nat,
        }
    }
}

/// One wallet on whose timeline a feed event shows.
#[derive(Debug)]
pub struct FeedEventWallet {
    pub wallet_address: String,
    pub feed_event_id: u64,
}

/// The view of `FeedEventWallet`: the same data, as mathematics.
pub struct FeedEventWalletView {
    pub wallet_address: Seq<char>,
    pub feed_event_id: nat,
}

impl View for FeedEventWallet {
    type V = FeedEventWalletView;

    open spec fn view(&self) -> FeedEventWalletView {
        FeedEventWalletView {
            wallet_address: self.wallet_address@,
            feed_event_id: self.feed_event_id as nat,
        }
    }
}

impl Clone for FeedEventWallet {
    fn clone(&self) -> (r: Self)
        ensures
            r@ == self@,
    {
        FeedEventWallet {
            wallet_address: self.wallet_address.clone(),
            feed_event_id: self.feed_event_id,
        }
    }
}

/// How a reward center turns a price into a reward unit.
#[derive(Clone, Copy, Debug, PartialEq, Eq, Structural)]
pub enum PayoutOperation {
    Multiply,
    Divide,
}

/// The configuration of a reward-issuing overlay over an auction house.
#[derive(Debug)]
pub struct RewardCenter {
    pub address: String,
    pub token_mint: String,
    pub auction_house: String,
    pub bump: i16,
    pub seller_reward_payout_basis_points: i16,
    pub mathematical_operand: PayoutOperation,
    pub payout_numeral: i16,
}

/// The view of `RewardCenter`: the same data, as mathematics.
pub struct RewardCenterView {
    pub address: Seq<char>,
    pub token_mint: Seq<char>,
    pub auction_house: Seq<char>,
    pub bump: i16,
    pub seller_reward_payout_basis_points: i16,
    pub mathematical_operand: PayoutOperation,
    pub payout_numeral: i16,
}

impl View for RewardCenter {
    type V = RewardCenterView;

    open spec fn view(&self) -> RewardCenterView {
        RewardCenterView {
            address: self.address@,
            token_mint: self.token_mint@,
            auction_house: self.auction_house@,
            bump: self.bump,
            seller_reward_payout_basis_points: self.seller_reward_payout_basis_points,
            mathematical_operand: self.mathematical_operand,
            payout_numeral: self.payout_numeral,
        }
    }
}

impl Clone for RewardCenter {
    fn clone(&self) -> (r: Self)
        ensures
            r@ == self@,
    {
        RewardCenter {
            address: self.address.clone(),
            token_mint: self.token_mint.clone(),
            auction_house: self.auction_house.clone(),
            bump: self.bump,
            seller_reward_payout_basis_points: self.seller_reward_payout_basis_points,
            mathematical_operand: self.mathematical_operand,
            payout_numeral: self.payout_numeral,
        }
    }
}

/// The stored form of a purchase ticket account.
#[derive(Debug)]
pub struct RewardsPurchaseTicket {
    pub address: String,
    pub reward_center_address: String,
    pub seller: String,
    pub buyer: String,
    pub metadata: String,
    pub price: i64,
    pub token_size: i64,
    pub created_at: i64,
    pub slot: i64,
    pub write_version: i64,
}

/// The view of `RewardsPurchaseTicket`: the same data, as mathematics.
pub struct RewardsPurchaseTicketView {
    pub address: Seq<char>,
    pub reward_center_address: Seq<char>,
    pub seller: Seq<char>,
    pub buyer: Seq<char>,
    pub metadata: Seq<char>,
    pub price: i64,
    pub token_size: i64,
    pub created_at: i64,
    pub slot: i64,
    pub write_version: i64,
}

impl View for RewardsPurchaseTicket {
    type V = RewardsPurchaseTicketView;

    open spec fn view(&self) -> RewardsPurchaseTicketView {
        RewardsPurchaseTicketView {
            address: self.address@,
            reward_center_address: self.reward_center_address@,
            seller: self.seller@,
            buyer: self.buyer@,
            metadata: self.metadata@,
            price: self.price,
            token_size: self.token_size,
            created_at: self.created_at,
            slot: self.slot,
            write_version: self.write_version,
        }
    }
}

impl Clone for RewardsPurchaseTicket {
    fn clone(&self) -> (r: Self)
        ensures
            r@ == self@,
    {
        RewardsPurchaseTicket {
            address: self.address.clone(),
            reward_center_address: self.reward_center_address.clone(),
            seller: self.seller.clone(),
            buyer: self.buyer.clone(),
            metadata: self.metadata.clone(),
            price: self.price,
            token_size: self.token_size,
            created_at: self.created_at,
            slot: self.slot,
            write_version: self.write_version,
        }
    }
}

/// The rewards computed for the two sides of one purchase ticket.
#[derive(Debug)]
pub struct RewardPayout {
    pub purchase_ticket: String,
    pub metadata: String,
    pub reward_center: String,
    pub buyer: String,
    pub buyer_reward: u128,
    pub seller: String,
    pub seller_reward: u128,
    pub created_at: i64,
    pub slot: i64,
    pub write_version: i64,
}

/// The view of `RewardPayout`: the same data, as mathematics.
pub struct RewardPayoutView {
    pub purchase_ticket: Seq<char>,
    pub metadata: Seq<char>,
    pub reward_center: Seq<char>,
    pub buyer: Seq<char>,
    pub buyer_reward: nat,
    pub seller: Seq<char>,
    pub seller_reward: nat,
    pub created_at: i64,
    pub slot: i64,
    pub write_version: i64,
}

impl View for RewardPayout {
    type V = RewardPayoutView;

    open spec fn view(&self) -> RewardPayoutView {
        RewardPayoutView {
            purchase_ticket: self.purchase_ticket@,
            metadata: self.metadata@,
            reward_center: self.reward_center@,
            buyer: self.buyer@,
            buyer_reward: self.buyer_reward as nat,
            seller: self.seller@,
            seller_reward: self.seller_reward as nat,
            created_at: self.created_at,
            slot: self.slot,
            write_version: self.write_version,
        }
    }
}

impl Clone for RewardPayout {
    fn clone(&self) -> (r: Self)
        ensures
            r@ == self@,
    {
        RewardPayout {
            purchase_ticket: self.purchase_ticket.clone(),
            metadata: self.metadata.clone(),
            reward_center: self.reward_center.clone(),
            buyer: self.buyer.clone(),
            buyer_reward: self.buyer_reward,
            seller: self.seller.clone(),
            seller_reward: self.seller_reward,
            created_at: self.created_at,
            slot: self.slot,
            write_version: self.write_version,
        }
    }
}

/// An escrow and settlement instance that trades settle through.
#[derive(Debug)]
pub struct AuctionHouse {
    pub address: String,
}

/// The view of `AuctionHouse`: the same data, as mathematics.
pub struct AuctionHouseView {
    pub address: Seq<char>,
}

impl View for AuctionHouse {
    type V = AuctionHouseView;

    open spec fn view(&self) -> AuctionHouseView {
        AuctionHouseView { address: self.address@ }
    }
}

impl Clone for AuctionHouse {
    fn clone(&self) -> (r: Self)
        ensures
            r@ == self@,
    {
        AuctionHouse { address: self.address.clone() }
    }
}

/// The descriptor of one token.
#[derive(Debug)]
pub struct Metadata {
    pub address: String,
    pub mint_address: String,
    pub name: String,
    pub uri: String,
    pub seller_fee_basis_points: i32,
    pub primary_sale_happened: bool,
    pub update_authority_address: String,
    pub burned_at: Option<i64>,
    pub slot: i64,
}

/// The view of `Metadata`: the same data, as mathematics.
pub struct MetadataView {
    pub address: Seq<char>,
    pub mint_address: Seq<char>,
    pub name: Seq<char>,
    pub uri: Seq<char>,
    pub seller_fee_basis_points: i32,
    pub primary_sale_happened: bool,
    pub update_authority_address: Seq<char>,
    pub burned_at: Option<i64>,
    pub slot: i64,
}

impl View for Metadata {
    type V = MetadataView;

    open spec fn view(&self) -> MetadataView {
        MetadataView {
            address: self.address@,
            mint_address: self.mint_address@,
            name: self.name@,
            uri: self.uri@,
            seller_fee_basis_points: self.seller_fee_basis_points,
            primary_sale_happened: self.primary_sale_happened,
            update_authority_address: self.update_authority_address@,
            burned_at: self.burned_at,
            slot: self.slot,
        }
    }
}

impl Clone for Metadata {
    fn clone(&self) -> (r: Self)
        ensures
            r@ == self@,
    {
        Metadata {
            address: self.address.clone(),
            mint_address: self.mint_address.clone(),
            name: self.name.clone(),
            uri: self.uri.clone(),
            seller_fee_basis_points: self.seller_fee_basis_points,
            primary_sale_happened: self.primary_sale_happened,
            update_authority_address: self.update_authority_address.clone(),
            burned_at: self.burned_at,
            slot: self.slot,
        }
    }
}

} // verus!
