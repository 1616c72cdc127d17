//! Normalisation of marketplace events into listings, offers and purchases,
//! and the batched read layer over the normalised rows.

pub mod batch;
pub mod codec;
pub mod collection;
pub mod error;
pub mod laws;
pub mod magic_eden_haus;
pub mod model;
pub mod pubkey;
pub mod purchase_ticket;
pub mod query_root;
pub mod router;
pub mod rows;
pub mod state;
pub mod store;
pub mod token;
