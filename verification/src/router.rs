//! Dispatch of feed messages to the handlers, by program identity.

use crate::error::Error;
use crate::magic_eden_haus::{instruction_outcome, process_instruction};
use crate::pubkey::{key_text, key_texts, Pubkey};
use crate::purchase_ticket::{process, ticket_outcome, PurchaseTicket};
use crate::state::{untouched, Outcome, StoreView};
use crate::store::Store;
use vstd::prelude::*;

verus! {

/// The identities of the programs whose messages are indexed. They are
/// fixed when the indexer starts.
#[derive(Clone, Copy, Debug)]
pub struct Programs {
    /// The direct marketplace program.
    pub marketplace: Pubkey,
    /// The reward center program.
    pub reward_center: Pubkey,
}

/// One invocation of a program's instruction.
#[derive(Debug)]
pub struct InstructionMessage {
    pub program_id: Pubkey,
    pub data: Vec<u8>,
    pub accounts: Vec<Pubkey>,
    pub slot: u64,
    pub write_version: u64,
}

/// The decoded state of an account, by its type.
#[derive(Clone, Copy, Debug)]
pub enum AccountData {
    PurchaseTicket(PurchaseTicket),
    /// An account type that is not indexed.
    Other,
}

/// One write of a program's account.
#[derive(Debug)]
pub struct AccountMessage {
    pub program_id: Pubkey,
    pub account_key: Pubkey,
    pub account: AccountData,
    pub slot: u64,
    pub write_version: u64,
}

/// What an instruction message makes of the store: a message of the
/// direct marketplace program goes to its handlers, any other is dropped.
pub open spec fn routed_instruction(
    programs: Programs,
    s: StoreView,
    msg: InstructionMessage,
    now: i64,
) -> Outcome {
    if msg.program_id@ == programs.marketplace@ {
        instruction_outcome(
            s,
            key_text(msg.program_id),
            msg.data@,
            key_texts(msg.accounts@),
            msg.slot,
            now,
        )
    } else {
        untouched(s)
    }
}

/// What an account message makes of the store: a purchase ticket of the
/// reward center program goes to its handler, any other is dropped.
pub open spec fn routed_account(programs: Programs, s: StoreView, msg: AccountMessage) -> Outcome {
    if msg.program_id@ == programs.reward_center@ {
        match msg.account {
            AccountData::PurchaseTicket(ticket) => ticket_outcome(
                s,
                key_text(msg.program_id),
                key_text(msg.account_key),
                ticket@,
                msg.slot,
                msg.write_version,
            ),
            AccountData::Other => untouched(s),
        }
    } else {
        untouched(s)
    }
}

impl Programs {
    /// Dispatches an instruction message. `now` is the time at which the
    /// message is handled.
    ///
    /// A message of an unknown program, or with an unknown discriminator,
    /// is dropped without error.
    pub fn route_instruction(&self, store: &mut Store, msg: &InstructionMessage, now: i64) -> (r:
        Result<(), Error>)
        requires
            old(store).wf(),
        ensures
            final(store).wf(),
            (Outcome { store: final(store)@, result: r }) == routed_instruction(
                *self,
                old(store)@,
                *msg,
                now,
            ),
    {
        if msg.program_id.same_as(&self.marketplace) {
            process_instruction(
                store,
                &msg.program_id,
                msg.data.as_slice(),
                msg.accounts.as_slice(),
                msg.slot,
                now,
            )
        } else {
            Ok(())
        }
    }

    /// Dispatches an account message.
    ///
    /// A message of an unknown program, or of an account type that is not
    /// indexed, is dropped without error.
    pub fn route_account(&self, store: &mut Store, msg: &AccountMessage) -> (r: Result<(), Error>)
        requires
            old(store).wf(),
        ensures
            final(store).wf(),
            (Outcome { store: final(store)@, result: r }) == routed_account(*self, old(store)@, *msg),
    {
        if msg.program_id.same_as(&self.reward_center) {
            match &msg.account {
                AccountData::PurchaseTicket(ticket) => process(
                    store,
                    &msg.program_id,
                    &msg.account_key,
                    ticket,
                    msg.slot,
                    msg.write_version,
                ),
                AccountData::Other => Ok(()),
            }
        } else {
            Ok(())
        }
    }
}

} // verus!
