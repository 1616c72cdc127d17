//! The handler of the token program's burn instruction.

use crate::error::Error;
use crate::magic_eden_haus::{fits_i64, to_i64};
use crate::pubkey::{key_texts, Pubkey};
use crate::state::{applied, rejected, untouched, Outcome, StoreView};
use crate::store::Store;
use vstd::prelude::*;

verus! {

/// Number of accounts a burn instruction comes with.
pub const BURN_ACCOUNTS: usize = 3;

/// What a burn instruction makes of the store: every metadata of the
/// mint, which is the third account, is marked burned. An instruction
/// that does not come with exactly three accounts is dropped.
pub open spec fn burn_outcome(s: StoreView, accounts: Seq<Seq<char>>, slot: u64, now: i64) -> Outcome {
    if accounts.len() != BURN_ACCOUNTS {
        untouched(s)
    } else if !fits_i64(slot) {
        rejected(s, Error::Bounds)
    } else {
        applied(s.burn(accounts[2], now, slot as i64))
    }
}

/// Handles a burn instruction. `now` is the time at which the message is
/// handled.
pub fn process_burn_instruction(store: &mut Store, accounts: &[Pubkey], slot: u64, now: i64) -> (r:
    Result<(), Error>)
    requires
        old(store).wf(),
    ensures
        final(store).wf(),
        (Outcome { store: final(store)@, result: r }) == burn_outcome(
            old(store)@,
            key_texts(accounts@),
            slot,
            now,
        ),
{
    if accounts.len() != BURN_ACCOUNTS {
        return Ok(());
    }
    let mint = accounts[2].to_base58();
    let slot_i = match to_i64(slot) {
        Ok(v) => v,
        Err(e) => {
            return Err(e);
        },
    };
    store.burn(&mint, now, slot_i);
    Ok(())
}

} // verus!
