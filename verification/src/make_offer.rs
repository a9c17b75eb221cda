//! The two steps of making an offer: the deposit and the record.
use vstd::prelude::*;
use crate::address::Address;
use crate::bank::{transfer_effect, transfer_outcome, transfer_tokens, Bank};
use crate::error::EscrowError;
use crate::ledger::{Ledger, Offer};

verus! {

/// What a maker names when making an offer.
#[derive(Clone, Copy, Debug, PartialEq, Eq)]
pub struct MakeOffer {
    /// Who makes the offer: the caller, whose identity has been verified.
    pub maker: Address,
    /// The asset to deposit.
    pub token_mint_a: Address,
    /// The asset wanted in return.
    pub token_mint_b: Address,
    /// The maker's holding that the deposit is taken from.
    pub maker_token_account_a: Address,
}

/// The offer that `save_offer` records.
pub open spec fn new_offer(
    accounts: MakeOffer,
    id: u64,
    offered: u64,
    wanted: u64,
    bump: u8,
) -> Offer {
    Offer {
        id,
        maker: accounts.maker,
        token_mint_a: accounts.token_mint_a,
        token_mint_b: accounts.token_mint_b,
        token_a_offered_amount: offered,
        token_b_wanted_amount: wanted,
        bump,
    }
}

/// Moves the offered amount from the maker's holding into the vault, on the
/// maker's word.
pub fn send_offered_tokens_to_vault(
    bank: &mut Bank,
    accounts: &MakeOffer,
    vault: &Address,
    token_a_offered_amount: u64,
) -> (r: Result<(), EscrowError>)
    requires
        old(bank).wf(),
    ensures
        final(bank).wf(),
        r == transfer_outcome(
            old(bank)@,
            accounts.maker_token_account_a,
            *vault,
            token_a_offered_amount,
            accounts.token_mint_a,
            accounts.maker,
        ),
        r is Ok ==> final(bank)@ == transfer_effect(
            old(bank)@,
            accounts.maker_token_account_a,
            *vault,
            token_a_offered_amount,
        ),
        r is Ok && accounts.maker_token_account_a != *vault ==> old(bank)@[*vault].amount
            + token_a_offered_amount <= u64::MAX,
        r is Err ==> final(bank)@ == old(bank)@,
        forall|m: Address| final(bank).supply(m) == old(bank).supply(m),
{
    transfer_tokens(
        bank,
        &accounts.maker_token_account_a,
        vault,
        &token_a_offered_amount,
        &accounts.token_mint_a,
        &accounts.maker,
    )
}

/// Records the offer at its address, with the amount that was deposited for
/// it and the amount that is wanted.
///
/// Refused with `AllocationConflict` exactly when the address holds an offer
/// already.
pub fn save_offer(
    ledger: &mut Ledger,
    accounts: &MakeOffer,
    address: Address,
    bump: u8,
    id: u64,
    token_a_offered_amount: u64,
    token_b_wanted_amount: u64,
) -> (r: Result<(), EscrowError>)
    requires
        old(ledger).wf(),
    ensures
        final(ledger).wf(),
        r == (if old(ledger)@.contains_key(address) {
            Err::<(), EscrowError>(EscrowError::AllocationConflict)
        } else {
            Ok::<(), EscrowError>(())
        }),
        r is Ok ==> final(ledger)@ == old(ledger)@.insert(
            address,
            new_offer(*accounts, id, token_a_offered_amount, token_b_wanted_amount, bump),
        ),
        r is Err ==> final(ledger)@ == old(ledger)@,
{
    ledger.insert(
        address,
        Offer {
            id,
            maker: accounts.maker,
            token_mint_a: accounts.token_mint_a,
            token_mint_b: accounts.token_mint_b,
            token_a_offered_amount,
            token_b_wanted_amount,
            bump,
        },
    )
}

} // verus!
