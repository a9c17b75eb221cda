//! The steps of taking an offer: the payment to the maker, and the release of
//! the vault to the taker.
use vstd::prelude::*;
use crate::address::Address;
use crate::bank::{transfer_effect, transfer_outcome, transfer_tokens, Bank, Holding};
use crate::error::EscrowError;
use crate::ledger::Offer;
use crate::pda::{signer_address, spec_signer_address};

verus! {

/// What a taker names when taking an offer.
#[derive(Clone, Copy, Debug, PartialEq, Eq)]
pub struct TakeOffer {
    /// Who takes the offer: the caller, whose identity has been verified.
    pub taker: Address,
    /// Who made the offer.
    pub maker: Address,
    /// The asset that was deposited.
    pub token_mint_a: Address,
    /// The asset that is wanted in return.
    pub token_mint_b: Address,
    /// The taker's holding that receives the deposit.
    pub taker_token_account_a: Address,
    /// The taker's holding that the payment is taken from.
    pub taker_token_account_b: Address,
    /// The maker's holding that receives the payment.
    pub maker_token_account_b: Address,
    /// The address of the offer, which is also that of its vault.
    pub offer: Address,
}

/// Moves the wanted amount from the taker's holding to the maker's, on the
/// taker's word.
pub fn send_wanted_tokens_to_maker(bank: &mut Bank, accounts: &TakeOffer, offer: &Offer) -> (r:
    Result<(), EscrowError>)
    requires
        old(bank).wf(),
    ensures
        final(bank).wf(),
        r == transfer_outcome(
            old(bank)@,
            accounts.taker_token_account_b,
            accounts.maker_token_account_b,
            offer.token_b_wanted_amount,
            accounts.token_mint_b,
            accounts.taker,
        ),
        r is Ok ==> final(bank)@ == transfer_effect(
            old(bank)@,
            accounts.taker_token_account_b,
            accounts.maker_token_account_b,
            offer.token_b_wanted_amount,
        ),
        r is Ok && accounts.taker_token_account_b != accounts.maker_token_account_b ==> old(
            bank,
        )@[accounts.maker_token_account_b].amount + offer.token_b_wanted_amount <= u64::MAX,
        r is Err ==> final(bank)@ == old(bank)@,
        forall|m: Address| final(bank).supply(m) == old(bank).supply(m),
{
    transfer_tokens(
        bank,
        &accounts.taker_token_account_b,
        &accounts.maker_token_account_b,
        &offer.token_b_wanted_amount,
        &accounts.token_mint_b,
        &accounts.taker,
    )
}

/// Whether the vault is released on the word of `signer`, and if not, why not.
///
/// The vault must exist: else the refusal is `AssetMismatch`. It must hold
/// exactly `deposited`, no less and no more: else it is
/// `InsufficientBalance`. Then that amount must be transferable to the
/// taker's holding, as `transfer_outcome` says, and the vault must be empty
/// afterwards: else it is `AllocationConflict`.
pub open spec fn release_outcome(
    holdings: Map<Address, Holding>,
    accounts: TakeOffer,
    signer: Address,
    deposited: u64,
) -> Result<(), EscrowError> {
    let vault = accounts.offer;
    let moved = transfer_outcome(
        holdings,
        vault,
        accounts.taker_token_account_a,
        deposited,
        accounts.token_mint_a,
        signer,
    );
    if !holdings.contains_key(vault) {
        Err(EscrowError::AssetMismatch)
    } else if holdings[vault].amount != deposited {
        Err(EscrowError::InsufficientBalance)
    } else if moved is Err {
        moved
    } else if vault == accounts.taker_token_account_a && deposited != 0 {
        Err(EscrowError::AllocationConflict)
    } else {
        Ok(())
    }
}

/// The holdings after the vault has been released: the deposit is with the
/// taker, and the vault is gone.
pub open spec fn release_effect(
    holdings: Map<Address, Holding>,
    accounts: TakeOffer,
    deposited: u64,
) -> Map<Address, Holding> {
    transfer_effect(holdings, accounts.offer, accounts.taker_token_account_a, deposited).remove(
        accounts.offer,
    )
}

/// Moves the deposit from the vault to the taker's holding and closes the
/// vault, both on the word of `signer`.
///
/// What the vault holds is held against `deposited` first: a vault that
/// holds anything else is refused, and nothing moves.
pub fn release_vault(
    bank: &mut Bank,
    accounts: &TakeOffer,
    signer: &Address,
    deposited: u64,
) -> (r: Result<(), EscrowError>)
    requires
        old(bank).wf(),
    ensures
        final(bank).wf(),
        r == release_outcome(old(bank)@, *accounts, *signer, deposited),
        r is Ok ==> final(bank)@ == release_effect(old(bank)@, *accounts, deposited),
        r is Ok ==> old(bank)@[accounts.offer].amount == deposited,
        r is Ok && accounts.offer != accounts.taker_token_account_a ==> old(
            bank,
        )@[accounts.taker_token_account_a].amount + deposited <= u64::MAX,
        r is Err ==> final(bank)@ == old(bank)@,
        forall|m: Address| final(bank).supply(m) == old(bank).supply(m),
{
    match bank.get(&accounts.offer) {
        Some(vault) => {
            if vault.amount != deposited {
                return Err(EscrowError::InsufficientBalance);
            }
        },
        None => {
            return Err(EscrowError::AssetMismatch);
        },
    }
    match transfer_tokens(
        bank,
        &accounts.offer,
        &accounts.taker_token_account_a,
        &deposited,
        &accounts.token_mint_a,
        signer,
    ) {
        Ok(()) => {},
        Err(e) => {
            return Err(e);
        },
    }
    bank.close_account(&accounts.offer, signer)
}

/// Whether the vault is withdrawn and closed, and if not, why not: the
/// offer's seeds and bump seed must derive an address, or else the refusal is
/// `Unauthorized`, and the vault must be released on the word of that
/// address.
pub open spec fn withdraw_outcome(
    holdings: Map<Address, Holding>,
    accounts: TakeOffer,
    signer: Option<Address>,
    deposited: u64,
) -> Result<(), EscrowError> {
    match signer {
        Some(signer) => release_outcome(holdings, accounts, signer, deposited),
        None => Err(EscrowError::Unauthorized),
    }
}

/// Moves the deposit from the vault to the taker's holding and closes the
/// vault.
///
/// The vault must hold exactly what the offer records as deposited: what it
/// holds is read again and held against the record, and a vault that holds
/// less or more is refused with `InsufficientBalance`, with nothing moved and
/// nothing closed.
///
/// No key signs for the vault. The escrow speaks for it by deriving its
/// address again from the offer's own fields: the maker, the identifier and
/// the bump seed.
pub fn withdraw_and_close_vault(
    bank: &mut Bank,
    program: &Address,
    accounts: &TakeOffer,
    offer: &Offer,
) -> (r: Result<(), EscrowError>)
    requires
        old(bank).wf(),
    ensures
        final(bank).wf(),
        r == withdraw_outcome(
            old(bank)@,
            *accounts,
            spec_signer_address(*program, accounts.maker, offer.id, offer.bump),
            offer.token_a_offered_amount,
        ),
        !old(bank)@.contains_key(accounts.offer) || old(bank)@[accounts.offer].amount
            != offer.token_a_offered_amount ==> r is Err,
        r is Ok ==> final(bank)@ == release_effect(
            old(bank)@,
            *accounts,
            offer.token_a_offered_amount,
        ),
        r is Ok && accounts.offer != accounts.taker_token_account_a ==> old(
            bank,
        )@[accounts.taker_token_account_a].amount + offer.token_a_offered_amount <= u64::MAX,
        r is Err ==> final(bank)@ == old(bank)@,
        forall|m: Address| final(bank).supply(m) == old(bank).supply(m),
{
    let signer = signer_address(program, &accounts.maker, offer.id, offer.bump);
    match signer {
        Some(signer) => release_vault(bank, accounts, &signer, offer.token_a_offered_amount),
        None => Err(EscrowError::Unauthorized),
    }
}

} // verus!
