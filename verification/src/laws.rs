//! What holds of the escrow whatever is asked of it.
use vstd::prelude::*;
use crate::address::Address;
use crate::error::EscrowError;
use crate::escrow::EscrowState;
use crate::make_offer::{new_offer, MakeOffer};
use crate::pda::spec_offer_address;
use crate::take_offer::TakeOffer;

verus! {

/// Making an offer happens wholly or not at all.
///
/// After an offer has been made it can be looked up as it was made, and its
/// vault holds exactly the deposit, in the deposited asset. After a refused
/// attempt the state is as it was: an offer that was not open is not open,
/// and no vault has appeared for it.
pub proof fn law_make_offer_atomic(
    s: EscrowState,
    accounts: MakeOffer,
    id: u64,
    offered: u64,
    wanted: u64,
)
    requires
        s.wf(),
    ensures
        ({
            let t = s.after_make_offer(accounts, id, offered, wanted);
            let made = s.make_offer_outcome(accounts, id, offered) is Ok;
            let found = spec_offer_address(s.program, accounts.maker, id);
            &&& t.wf()
            &&& made ==> found is Some && t.get(accounts.maker, id) == Some(
                new_offer(accounts, id, offered, wanted, (found->0).1),
            )
            &&& made ==> t.vault(accounts.maker, id) is Some
            &&& made ==> t.vault(accounts.maker, id)->0.amount == offered
            &&& made ==> t.vault(accounts.maker, id)->0.mint == accounts.token_mint_a
            &&& !made ==> t == s
            &&& !made && s.get(accounts.maker, id) is None ==> t.get(accounts.maker, id) is None
                && t.vault(accounts.maker, id) is None
        }),
{
    if s.make_offer_outcome(accounts, id, offered) is Ok {
        crate::escrow::lemma_make_offer_wf(s, accounts, id, offered, wanted);
    } else {
        law_offer_iff_vault(s, accounts.maker, id);
    }
}

/// An offer is open exactly when its vault exists, and the vault of an open
/// offer holds exactly what was deposited when the offer was made, as the
/// offer records it, in the asset that the offer names.
pub proof fn law_offer_iff_vault(s: EscrowState, maker: Address, id: u64)
    requires
        s.wf(),
    ensures
        s.get(maker, id) is Some <==> s.vault(maker, id) is Some,
        s.get(maker, id) is Some ==> s.vault(maker, id)->0.amount == s.get(
            maker,
            id,
        )->0.token_a_offered_amount,
        s.get(maker, id) is Some ==> s.vault(maker, id)->0.mint == s.get(maker, id)->0.token_mint_a,
{
    match spec_offer_address(s.program, maker, id) {
        Some(found) => {
            if s.offers.contains_key(found.0) {
            }
            if s.holdings.contains_key(found.0) && s.holdings[found.0].authority == found.0 {
            }
        },
        None => {},
    }
}

/// The state at the start is well-formed, and making or taking an offer
/// keeps it so.
pub proof fn law_well_formed(
    s: EscrowState,
    making: MakeOffer,
    id: u64,
    offered: u64,
    wanted: u64,
    taking: TakeOffer,
)
    requires
        s.wf(),
    ensures
        (EscrowState { program: s.program, offers: Map::empty(), holdings: Map::empty() }).wf(),
        s.after_make_offer(making, id, offered, wanted).wf(),
        s.after_take_offer(taking).wf(),
{
    if s.make_offer_outcome(making, id, offered) is Ok {
        crate::escrow::lemma_make_offer_wf(s, making, id, offered, wanted);
    }
    if s.take_offer_outcome(taking) is Ok {
        crate::escrow::lemma_take_offer_wf(s, taking);
    }
}

/// When an offer is taken, the taker's holding of the deposited asset gains
/// exactly the deposit, the maker's holding of the wanted asset gains exactly
/// the wanted amount, and the offer can no longer be looked up.
///
/// The gains are stated of the `settled_amount` that `take_offer` leaves in
/// each holding. A payment passes only between two distinct holdings. The
/// first gain is stated where no payment passes or the receiving holding has
/// no part in it; the second where the maker's holding gains the wanted
/// amount in all, the payment and a deposit that it may receive as well
/// taken together.
pub proof fn law_settlement_exchange(s: EscrowState, accounts: TakeOffer)
    requires
        s.wf(),
        s.take_offer_outcome(accounts) is Ok,
    ensures
        ({
            let offer = s.offers[accounts.offer];
            let wanted = offer.token_b_wanted_amount;
            let deposit = offer.token_a_offered_amount;
            let receives = accounts.taker_token_account_a;
            let pays = accounts.taker_token_account_b;
            let paid = accounts.maker_token_account_b;
            let payment: int = if pays != paid {
                wanted as int
            } else {
                0
            };
            let received: int = if paid == receives {
                deposit as int
            } else {
                0
            };
            &&& s.get(offer.maker, offer.id) == Some(offer)
            &&& s.vault(offer.maker, offer.id) is Some
            &&& s.vault(offer.maker, offer.id)->0.amount == deposit
            &&& payment == 0 || (receives != pays && receives != paid) ==> s.settled_amount(
                accounts,
                receives,
            ) == s.holdings[receives].amount + deposit
            &&& payment + received == wanted ==> s.settled_amount(accounts, paid)
                == s.holdings[paid].amount + wanted
            &&& s.after_take_offer(accounts).get(offer.maker, offer.id) is None
            &&& s.after_take_offer(accounts).vault(offer.maker, offer.id) is None
        }),
{
    assert(s.offers.contains_key(accounts.offer));
}

/// An offer is taken once: whoever tries to take it again, and whatever else
/// they name, the attempt is refused because the offer is not found.
pub proof fn law_no_double_settle(s: EscrowState, first: TakeOffer, second: TakeOffer)
    requires
        s.take_offer_outcome(first) is Ok,
        second.offer == first.offer,
    ensures
        s.after_take_offer(first).take_offer_outcome(second) == Err::<(), EscrowError>(
            EscrowError::NotFound,
        ),
        s.after_take_offer(first).after_take_offer(second) == s.after_take_offer(first),
{
}

/// A taker whose holding does not cover the wanted amount is refused for
/// want of balance, where what the taker names fits the offer, and the
/// attempt leaves everything as it was: the offer is still open and its
/// vault holds what it held.
pub proof fn law_underfunded_taker(s: EscrowState, accounts: TakeOffer)
    requires
        s.take_offer_accounts(accounts) is Ok,
        s.holdings[accounts.taker_token_account_b].amount
            < s.offers[accounts.offer].token_b_wanted_amount,
    ensures
        s.take_offer_outcome(accounts) == Err::<(), EscrowError>(EscrowError::InsufficientBalance),
        s.after_take_offer(accounts) == s,
{
}

} // verus!
