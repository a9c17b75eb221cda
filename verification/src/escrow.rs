//! The escrow: the ledger of open offers together with the holdings, and the
//! two operations that change them, each of which happens wholly or not at
//! all.
use vstd::prelude::*;
use crate::address::Address;
use crate::bank::{credited, lookup, transfer_effect, Bank, Holding};
use crate::error::EscrowError;
use crate::ledger::{Ledger, Offer};
use crate::make_offer::{new_offer, save_offer, send_offered_tokens_to_vault, MakeOffer};
use crate::pda::{lemma_offer_signer, offer_address, spec_offer_address};
use crate::take_offer::{
    release_effect,
    send_wanted_tokens_to_maker,
    withdraw_and_close_vault,
    TakeOffer,
};

verus! {

/// Whether `holding`, found at `handle`, is a holding of `mint` that belongs
/// to `owner`, and if not, why not.
///
/// A holding that is missing or holds another asset is an `AssetMismatch`.
/// One under another authority is `Unauthorized`, and so is one that is its
/// own authority: that is a vault, and belongs to nobody.
pub open spec fn user_holding_outcome(
    holding: Option<Holding>,
    handle: Address,
    owner: Address,
    mint: Address,
) -> Result<(), EscrowError> {
    match holding {
        None => Err(EscrowError::AssetMismatch),
        Some(h) => if h.mint != mint {
            Err(EscrowError::AssetMismatch)
        } else if h.authority != owner || handle == owner {
            Err(EscrowError::Unauthorized)
        } else {
            Ok(())
        },
    }
}

/// Tells whether `holding`, found at `handle`, is a holding of `mint` that
/// belongs to `owner`.
pub fn check_user_holding(
    holding: Option<Holding>,
    handle: &Address,
    owner: &Address,
    mint: &Address,
) -> (r: Result<(), EscrowError>)
    ensures
        r == user_holding_outcome(holding, *handle, *owner, *mint),
{
    match holding {
        None => Err(EscrowError::AssetMismatch),
        Some(h) => {
            if h.mint != *mint {
                Err(EscrowError::AssetMismatch)
            } else if h.authority != *owner || *handle == *owner {
                Err(EscrowError::Unauthorized)
            } else {
                Ok(())
            }
        },
    }
}

/// All that the escrow keeps: the open offers and the holdings, by address.
#[verifier::ext_equal]
pub struct EscrowState {
    /// The program under which the addresses of offers are derived.
    pub program: Address,
    /// The open offers.
    pub offers: Map<Address, Offer>,
    /// The holdings: those of the users and the vaults of the open offers.
    pub holdings: Map<Address, Holding>,
}

impl EscrowState {
    /// An offer is open exactly when its vault exists, and the vault then
    /// holds what the offer records as deposited.
    ///
    /// Every offer lives at the address derived from its maker and its
    /// identifier. Its vault is the holding at the same address, is its own
    /// authority and holds the asset that the offer names. No other holding
    /// is its own authority.
    pub open spec fn wf(self) -> bool {
        &&& forall|k: Address| #[trigger]
            self.offers.contains_key(k) ==> {
                &&& spec_offer_address(self.program, self.offers[k].maker, self.offers[k].id)
                    == Some((k, self.offers[k].bump))
                &&& self.holdings.contains_key(k)
                &&& self.holdings[k].authority == k
                &&& self.holdings[k].mint == self.offers[k].token_mint_a
                &&& self.holdings[k].amount == self.offers[k].token_a_offered_amount
            }
        &&& forall|k: Address| #[trigger]
            self.holdings.contains_key(k) && self.holdings[k].authority == k
                ==> self.offers.contains_key(k)
    }

    /// The open offer `id` of `maker`, if there is one: the offer at the
    /// address derived from the two.
    pub open spec fn get(self, maker: Address, id: u64) -> Option<Offer> {
        match spec_offer_address(self.program, maker, id) {
            Some(found) => if self.offers.contains_key(found.0) {
                Some(self.offers[found.0])
            } else {
                None
            },
            None => None,
        }
    }

    /// The vault of the offer `id` of `maker`, if there is one: the holding
    /// at the address derived from the two that is its own authority.
    pub open spec fn vault(self, maker: Address, id: u64) -> Option<Holding> {
        match spec_offer_address(self.program, maker, id) {
            Some(found) => if self.holdings.contains_key(found.0)
                && self.holdings[found.0].authority == found.0 {
                Some(self.holdings[found.0])
            } else {
                None
            },
            None => None,
        }
    }

    /// Whether an offer is made at the address `derived` for it, and if not,
    /// why not.
    ///
    /// The maker's holding must be one of the deposited asset that belongs to
    /// the maker, as `user_holding_outcome` says. Then there must be an
    /// address for the offer, with neither an offer nor a holding at it:
    /// else the refusal is `AllocationConflict`. Last, the holding must cover
    /// the deposit: else it is `InsufficientBalance`.
    pub open spec fn make_offer_outcome_at(
        self,
        accounts: MakeOffer,
        offered: u64,
        derived: Option<(Address, u8)>,
    ) -> Result<(), EscrowError> {
        let source = user_holding_outcome(
            lookup(self.holdings, accounts.maker_token_account_a),
            accounts.maker_token_account_a,
            accounts.maker,
            accounts.token_mint_a,
        );
        if source is Err {
            source
        } else {
            match derived {
                None => Err(EscrowError::AllocationConflict),
                Some(found) => if self.offers.contains_key(found.0) || self.holdings.contains_key(
                    found.0,
                ) {
                    Err(EscrowError::AllocationConflict)
                } else if self.holdings[accounts.maker_token_account_a].amount < offered {
                    Err(EscrowError::InsufficientBalance)
                } else {
                    Ok(())
                },
            }
        }
    }

    /// The state after an offer has been made at the address `found` for it:
    /// the deposit has left the maker's holding for a new vault at that
    /// address, and the offer is recorded there with the deposit.
    pub open spec fn make_offer_effect_at(
        self,
        accounts: MakeOffer,
        id: u64,
        offered: u64,
        wanted: u64,
        found: (Address, u8),
    ) -> EscrowState {
        let vault = Holding { mint: accounts.token_mint_a, authority: found.0, amount: 0 };
        EscrowState {
            program: self.program,
            offers: self.offers.insert(found.0, new_offer(accounts, id, offered, wanted, found.1)),
            holdings: transfer_effect(
                self.holdings.insert(found.0, vault),
                accounts.maker_token_account_a,
                found.0,
                offered,
            ),
        }
    }

    /// The state after an attempt to make an offer at the address `derived`
    /// for it: a refused attempt leaves the state as it was.
    pub open spec fn after_make_offer_at(
        self,
        accounts: MakeOffer,
        id: u64,
        offered: u64,
        wanted: u64,
        derived: Option<(Address, u8)>,
    ) -> EscrowState {
        if self.make_offer_outcome_at(accounts, offered, derived) is Ok {
            self.make_offer_effect_at(accounts, id, offered, wanted, derived->0)
        } else {
            self
        }
    }

    /// Whether the offer `id` of the maker is made, and if not, why not: as
    /// `make_offer_outcome_at` says of the address derived from the maker and
    /// the identifier.
    pub open spec fn make_offer_outcome(self, accounts: MakeOffer, id: u64, offered: u64) -> Result<
        (),
        EscrowError,
    > {
        self.make_offer_outcome_at(
            accounts,
            offered,
            spec_offer_address(self.program, accounts.maker, id),
        )
    }

    /// The state after the offer `id` of the maker has been made.
    pub open spec fn make_offer_effect(
        self,
        accounts: MakeOffer,
        id: u64,
        offered: u64,
        wanted: u64,
    ) -> EscrowState {
        self.make_offer_effect_at(
            accounts,
            id,
            offered,
            wanted,
            spec_offer_address(self.program, accounts.maker, id)->0,
        )
    }

    /// The state after an attempt to make the offer `id` of the maker: a
    /// refused attempt leaves the state as it was.
    pub open spec fn after_make_offer(
        self,
        accounts: MakeOffer,
        id: u64,
        offered: u64,
        wanted: u64,
    ) -> EscrowState {
        self.after_make_offer_at(
            accounts,
            id,
            offered,
            wanted,
            spec_offer_address(self.program, accounts.maker, id),
        )
    }

    /// Whether what the taker names fits the offer, and if not, why not.
    ///
    /// An offer of the maker's must be open at the address: else the refusal
    /// is `NotFound`. The two assets must be the offer's: else it is
    /// `AssetMismatch`. Then the holding that pays, the holding that is paid
    /// and the holding that receives the deposit must each be one of the
    /// right asset that belongs to the right party, as `user_holding_outcome`
    /// says, in this order.
    pub open spec fn take_offer_accounts(self, accounts: TakeOffer) -> Result<(), EscrowError> {
        let offer = self.offers[accounts.offer];
        let pays = user_holding_outcome(
            lookup(self.holdings, accounts.taker_token_account_b),
            accounts.taker_token_account_b,
            accounts.taker,
            accounts.token_mint_b,
        );
        let paid = user_holding_outcome(
            lookup(self.holdings, accounts.maker_token_account_b),
            accounts.maker_token_account_b,
            accounts.maker,
            accounts.token_mint_b,
        );
        let receives = user_holding_outcome(
            lookup(self.holdings, accounts.taker_token_account_a),
            accounts.taker_token_account_a,
            accounts.taker,
            accounts.token_mint_a,
        );
        if !self.offers.contains_key(accounts.offer) || offer.maker != accounts.maker {
            Err(EscrowError::NotFound)
        } else if offer.token_mint_a != accounts.token_mint_a || offer.token_mint_b
            != accounts.token_mint_b {
            Err(EscrowError::AssetMismatch)
        } else if pays is Err {
            pays
        } else if paid is Err {
            paid
        } else {
            receives
        }
    }

    /// Whether an offer is taken, and if not, why not: what the taker names
    /// must fit the offer, and the taker's holding must cover the wanted
    /// amount, or else the refusal is `InsufficientBalance`.
    pub open spec fn take_offer_outcome(self, accounts: TakeOffer) -> Result<(), EscrowError> {
        let fits = self.take_offer_accounts(accounts);
        if fits is Err {
            fits
        } else if self.holdings[accounts.taker_token_account_b].amount
            < self.offers[accounts.offer].token_b_wanted_amount {
            Err(EscrowError::InsufficientBalance)
        } else {
            Ok(())
        }
    }

    /// The state after an offer has been taken: the wanted amount has gone
    /// from the taker to the maker, the deposit has gone from the vault to
    /// the taker, and the vault and the offer are no more.
    pub open spec fn take_offer_effect(self, accounts: TakeOffer) -> EscrowState {
        let paid = transfer_effect(
            self.holdings,
            accounts.taker_token_account_b,
            accounts.maker_token_account_b,
            self.offers[accounts.offer].token_b_wanted_amount,
        );
        EscrowState {
            program: self.program,
            offers: self.offers.remove(accounts.offer),
            holdings: release_effect(
                paid,
                accounts,
                self.offers[accounts.offer].token_a_offered_amount,
            ),
        }
    }

    /// The state after an attempt to take an offer: a refused attempt leaves
    /// the state as it was.
    pub open spec fn after_take_offer(self, accounts: TakeOffer) -> EscrowState {
        if self.take_offer_outcome(accounts) is Ok {
            self.take_offer_effect(accounts)
        } else {
            self
        }
    }

    /// The amount that `handle` holds once an offer has been taken, where
    /// `handle` is not the vault: what it held, less the wanted amount if it
    /// paid, plus the wanted amount if it was paid, plus the deposit if it
    /// receives it. A holding that pays itself neither loses nor gains.
    pub open spec fn settled_amount(self, accounts: TakeOffer, handle: Address) -> int {
        let wanted = self.offers[accounts.offer].token_b_wanted_amount;
        let pays = accounts.taker_token_account_b;
        let paid = accounts.maker_token_account_b;
        self.holdings[handle].amount - (if handle == pays && pays != paid {
            wanted as int
        } else {
            0
        }) + (if handle == paid && pays != paid {
            wanted as int
        } else {
            0
        }) + (if handle == accounts.taker_token_account_a {
            self.offers[accounts.offer].token_a_offered_amount as int
        } else {
            0
        })
    }

    /// Whether a user's holding is opened, and if not, why not: one that
    /// would be its own authority is `Unauthorized`, and an address in use is
    /// an `AllocationConflict`.
    pub open spec fn open_account_outcome(self, handle: Address, authority: Address) -> Result<
        (),
        EscrowError,
    > {
        if handle == authority {
            Err(EscrowError::Unauthorized)
        } else if self.holdings.contains_key(handle) {
            Err(EscrowError::AllocationConflict)
        } else {
            Ok(())
        }
    }

    /// Whether an amount is issued into a user's holding, and if not, why
    /// not, given the `supply` of the holding's asset so far: a missing
    /// holding is an `AssetMismatch`, a vault is `Unauthorized`, and a supply
    /// that would pass `u64::MAX` is `InsufficientBalance`.
    pub open spec fn mint_to_outcome(self, handle: Address, amount: u64, supply: nat) -> Result<
        (),
        EscrowError,
    > {
        if !self.holdings.contains_key(handle) {
            Err(EscrowError::AssetMismatch)
        } else if self.holdings[handle].authority == handle {
            Err(EscrowError::Unauthorized)
        } else if supply + amount > u64::MAX {
            Err(EscrowError::InsufficientBalance)
        } else {
            Ok(())
        }
    }
}

/// Making an offer at the address derived for it keeps the state
/// well-formed.
pub proof fn lemma_make_offer_wf(
    s: EscrowState,
    accounts: MakeOffer,
    id: u64,
    offered: u64,
    wanted: u64,
)
    requires
        s.wf(),
        s.make_offer_outcome(accounts, id, offered) is Ok,
    ensures
        s.make_offer_effect(accounts, id, offered, wanted).wf(),
{
    let t = s.make_offer_effect(accounts, id, offered, wanted);
    let found = spec_offer_address(s.program, accounts.maker, id)->0;
    let source = accounts.maker_token_account_a;
    assert(source != found.0);
    assert forall|k: Address| #[trigger] t.offers.contains_key(k) implies {
        &&& spec_offer_address(t.program, t.offers[k].maker, t.offers[k].id) == Some(
            (k, t.offers[k].bump),
        )
        &&& t.holdings.contains_key(k)
        &&& t.holdings[k].authority == k
        &&& t.holdings[k].mint == t.offers[k].token_mint_a
        &&& t.holdings[k].amount == t.offers[k].token_a_offered_amount
    } by {
        if k != found.0 {
            assert(s.offers.contains_key(k));
            assert(k != source);
        }
    }
    assert forall|k: Address| #[trigger]
        t.holdings.contains_key(k) && t.holdings[k].authority == k implies t.offers.contains_key(
        k,
    ) by {
        if k != found.0 && k != source {
            assert(s.holdings.contains_key(k));
        }
    }
}

/// Taking an offer keeps the state well-formed.
pub proof fn lemma_take_offer_wf(s: EscrowState, accounts: TakeOffer)
    requires
        s.wf(),
        s.take_offer_outcome(accounts) is Ok,
    ensures
        s.take_offer_effect(accounts).wf(),
{
    let t = s.take_offer_effect(accounts);
    let vault = accounts.offer;
    assert(s.offers.contains_key(vault));
    assert forall|k: Address| #[trigger] t.offers.contains_key(k) implies {
        &&& spec_offer_address(t.program, t.offers[k].maker, t.offers[k].id) == Some(
            (k, t.offers[k].bump),
        )
        &&& t.holdings.contains_key(k)
        &&& t.holdings[k].authority == k
        &&& t.holdings[k].mint == t.offers[k].token_mint_a
        &&& t.holdings[k].amount == t.offers[k].token_a_offered_amount
    } by {
        assert(s.offers.contains_key(k));
        assert(k != accounts.taker_token_account_a);
        assert(k != accounts.taker_token_account_b);
        assert(k != accounts.maker_token_account_b);
    }
    assert forall|k: Address| #[trigger]
        t.holdings.contains_key(k) && t.holdings[k].authority == k implies t.offers.contains_key(
        k,
    ) by {
        assert(s.holdings.contains_key(k));
        assert(k != accounts.taker_token_account_a);
        assert(k != accounts.taker_token_account_b);
        assert(k != accounts.maker_token_account_b);
    }
}

/// The escrow: a ledger of open offers and a bank of holdings that change
/// together.
///
/// Offers come into the ledger by `make_offer` and leave it by `take_offer`,
/// and in no other way; between the two an offer and its vault stay as they
/// are. Every operation takes the escrow for itself alone, so that they
/// happen one after another. When an offer is settled, what its vault holds
/// is read again and held against the deposit that the offer records.
pub struct Escrow {
    program: Address,
    ledger: Ledger,
    bank: Bank,
}

impl Escrow {
    /// What the escrow keeps.
    pub closed spec fn view(&self) -> EscrowState {
        EscrowState {
            program: self.program,
            offers: self.ledger@,
            holdings: self.bank@,
        }
    }

    /// The amount of `mint` in all holdings together.
    pub closed spec fn supply(&self, mint: Address) -> nat {
        self.bank.supply(mint)
    }

    /// The ledger and the bank are each sound in themselves.
    pub closed spec fn sound(&self) -> bool {
        &&& self.ledger.wf()
        &&& self.bank.wf()
    }

    /// The ledger and the bank are sound, and what they keep together is
    /// well-formed.
    pub open spec fn wf(&self) -> bool {
        &&& self.sound()
        &&& self@.wf()
    }

    /// An escrow without offers or holdings, for addresses derived under
    /// `program`.
    pub fn new(program: Address) -> (escrow: Escrow)
        ensures
            escrow.wf(),
            escrow@ == (EscrowState { program, offers: Map::empty(), holdings: Map::empty() }),
            forall|mint: Address| escrow.supply(mint) == 0,
    {
        Escrow { program, ledger: Ledger::new(), bank: Bank::new() }
    }

    /// The program under which the addresses of offers are derived.
    pub fn program_id(&self) -> (program: Address)
        ensures
            program == self@.program,
    {
        self.program
    }

    /// The open offer `id` of `maker`, or `None` where there is none.
    pub fn get(&self, maker: &Address, id: u64) -> (r: Option<Offer>)
        requires
            self.wf(),
        ensures
            r == self@.get(*maker, id),
    {
        match offer_address(&self.program, maker, id) {
            Some(found) => self.ledger.get(&found.0),
            None => None,
        }
    }

    /// The holding at `handle`, or `None` where there is none.
    pub fn holding(&self, handle: &Address) -> (r: Option<Holding>)
        requires
            self.wf(),
        ensures
            r == lookup(self@.holdings, *handle),
    {
        self.bank.get(handle)
    }

    /// The amount of `mint` in all holdings together.
    pub fn total_supply(&self, mint: &Address) -> (total: u64)
        requires
            self.wf(),
        ensures
            total == self.supply(*mint),
    {
        self.bank.total_supply(mint)
    }

    /// Opens an empty holding of `mint` at `handle` for `authority`.
    pub fn open_account(&mut self, handle: Address, authority: Address, mint: Address) -> (r:
        Result<(), EscrowError>)
        requires
            old(self).wf(),
        ensures
            final(self).wf(),
            r == old(self)@.open_account_outcome(handle, authority),
            r is Ok ==> final(self)@ == (EscrowState {
                holdings: old(self)@.holdings.insert(
                    handle,
                    Holding { mint, authority, amount: 0 },
                ),
                ..old(self)@
            }),
            r is Err ==> final(self)@ == old(self)@,
            forall|m: Address| final(self).supply(m) == old(self).supply(m),
    {
        if handle == authority {
            return Err(EscrowError::Unauthorized);
        }
        let r = self.bank.open_account(handle, authority, mint);
        proof {
            if r is Ok {
                assert forall|k: Address| #[trigger]
                    self@.offers.contains_key(k) implies self@.holdings[k] == old(
                    self,
                )@.holdings[k] by {
                    assert(old(self)@.offers.contains_key(k));
                }
            }
        }
        r
    }

    /// Issues `amount` of its asset into the user's holding at `handle`.
    ///
    /// Refused with `AssetMismatch` where there is no such holding, with
    /// `Unauthorized` where it is a vault, and with `InsufficientBalance`
    /// where the asset has less than `amount` left to issue, its supply
    /// being capped at `u64::MAX`.
    pub fn mint_to(&mut self, handle: &Address, amount: u64) -> (r: Result<(), EscrowError>)
        requires
            old(self).wf(),
        ensures
            final(self).wf(),
            r == old(self)@.mint_to_outcome(
                *handle,
                amount,
                old(self).supply(old(self)@.holdings[*handle].mint),
            ),
            r is Ok ==> final(self)@ == (EscrowState {
                holdings: old(self)@.holdings.insert(
                    *handle,
                    credited(old(self)@.holdings[*handle], amount),
                ),
                ..old(self)@
            }),
            r is Ok ==> old(self)@.holdings[*handle].amount + amount <= u64::MAX,
            r is Err ==> final(self)@ == old(self)@,
            forall|m: Address|
                final(self).supply(m) == old(self).supply(m) + (if r is Ok && m == old(
                    self,
                )@.holdings[*handle].mint {
                    amount as nat
                } else {
                    0
                }),
    {
        match self.bank.get(handle) {
            None => {
                return Err(EscrowError::AssetMismatch);
            },
            Some(h) => {
                if h.authority == *handle {
                    return Err(EscrowError::Unauthorized);
                }
            },
        }
        let r = self.bank.mint_to(handle, amount);
        proof {
            if r is Ok {
                assert forall|k: Address| #[trigger]
                    self@.offers.contains_key(k) implies self@.holdings[k] == old(
                    self,
                )@.holdings[k] by {
                    assert(old(self)@.offers.contains_key(k));
                }
            }
        }
        r
    }
}

/// Makes the offer `id` of the maker at the address `derived` for it: takes
/// the deposit into a new vault at that address and records the offer there.
///
/// The offer is made exactly when `make_offer_outcome_at` is `Ok`; a refused
/// offer changes nothing. An address that is handed in must be the one that
/// the maker and the identifier derive; without one the offer is refused.
pub fn make_offer_at(
    escrow: &mut Escrow,
    accounts: &MakeOffer,
    id: u64,
    token_a_offered_amount: u64,
    token_b_wanted_amount: u64,
    derived: Option<(Address, u8)>,
) -> (r: Result<(), EscrowError>)
    requires
        old(escrow).wf(),
        derived is Some ==> derived == spec_offer_address(old(escrow)@.program, accounts.maker, id),
    ensures
        final(escrow).wf(),
        r == old(escrow)@.make_offer_outcome_at(*accounts, token_a_offered_amount, derived),
        final(escrow)@ == old(escrow)@.after_make_offer_at(
            *accounts,
            id,
            token_a_offered_amount,
            token_b_wanted_amount,
            derived,
        ),
        forall|m: Address| final(escrow).supply(m) == old(escrow).supply(m),
{
    let source = escrow.bank.get(&accounts.maker_token_account_a);
    match check_user_holding(
        source,
        &accounts.maker_token_account_a,
        &accounts.maker,
        &accounts.token_mint_a,
    ) {
        Ok(()) => {},
        Err(e) => {
            return Err(e);
        },
    }
    let (address, bump) = match derived {
        Some(found) => found,
        None => {
            return Err(EscrowError::AllocationConflict);
        },
    };
    if escrow.ledger.get(&address).is_some() || escrow.bank.get(&address).is_some() {
        return Err(EscrowError::AllocationConflict);
    }
    if source.unwrap().amount < token_a_offered_amount {
        return Err(EscrowError::InsufficientBalance);
    }
    match escrow.bank.open_account(address, address, accounts.token_mint_a) {
        Ok(()) => {},
        Err(e) => {
            return Err(e);
        },
    }
    match send_offered_tokens_to_vault(&mut escrow.bank, accounts, &address, token_a_offered_amount) {
        Ok(()) => {},
        Err(e) => {
            return Err(e);
        },
    }
    match save_offer(
        &mut escrow.ledger,
        accounts,
        address,
        bump,
        id,
        token_a_offered_amount,
        token_b_wanted_amount,
    ) {
        Ok(()) => {},
        Err(e) => {
            return Err(e);
        },
    }
    proof {
        lemma_make_offer_wf(
            old(escrow)@,
            *accounts,
            id,
            token_a_offered_amount,
            token_b_wanted_amount,
        );
    }
    Ok(())
}

/// Makes the offer `id` of the maker: takes the deposit of
/// `token_a_offered_amount` from the maker's holding into a new vault and
/// records that the maker wants `token_b_offered_amount` of the other asset
/// for it.
///
/// The offer is made exactly when `make_offer_outcome` is `Ok`. It can then
/// be looked up, and its vault holds the deposit. A refused offer changes
/// nothing. A deposit of nothing and a price of nothing are accepted like
/// any other.
pub fn make_offer(
    escrow: &mut Escrow,
    accounts: &MakeOffer,
    id: u64,
    token_a_offered_amount: u64,
    token_b_offered_amount: u64,
) -> (r: Result<(), EscrowError>)
    requires
        old(escrow).wf(),
    ensures
        final(escrow).wf(),
        r == old(escrow)@.make_offer_outcome(*accounts, id, token_a_offered_amount),
        final(escrow)@ == old(escrow)@.after_make_offer(
            *accounts,
            id,
            token_a_offered_amount,
            token_b_offered_amount,
        ),
        r is Ok ==> final(escrow)@.get(accounts.maker, id) == Some(
            new_offer(
                *accounts,
                id,
                token_a_offered_amount,
                token_b_offered_amount,
                (spec_offer_address(old(escrow)@.program, accounts.maker, id)->0).1,
            ),
        ),
        r is Ok ==> final(escrow)@.vault(accounts.maker, id) is Some && final(escrow)@.vault(
            accounts.maker,
            id,
        )->0.amount == token_a_offered_amount,
        r is Ok ==> final(escrow)@.holdings[accounts.maker_token_account_a].amount == old(
            escrow,
        )@.holdings[accounts.maker_token_account_a].amount - token_a_offered_amount,
        forall|m: Address| final(escrow).supply(m) == old(escrow).supply(m),
{
    let derived = offer_address(&escrow.program, &accounts.maker, id);
    make_offer_at(escrow, accounts, id, token_a_offered_amount, token_b_offered_amount, derived)
}

/// Takes the offer that the taker names: pays the wanted amount from the
/// taker's holding to the maker's, hands all of the vault to the taker, and
/// removes the vault and the offer.
///
/// The offer is taken exactly when `take_offer_outcome` is `Ok`. Every
/// holding but the vault then holds its `settled_amount`, and the offer can
/// no longer be looked up. A refused attempt changes nothing. The payment is
/// tried first, so that a taker who cannot pay never touches the vault. A
/// maker may take their own offer.
pub fn take_offer(escrow: &mut Escrow, accounts: &TakeOffer) -> (r: Result<(), EscrowError>)
    requires
        old(escrow).wf(),
    ensures
        final(escrow).wf(),
        r == old(escrow)@.take_offer_outcome(*accounts),
        final(escrow)@ == old(escrow)@.after_take_offer(*accounts),
        r is Ok ==> forall|handle: Address|
            old(escrow)@.holdings.contains_key(handle) && handle != accounts.offer ==> (
            #[trigger] final(escrow)@.holdings[handle]).amount == old(escrow)@.settled_amount(
                *accounts,
                handle,
            ),
        r is Ok ==> final(escrow)@.get(
            accounts.maker,
            old(escrow)@.offers[accounts.offer].id,
        ) is None,
        forall|m: Address| final(escrow).supply(m) == old(escrow).supply(m),
{
    let offer = match escrow.ledger.get(&accounts.offer) {
        Some(offer) => offer,
        None => {
            return Err(EscrowError::NotFound);
        },
    };
    if offer.maker != accounts.maker {
        return Err(EscrowError::NotFound);
    }
    if offer.token_mint_a != accounts.token_mint_a || offer.token_mint_b != accounts.token_mint_b {
        return Err(EscrowError::AssetMismatch);
    }
    match check_user_holding(
        escrow.bank.get(&accounts.taker_token_account_b),
        &accounts.taker_token_account_b,
        &accounts.taker,
        &accounts.token_mint_b,
    ) {
        Ok(()) => {},
        Err(e) => {
            return Err(e);
        },
    }
    match check_user_holding(
        escrow.bank.get(&accounts.maker_token_account_b),
        &accounts.maker_token_account_b,
        &accounts.maker,
        &accounts.token_mint_b,
    ) {
        Ok(()) => {},
        Err(e) => {
            return Err(e);
        },
    }
    match check_user_holding(
        escrow.bank.get(&accounts.taker_token_account_a),
        &accounts.taker_token_account_a,
        &accounts.taker,
        &accounts.token_mint_a,
    ) {
        Ok(()) => {},
        Err(e) => {
            return Err(e);
        },
    }
    match send_wanted_tokens_to_maker(&mut escrow.bank, accounts, &offer) {
        Ok(()) => {},
        Err(e) => {
            return Err(e);
        },
    }
    proof {
        lemma_offer_signer(
            old(escrow)@.program,
            offer.maker,
            offer.id,
            accounts.offer,
            offer.bump,
        );
    }
    match withdraw_and_close_vault(&mut escrow.bank, &escrow.program, accounts, &offer) {
        Ok(()) => {},
        Err(e) => {
            return Err(e);
        },
    }
    match escrow.ledger.close(&accounts.offer) {
        Ok(_) => {},
        Err(e) => {
            return Err(e);
        },
    }
    proof {
        lemma_take_offer_wf(old(escrow)@, *accounts);
    }
    Ok(())
}

} // verus!
