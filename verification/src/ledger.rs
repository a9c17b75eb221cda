//! The record of one open offer, and the ledger that keeps such records.
use vstd::prelude::*;
use crate::address::Address;
use crate::error::EscrowError;
use crate::table::Table;

verus! {

/// One open offer. Nothing in it changes while the offer is open.
#[derive(Clone, Copy, Debug, PartialEq, Eq)]
pub struct Offer {
    /// The identifier that the maker chose, unique among the maker's offers.
    pub id: u64,
    /// Who made the offer.
    pub maker: Address,
    /// The asset that was deposited.
    pub token_mint_a: Address,
    /// The asset that is wanted in return.
    pub token_mint_b: Address,
    /// The amount that was deposited when the offer was made: what its vault
    /// must hold when the offer is settled.
    pub token_a_offered_amount: u64,
    /// The amount of the wanted asset that settles the offer.
    pub token_b_wanted_amount: u64,
    /// The bump seed with which the offer's address is derived again.
    pub bump: u8,
}

/// The open offers, each under the address derived for it.
pub struct Ledger {
    table: Table<Offer>,
}

impl Ledger {
    /// The offers by address.
    pub closed spec fn view(&self) -> Map<Address, Offer> {
        self.table@
    }

    /// No address holds two offers.
    pub closed spec fn wf(&self) -> bool {
        self.table.wf()
    }

    /// A ledger without offers.
    pub fn new() -> (ledger: Ledger)
        ensures
            ledger.wf(),
            ledger@ == Map::<Address, Offer>::empty(),
    {
        Ledger { table: Table::new() }
    }

    /// The offer at `address`, if there is one.
    pub fn get(&self, address: &Address) -> (r: Option<Offer>)
        requires
            self.wf(),
        ensures
            r == (if self@.contains_key(*address) {
                Some(self@[*address])
            } else {
                None
            }),
    {
        self.table.get(address)
    }

    /// Records `offer` at `address`.
    ///
    /// Refused with `AllocationConflict` exactly when the address holds an
    /// offer already.
    pub fn insert(&mut self, address: Address, offer: Offer) -> (r: Result<(), EscrowError>)
        requires
            old(self).wf(),
        ensures
            final(self).wf(),
            r == (if old(self)@.contains_key(address) {
                Err::<(), EscrowError>(EscrowError::AllocationConflict)
            } else {
                Ok::<(), EscrowError>(())
            }),
            r is Ok ==> final(self)@ == old(self)@.insert(address, offer),
            r is Err ==> final(self)@ == old(self)@,
    {
        if self.table.position(&address).is_some() {
            return Err(EscrowError::AllocationConflict);
        }
        self.table.insert(address, offer);
        Ok(())
    }

    /// Removes the offer at `address` and returns it.
    ///
    /// Refused with `NotFound` exactly when the address holds no offer.
    pub fn close(&mut self, address: &Address) -> (r: Result<Offer, EscrowError>)
        requires
            old(self).wf(),
        ensures
            final(self).wf(),
            r == (if old(self)@.contains_key(*address) {
                Ok::<Offer, EscrowError>(old(self)@[*address])
            } else {
                Err::<Offer, EscrowError>(EscrowError::NotFound)
            }),
            r is Ok ==> final(self)@ == old(self)@.remove(*address),
            r is Err ==> final(self)@ == old(self)@,
    {
        match self.table.position(address) {
            Some(i) => {
                let offer = self.table.row(i).1;
                self.table.remove(i);
                Ok(offer)
            },
            None => Err(EscrowError::NotFound),
        }
    }
}

} // verus!
