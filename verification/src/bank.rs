//! Holdings of assets, and the movement of amounts between them.
use vstd::prelude::*;
use crate::address::Address;
use crate::error::EscrowError;
use crate::table::Table;

verus! {

/// An amount of one asset, under the authority of one address.
#[derive(Clone, Copy, Debug, PartialEq, Eq)]
pub struct Holding {
    /// The asset that the holding is denominated in.
    pub mint: Address,
    /// The address that may move amounts out of the holding.
    pub authority: Address,
    /// The amount held.
    pub amount: u64,
}

/// What a holding adds to the supply of `mint`.
spec fn share(h: Holding, mint: Address) -> nat {
    if h.mint == mint {
        h.amount as nat
    } else {
        0
    }
}

/// The amount of `mint` that all the rows hold together.
spec fn supply_of(rows: Seq<(Address, Holding)>, mint: Address) -> nat
    decreases rows.len(),
{
    if rows.len() == 0 {
        0
    } else {
        supply_of(rows.drop_last(), mint) + share(rows.last().1, mint)
    }
}

proof fn lemma_supply_push(rows: Seq<(Address, Holding)>, k: Address, h: Holding, mint: Address)
    ensures
        supply_of(rows.push((k, h)), mint) == supply_of(rows, mint) + share(h, mint),
{
    assert(rows.push((k, h)).drop_last() =~= rows);
}

proof fn lemma_supply_update(rows: Seq<(Address, Holding)>, i: int, h: Holding, mint: Address)
    requires
        0 <= i < rows.len(),
    ensures
        supply_of(rows.update(i, (rows[i].0, h)), mint) + share(rows[i].1, mint) == supply_of(
            rows,
            mint,
        ) + share(h, mint),
    decreases rows.len(),
{
    let next = rows.update(i, (rows[i].0, h));
    if i == rows.len() - 1 {
        assert(next.drop_last() =~= rows.drop_last());
    } else {
        assert(next.drop_last() =~= rows.drop_last().update(i, (rows[i].0, h)));
        lemma_supply_update(rows.drop_last(), i, h, mint);
    }
}

proof fn lemma_supply_remove(rows: Seq<(Address, Holding)>, i: int, mint: Address)
    requires
        0 <= i < rows.len(),
    ensures
        supply_of(rows.remove(i), mint) + share(rows[i].1, mint) == supply_of(rows, mint),
    decreases rows.len(),
{
    if i == rows.len() - 1 {
        assert(rows.remove(i) =~= rows.drop_last());
    } else {
        assert(rows.remove(i).drop_last() =~= rows.drop_last().remove(i));
        assert(rows.remove(i).last() == rows.last());
        lemma_supply_remove(rows.drop_last(), i, mint);
    }
}

proof fn lemma_supply_prefix(rows: Seq<(Address, Holding)>, n: int, mint: Address)
    requires
        0 <= n <= rows.len(),
    ensures
        supply_of(rows.take(n), mint) <= supply_of(rows, mint),
        n < rows.len() ==> supply_of(rows.take(n + 1), mint) == supply_of(rows.take(n), mint)
            + share(rows[n].1, mint),
    decreases rows.len(),
{
    if n == rows.len() {
        assert(rows.take(n) =~= rows);
    } else {
        assert(rows.take(n) =~= rows.drop_last().take(n));
        lemma_supply_prefix(rows.drop_last(), n, mint);
        assert(rows.take(n + 1).drop_last() =~= rows.take(n));
    }
}

proof fn lemma_supply_bound(rows: Seq<(Address, Holding)>, i: int, mint: Address)
    requires
        0 <= i < rows.len(),
    ensures
        share(rows[i].1, mint) <= supply_of(rows, mint),
    decreases rows.len(),
{
    if i < rows.len() - 1 {
        lemma_supply_bound(rows.drop_last(), i, mint);
    }
}

proof fn lemma_supply_pair(rows: Seq<(Address, Holding)>, i: int, j: int, mint: Address)
    requires
        0 <= i < rows.len(),
        0 <= j < rows.len(),
        i != j,
    ensures
        share(rows[i].1, mint) + share(rows[j].1, mint) <= supply_of(rows, mint),
{
    let emptied = Holding { amount: 0, ..rows[i].1 };
    lemma_supply_update(rows, i, emptied, mint);
    lemma_supply_bound(rows.update(i, (rows[i].0, emptied)), j, mint);
}

/// The holding at `handle`, if there is one.
pub open spec fn lookup(holdings: Map<Address, Holding>, handle: Address) -> Option<Holding> {
    if holdings.contains_key(handle) {
        Some(holdings[handle])
    } else {
        None
    }
}

/// The holding with `amount` taken out.
pub open spec fn debited(h: Holding, amount: u64) -> Holding {
    Holding { amount: (h.amount - amount) as u64, ..h }
}

/// The holding with `amount` put in.
pub open spec fn credited(h: Holding, amount: u64) -> Holding {
    Holding { amount: (h.amount + amount) as u64, ..h }
}

/// Whether a transfer is carried out, and if not, why not.
///
/// Both holdings must exist and be denominated in `mint`, `authority` must be
/// the authority of the source, and the source must hold at least `amount`.
pub open spec fn transfer_outcome(
    holdings: Map<Address, Holding>,
    from: Address,
    to: Address,
    amount: u64,
    mint: Address,
    authority: Address,
) -> Result<(), EscrowError> {
    if !holdings.contains_key(from) || !holdings.contains_key(to) || holdings[from].mint != mint
        || holdings[to].mint != mint {
        Err(EscrowError::AssetMismatch)
    } else if holdings[from].authority != authority {
        Err(EscrowError::Unauthorized)
    } else if holdings[from].amount < amount {
        Err(EscrowError::InsufficientBalance)
    } else {
        Ok(())
    }
}

/// The holdings after `amount` has moved from `from` to `to`.
pub open spec fn transfer_effect(
    holdings: Map<Address, Holding>,
    from: Address,
    to: Address,
    amount: u64,
) -> Map<Address, Holding> {
    if from == to {
        holdings
    } else {
        holdings.insert(from, debited(holdings[from], amount)).insert(
            to,
            credited(holdings[to], amount),
        )
    }
}

/// Whether a holding is closed, and if not, why not.
pub open spec fn close_outcome(
    holdings: Map<Address, Holding>,
    handle: Address,
    authority: Address,
) -> Result<(), EscrowError> {
    if !holdings.contains_key(handle) {
        Err(EscrowError::AssetMismatch)
    } else if holdings[handle].authority != authority {
        Err(EscrowError::Unauthorized)
    } else if holdings[handle].amount != 0 {
        Err(EscrowError::AllocationConflict)
    } else {
        Ok(())
    }
}

/// All holdings, each under its own address.
///
/// For every asset the holdings together never exceed `u64::MAX`, so that no
/// transfer can overflow the holding it pays into.
pub struct Bank {
    table: Table<Holding>,
}

impl Bank {
    /// The holdings by address.
    pub closed spec fn view(&self) -> Map<Address, Holding> {
        self.table@
    }

    /// The amount of `mint` in all holdings together.
    pub closed spec fn supply(&self, mint: Address) -> nat {
        supply_of(self.table.rows(), mint)
    }

    /// Addresses are distinct and every supply fits in a `u64`.
    pub closed spec fn wf(&self) -> bool {
        &&& self.table.wf()
        &&& forall|mint: Address| #[trigger] supply_of(self.table.rows(), mint) <= u64::MAX
    }

    /// A bank without holdings.
    pub fn new() -> (bank: Bank)
        ensures
            bank.wf(),
            bank@ == Map::<Address, Holding>::empty(),
            forall|mint: Address| bank.supply(mint) == 0,
    {
        Bank { table: Table::new() }
    }

    /// The holding at `handle`, if there is one.
    pub fn get(&self, handle: &Address) -> (r: Option<Holding>)
        requires
            self.wf(),
        ensures
            r == lookup(self@, *handle),
    {
        self.table.get(handle)
    }

    /// The amount of `mint` in all holdings together.
    pub fn total_supply(&self, mint: &Address) -> (total: u64)
        requires
            self.wf(),
        ensures
            total == self.supply(*mint),
    {
        let mut total: u64 = 0;
        let mut i: usize = 0;
        let n = self.table.len();
        while i < n
            invariant
                self.wf(),
                n == self.table.rows().len(),
                i <= n,
                total == supply_of(self.table.rows().take(i as int), *mint),
            decreases n - i,
        {
            let h = self.table.row(i).1;
            proof {
                lemma_supply_prefix(self.table.rows(), i as int, *mint);
                lemma_supply_prefix(self.table.rows(), i + 1, *mint);
            }
            if h.mint == *mint {
                total = total + h.amount;
            }
            i += 1;
        }
        proof {
            assert(self.table.rows().take(n as int) =~= self.table.rows());
        }
        total
    }

    /// Opens an empty holding of `mint` at `handle` under `authority`.
    ///
    /// Refused with `AllocationConflict` exactly when `handle` is in use.
    pub fn open_account(&mut self, handle: Address, authority: Address, mint: Address) -> (r:
        Result<(), EscrowError>)
        requires
            old(self).wf(),
        ensures
            final(self).wf(),
            r == (if old(self)@.contains_key(handle) {
                Err::<(), EscrowError>(EscrowError::AllocationConflict)
            } else {
                Ok::<(), EscrowError>(())
            }),
            r is Ok ==> final(self)@ == old(self)@.insert(
                handle,
                Holding { mint, authority, amount: 0 },
            ),
            r is Err ==> final(self)@ == old(self)@,
            forall|m: Address| final(self).supply(m) == old(self).supply(m),
    {
        if self.table.position(&handle).is_some() {
            return Err(EscrowError::AllocationConflict);
        }
        let h = Holding { mint, authority, amount: 0 };
        proof {
            assert forall|m: Address|
                #[trigger] supply_of(self.table.rows().push((handle, h)), m) == supply_of(
                    self.table.rows(),
                    m,
                ) by {
                lemma_supply_push(self.table.rows(), handle, h, m);
            }
        }
        self.table.insert(handle, h);
        Ok(())
    }

    /// Closes the empty holding at `handle` on the word of its authority.
    pub fn close_account(&mut self, handle: &Address, authority: &Address) -> (r: Result<
        (),
        EscrowError,
    >)
        requires
            old(self).wf(),
        ensures
            final(self).wf(),
            r == close_outcome(old(self)@, *handle, *authority),
            r is Ok ==> final(self)@ == old(self)@.remove(*handle),
            r is Err ==> final(self)@ == old(self)@,
            forall|m: Address| final(self).supply(m) == old(self).supply(m),
    {
        let i = match self.table.position(handle) {
            Some(i) => i,
            None => {
                return Err(EscrowError::AssetMismatch);
            },
        };
        let h = self.table.row(i).1;
        if h.authority != *authority {
            return Err(EscrowError::Unauthorized);
        }
        if h.amount != 0 {
            return Err(EscrowError::AllocationConflict);
        }
        proof {
            assert forall|m: Address|
                #[trigger] supply_of(self.table.rows().remove(i as int), m) == supply_of(
                    self.table.rows(),
                    m,
                ) by {
                lemma_supply_remove(self.table.rows(), i as int, m);
            }
        }
        self.table.remove(i);
        Ok(())
    }

    /// Issues `amount` of its asset into the holding at `handle`.
    ///
    /// Refused with `AssetMismatch` where there is no such holding, and with
    /// `InsufficientBalance` where the asset has less than `amount` left to
    /// issue, its supply being capped at `u64::MAX`.
    pub fn mint_to(&mut self, handle: &Address, amount: u64) -> (r: Result<(), EscrowError>)
        requires
            old(self).wf(),
        ensures
            final(self).wf(),
            r == (if !old(self)@.contains_key(*handle) {
                Err::<(), EscrowError>(EscrowError::AssetMismatch)
            } else if old(self).supply(old(self)@[*handle].mint) + amount > u64::MAX {
                Err::<(), EscrowError>(EscrowError::InsufficientBalance)
            } else {
                Ok::<(), EscrowError>(())
            }),
            r is Ok ==> final(self)@ == old(self)@.insert(
                *handle,
                credited(old(self)@[*handle], amount),
            ),
            r is Ok ==> old(self)@[*handle].amount + amount <= u64::MAX,
            r is Err ==> final(self)@ == old(self)@,
            forall|m: Address|
                final(self).supply(m) == old(self).supply(m) + (if r is Ok && m == old(
                    self,
                )@[*handle].mint {
                    amount as nat
                } else {
                    0
                }),
    {
        let i = match self.table.position(handle) {
            Some(i) => i,
            None => {
                return Err(EscrowError::AssetMismatch);
            },
        };
        let h = self.table.row(i).1;
        let issued = self.total_supply(&h.mint);
        if amount > u64::MAX - issued {
            return Err(EscrowError::InsufficientBalance);
        }
        proof {
            lemma_supply_bound(self.table.rows(), i as int, h.mint);
        }
        let next = Holding { amount: h.amount + amount, ..h };
        proof {
            assert forall|m: Address|
                #[trigger] supply_of(self.table.rows().update(i as int, (*handle, next)), m)
                    == supply_of(self.table.rows(), m) + (if m == h.mint {
                    amount as nat
                } else {
                    0
                }) by {
                lemma_supply_update(self.table.rows(), i as int, next, m);
            }
        }
        self.table.set(i, next);
        Ok(())
    }
}

/// Moves `amount` of the asset `mint` from one holding to another on the word
/// of `authority`.
///
/// The transfer is carried out exactly when `transfer_outcome` is `Ok`, and a
/// refused transfer changes nothing. The supply of every asset stays as it is.
pub fn transfer_tokens(
    bank: &mut Bank,
    from: &Address,
    to: &Address,
    amount: &u64,
    mint: &Address,
    authority: &Address,
) -> (r: Result<(), EscrowError>)
    requires
        old(bank).wf(),
    ensures
        final(bank).wf(),
        r == transfer_outcome(old(bank)@, *from, *to, *amount, *mint, *authority),
        r is Ok ==> final(bank)@ == transfer_effect(old(bank)@, *from, *to, *amount),
        r is Ok && *from != *to ==> old(bank)@[*to].amount + *amount <= u64::MAX,
        r is Err ==> final(bank)@ == old(bank)@,
        forall|m: Address| final(bank).supply(m) == old(bank).supply(m),
{
    let i = match bank.table.position(from) {
        Some(i) => i,
        None => {
            return Err(EscrowError::AssetMismatch);
        },
    };
    let j = match bank.table.position(to) {
        Some(j) => j,
        None => {
            return Err(EscrowError::AssetMismatch);
        },
    };
    let source = bank.table.row(i).1;
    let target = bank.table.row(j).1;
    if source.mint != *mint || target.mint != *mint {
        return Err(EscrowError::AssetMismatch);
    }
    if source.authority != *authority {
        return Err(EscrowError::Unauthorized);
    }
    if source.amount < *amount {
        return Err(EscrowError::InsufficientBalance);
    }
    if i == j {
        return Ok(());
    }
    proof {
        lemma_supply_pair(bank.table.rows(), i as int, j as int, *mint);
    }
    let ghost before = bank.table.rows();
    let less = Holding { amount: source.amount - *amount, ..source };
    let more = Holding { amount: target.amount + *amount, ..target };
    bank.table.set(i, less);
    let ghost between = bank.table.rows();
    bank.table.set(j, more);
    proof {
        assert forall|m: Address|
            #[trigger] supply_of(bank.table.rows(), m) == supply_of(before, m) by {
            lemma_supply_update(before, i as int, less, m);
            lemma_supply_update(between, j as int, more, m);
        }
    }
    Ok(())
}

} // verus!
