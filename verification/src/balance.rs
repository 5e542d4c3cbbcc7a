use std::collections::HashMap;
use vstd::prelude::*;

use crate::balance_error::BalanceError;

verus! {

pub type BalanceId = u64;

pub type BalanceAmount = u128;

pub type Void = ();

/// The ledger as a mathematical object: account id to amount.
pub type LedgerMap = Map<u64, u128>;

/// One account: an id and the amount it holds.
#[derive(Debug, Clone, Copy, PartialEq, Eq, Structural)]
pub struct Balance {
    pub id: BalanceId,
    pub amount: BalanceAmount,
}

impl Balance {
    pub fn new(id: BalanceId, amount: BalanceAmount) -> (r: Self)
        ensures
            r == (Balance { id, amount }),
    {
        Self { id, amount }
    }

    pub fn amount(&self) -> (r: BalanceAmount)
        ensures
            r == self.amount,
    {
        self.amount
    }

    pub fn id(&self) -> (r: BalanceId)
        ensures
            r == self.id,
    {
        self.id
    }

    /// Adds `amount`. When the sum does not fit in 128 bits the account is
    /// left as it was and `Overflow` is returned.
    pub fn deposit(&mut self, amount: BalanceAmount) -> (r: Result<Void, BalanceError>)
        ensures
            final(self).id == old(self).id,
            old(self).amount + amount <= u128::MAX ==> r is Ok && final(self).amount == old(
                self,
            ).amount + amount,
            old(self).amount + amount > u128::MAX ==> r == Err::<Void, BalanceError>(
                BalanceError::Overflow,
            ) && final(self).amount == old(self).amount,
    {
        match self.amount.checked_add(amount) {
            Some(sum) => {
                self.amount = sum;
                Ok(())
            },
            None => Err(BalanceError::Overflow),
        }
    }

    /// Subtracts `amount`. When the account holds less it is left as it was
    /// and `InsufficientFunds` is returned.
    pub fn withdraw(&mut self, amount: BalanceAmount) -> (r: Result<Void, BalanceError>)
        ensures
            final(self).id == old(self).id,
            old(self).amount >= amount ==> r is Ok && final(self).amount == old(self).amount
                - amount,
            old(self).amount < amount ==> r == Err::<Void, BalanceError>(
                BalanceError::InsufficientFunds { balance: old(self).amount, amount },
            ) && final(self).amount == old(self).amount,
    {
        if self.amount < amount {
            return Err(BalanceError::InsufficientFunds { balance: self.amount, amount });
        }
        self.amount = self.amount - amount;
        Ok(())
    }
}

/// What `create_balance` does to a ledger.
pub open spec fn spec_create(m: LedgerMap, id: u64) -> Result<LedgerMap, BalanceError> {
    if m.contains_key(id) {
        Err(BalanceError::BalanceAlreadyExists(id))
    } else {
        Ok(m.insert(id, 0))
    }
}

/// What `deposit` does to a ledger.
pub open spec fn spec_deposit(m: LedgerMap, id: u64, amount: u128) -> Result<
    LedgerMap,
    BalanceError,
> {
    if !m.contains_key(id) {
        Err(BalanceError::BalanceNotFound(id))
    } else if m[id] + amount > u128::MAX {
        Err(BalanceError::Overflow)
    } else {
        Ok(m.insert(id, (m[id] + amount) as u128))
    }
}

/// What `withdraw` does to a ledger.
pub open spec fn spec_withdraw(m: LedgerMap, id: u64, amount: u128) -> Result<
    LedgerMap,
    BalanceError,
> {
    if !m.contains_key(id) {
        Err(BalanceError::BalanceNotFound(id))
    } else if m[id] < amount {
        Err(BalanceError::InsufficientFunds { balance: m[id], amount })
    } else {
        Ok(m.insert(id, (m[id] - amount) as u128))
    }
}

/// What `transfer` does to a ledger: both accounts must exist, then the
/// debit, then the credit on the debited ledger. A failed credit leaves
/// the ledger as it was before the debit.
pub open spec fn spec_transfer(m: LedgerMap, from_id: u64, to_id: u64, amount: u128) -> Result<
    LedgerMap,
    BalanceError,
> {
    if !m.contains_key(from_id) {
        Err(BalanceError::BalanceNotFound(from_id))
    } else if !m.contains_key(to_id) {
        Err(BalanceError::BalanceNotFound(to_id))
    } else {
        match spec_withdraw(m, from_id, amount) {
            Err(e) => Err(e),
            Ok(debited) => spec_deposit(debited, to_id, amount),
        }
    }
}

/// The sum of the amounts of the accounts whose id is below `bound`.
pub open spec fn sum_below(m: LedgerMap, bound: nat) -> nat
    decreases bound,
{
    if bound == 0 {
        0
    } else {
        let id = (bound - 1) as nat;
        sum_below(m, id) + if id <= u64::MAX && m.contains_key(id as u64) {
            m[id as u64] as nat
        } else {
            0
        }
    }
}

/// The sum of the amounts of all accounts.
pub open spec fn total(m: LedgerMap) -> nat {
    sum_below(m, 0x1_0000_0000_0000_0000)
}

/// Setting one account to a new amount moves the sum below `bound` by the
/// difference, if the account's id is below `bound`, and not at all otherwise.
pub proof fn lemma_sum_below_insert(m: LedgerMap, id: u64, amount: u128, bound: nat)
    ensures
        sum_below(m.insert(id, amount), bound) + (if id < bound && m.contains_key(id) {
            m[id] as nat
        } else {
            0
        }) == sum_below(m, bound) + (if id < bound {
            amount as nat
        } else {
            0
        }),
    decreases bound,
{
    if bound > 0 {
        lemma_sum_below_insert(m, id, amount, (bound - 1) as nat);
    }
}

/// An accepted transfer leaves the sum of all amounts unchanged.
pub proof fn lemma_transfer_keeps_total(m: LedgerMap, from_id: u64, to_id: u64, amount: u128)
    requires
        spec_transfer(m, from_id, to_id, amount) is Ok,
    ensures
        total(spec_transfer(m, from_id, to_id, amount)->Ok_0) == total(m),
{
    let bound: nat = 0x1_0000_0000_0000_0000;
    let debited = spec_withdraw(m, from_id, amount)->Ok_0;
    lemma_sum_below_insert(m, from_id, (m[from_id] - amount) as u128, bound);
    lemma_sum_below_insert(debited, to_id, (debited[to_id] + amount) as u128, bound);
}

/// A deposit followed by a withdrawal of the same amount from the same
/// account gives back the ledger that was there before the deposit.
pub proof fn lemma_deposit_then_withdraw(m: LedgerMap, id: u64, amount: u128)
    requires
        spec_deposit(m, id, amount) is Ok,
    ensures
        spec_withdraw(spec_deposit(m, id, amount)->Ok_0, id, amount) == Ok::<
            LedgerMap,
            BalanceError,
        >(m),
{
    let credited = spec_deposit(m, id, amount)->Ok_0;
    assert(credited.insert(id, (credited[id] - amount) as u128) =~= m);
}

/// A transfer from an account to itself that is accepted changes nothing.
pub proof fn lemma_transfer_to_self(m: LedgerMap, id: u64, amount: u128)
    requires
        m.contains_key(id),
        m[id] >= amount,
    ensures
        spec_transfer(m, id, id, amount) == Ok::<LedgerMap, BalanceError>(m),
{
    let debited = spec_withdraw(m, id, amount)->Ok_0;
    assert(debited.insert(id, (debited[id] + amount) as u128) =~= m);
}

/// An accepted transfer is undone by the transfer of the same amount in
/// the other direction.
pub proof fn lemma_transfer_back(m: LedgerMap, from_id: u64, to_id: u64, amount: u128)
    requires
        spec_transfer(m, from_id, to_id, amount) is Ok,
    ensures
        spec_transfer(spec_transfer(m, from_id, to_id, amount)->Ok_0, to_id, from_id, amount)
            == Ok::<LedgerMap, BalanceError>(m),
{
    let moved = spec_transfer(m, from_id, to_id, amount)->Ok_0;
    let debited = spec_withdraw(moved, to_id, amount)->Ok_0;
    assert(debited.insert(from_id, (debited[from_id] + amount) as u128) =~= m);
}

/// An accepted transfer touches the two accounts it names and no other.
pub proof fn lemma_transfer_touches_two(m: LedgerMap, from_id: u64, to_id: u64, amount: u128)
    requires
        spec_transfer(m, from_id, to_id, amount) is Ok,
    ensures
        ({
            let moved = spec_transfer(m, from_id, to_id, amount)->Ok_0;
            &&& moved.contains_key(from_id)
            &&& moved.contains_key(to_id)
            &&& moved == m.insert(from_id, moved[from_id]).insert(to_id, moved[to_id])
            &&& from_id != to_id ==> moved[from_id] == m[from_id] - amount && moved[to_id]
                == m[to_id] + amount
            &&& from_id == to_id ==> moved == m
        }),
{
    let moved = spec_transfer(m, from_id, to_id, amount)->Ok_0;
    assert(moved =~= m.insert(from_id, moved[from_id]).insert(to_id, moved[to_id]));
    if from_id == to_id {
        assert(moved =~= m);
    }
}

/// The in-memory ledger: every account by its id.
pub struct Balances {
    pub(crate) balances: HashMap<BalanceId, Balance>,
}

impl View for Balances {
    type V = LedgerMap;

    closed spec fn view(&self) -> LedgerMap {
        Map::new(
            |id: u64| self.balances@.contains_key(id),
            |id: u64| self.balances@[id].amount,
        )
    }
}

impl Default for Balances {
    fn default() -> (r: Self)
        ensures
            r.wf(),
            r@ == Map::<u64, u128>::empty(),
    {
        Balances::new()
    }
}

impl Clone for Balances {
    fn clone(&self) -> (r: Self)
        ensures
            self.wf() ==> r.wf(),
            r@ == self@,
    {
        Balances { balances: self.balances.clone() }
    }
}

impl Balances {
    /// Every account is stored under its own id.
    pub closed spec fn wf(&self) -> bool {
        forall|id: u64| #[trigger]
            self.balances@.contains_key(id) ==> self.balances@[id].id == id
    }

    /// A ledger without accounts.
    pub fn new() -> (r: Self)
        ensures
            r.wf(),
            r@ == Map::<u64, u128>::empty(),
    {
        let r = Balances { balances: HashMap::new() };
        assert(r@ =~= Map::<u64, u128>::empty());
        r
    }

    /// Opens an account with amount 0 under `id`, unless one exists.
    pub fn create_balance(&mut self, id: BalanceId) -> (r: Result<Void, BalanceError>)
        requires
            old(self).wf(),
        ensures
            final(self).wf(),
            match spec_create(old(self)@, id) {
                Ok(m) => r is Ok && final(self)@ == m,
                Err(e) => r == Err::<Void, BalanceError>(e) && final(self)@ == old(self)@,
            },
    {
        if self.balances.contains_key(&id) {
            return Err(BalanceError::BalanceAlreadyExists(id));
        }
        self.balances.insert(id, Balance::new(id, 0));
        assert(self@ =~= old(self)@.insert(id, 0));
        Ok(())
    }

    /// Credits `amount` to the account `id`.
    pub fn deposit(&mut self, id: BalanceId, amount: BalanceAmount) -> (r: Result<
        Void,
        BalanceError,
    >)
        requires
            old(self).wf(),
        ensures
            final(self).wf(),
            match spec_deposit(old(self)@, id, amount) {
                Ok(m) => r is Ok && final(self)@ == m,
                Err(e) => r == Err::<Void, BalanceError>(e) && final(self)@ == old(self)@,
            },
    {
        let mut balance = match self.balances.get(&id) {
            Some(found) => *found,
            None => {
                return Err(BalanceError::BalanceNotFound(id));
            },
        };
        match balance.deposit(amount) {
            Ok(()) => {
                self.balances.insert(id, balance);
                assert(self@ =~= old(self)@.insert(id, balance.amount));
                Ok(())
            },
            Err(e) => Err(e),
        }
    }

    /// Debits `amount` from the account `id`.
    pub fn withdraw(&mut self, id: BalanceId, amount: BalanceAmount) -> (r: Result<
        Void,
        BalanceError,
    >)
        requires
            old(self).wf(),
        ensures
            final(self).wf(),
            match spec_withdraw(old(self)@, id, amount) {
                Ok(m) => r is Ok && final(self)@ == m,
                Err(e) => r == Err::<Void, BalanceError>(e) && final(self)@ == old(self)@,
            },
    {
        let mut balance = match self.balances.get(&id) {
            Some(found) => *found,
            None => {
                return Err(BalanceError::BalanceNotFound(id));
            },
        };
        match balance.withdraw(amount) {
            Ok(()) => {
                self.balances.insert(id, balance);
                assert(self@ =~= old(self)@.insert(id, balance.amount));
                Ok(())
            },
            Err(e) => Err(e),
        }
    }

    /// Moves `amount` from one account to another. Both must exist; a
    /// credit that fails gives the debited amount back.
    pub fn transfer(&mut self, from_id: BalanceId, to_id: BalanceId, amount: BalanceAmount) -> (r:
        Result<Void, BalanceError>)
        requires
            old(self).wf(),
        ensures
            final(self).wf(),
            match spec_transfer(old(self)@, from_id, to_id, amount) {
                Ok(m) => r is Ok && final(self)@ == m,
                Err(e) => r == Err::<Void, BalanceError>(e) && final(self)@ == old(self)@,
            },
            total(final(self)@) == total(old(self)@),
    {
        if !self.balances.contains_key(&from_id) {
            return Err(BalanceError::BalanceNotFound(from_id));
        }
        if !self.balances.contains_key(&to_id) {
            return Err(BalanceError::BalanceNotFound(to_id));
        }
        match self.withdraw(from_id, amount) {
            Ok(()) => {},
            Err(e) => {
                return Err(e);
            },
        }
        match self.deposit(to_id, amount) {
            Ok(()) => {
                proof {
                    lemma_transfer_keeps_total(old(self)@, from_id, to_id, amount);
                }
                Ok(())
            },
            Err(e) => {
                let restored = self.deposit(from_id, amount);
                proof {
                    lemma_withdraw_then_deposit(old(self)@, from_id, amount);
                }
                Err(e)
            },
        }
    }

    /// Sets the account `balance.id` to `balance.amount`, opening it where
    /// it does not exist.
    pub(crate) fn put(&mut self, balance: Balance)
        requires
            old(self).wf(),
        ensures
            final(self).wf(),
            final(self)@ == old(self)@.insert(balance.id, balance.amount),
    {
        self.balances.insert(balance.id, balance);
        assert(self@ =~= old(self)@.insert(balance.id, balance.amount));
    }

    /// Takes the account `id` out of the ledger.
    pub(crate) fn forget(&mut self, id: BalanceId)
        requires
            old(self).wf(),
        ensures
            final(self).wf(),
            final(self)@ == old(self)@.remove(id),
    {
        self.balances.remove(&id);
        assert(self@ =~= old(self)@.remove(id));
    }

    /// The account stored under `id`.
    pub fn get_balance(&self, id: BalanceId) -> (r: Result<&Balance, BalanceError>)
        requires
            self.wf(),
        ensures
            match r {
                Ok(balance) => self@.contains_key(id) && *balance == (Balance {
                    id,
                    amount: self@[id],
                }),
                Err(e) => !self@.contains_key(id) && e == BalanceError::BalanceNotFound(id),
            },
    {
        match self.balances.get(&id) {
            Some(balance) => Ok(balance),
            None => Err(BalanceError::BalanceNotFound(id)),
        }
    }
}

/// A withdrawal followed by a deposit of the same amount to the same
/// account gives back the ledger that was there before the withdrawal.
pub proof fn lemma_withdraw_then_deposit(m: LedgerMap, id: u64, amount: u128)
    requires
        spec_withdraw(m, id, amount) is Ok,
    ensures
        spec_deposit(spec_withdraw(m, id, amount)->Ok_0, id, amount) == Ok::<
            LedgerMap,
            BalanceError,
        >(m),
{
    let debited = spec_withdraw(m, id, amount)->Ok_0;
    assert(debited.insert(id, (debited[id] + amount) as u128) =~= m);
}

} // verus!
