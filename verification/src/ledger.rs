//! The arithmetic of the ledger: how a transfer, a mint and a burn change
//! balances and supply. Every step is checked: none wraps around.

use crate::error::TokenError;
use vstd::prelude::*;

verus! {

/// The balances of source and destination after `amount` has moved from the
/// one to the other.
///
/// Fails with `InsufficientFunds` where the source holds less than `amount`,
/// and with `TransferExceedsLimit` where the destination's balance would
/// exceed what 64 bits can hold.
pub open spec fn moved(source: u64, dest: u64, amount: u64) -> Result<(u64, u64), TokenError> {
    if source < amount {
        Err(TokenError::InsufficientFunds)
    } else if dest + amount > u64::MAX {
        Err(TokenError::TransferExceedsLimit)
    } else {
        Ok(((source - amount) as u64, (dest + amount) as u64))
    }
}

/// Supply and destination balance after `amount` has been minted.
///
/// Fails with `TransferExceedsLimit` where the supply or the balance would
/// exceed what 64 bits can hold.
pub open spec fn minted(supply: u64, dest: u64, amount: u64) -> Result<(u64, u64), TokenError> {
    if supply + amount > u64::MAX || dest + amount > u64::MAX {
        Err(TokenError::TransferExceedsLimit)
    } else {
        Ok(((supply + amount) as u64, (dest + amount) as u64))
    }
}

/// Supply and source balance after `amount` has been burned.
///
/// Fails with `InsufficientFunds` where the source or the supply holds less
/// than `amount`.
pub open spec fn burned(supply: u64, source: u64, amount: u64) -> Result<(u64, u64), TokenError> {
    if source < amount || supply < amount {
        Err(TokenError::InsufficientFunds)
    } else {
        Ok(((supply - amount) as u64, (source - amount) as u64))
    }
}

/// Moves `amount` from a source balance to a destination balance.
pub fn move_amount(source: u64, dest: u64, amount: u64) -> (r: Result<(u64, u64), TokenError>)
    ensures
        r == moved(source, dest, amount),
        r matches Ok((s, d)) ==> s + d == source + dest,
{
    if source < amount {
        return Err(TokenError::InsufficientFunds);
    }
    match dest.checked_add(amount) {
        Some(d) => Ok((source - amount, d)),
        None => Err(TokenError::TransferExceedsLimit),
    }
}

/// Adds `amount` to the supply and to a destination balance.
pub fn mint_amount(supply: u64, dest: u64, amount: u64) -> (r: Result<(u64, u64), TokenError>)
    ensures
        r == minted(supply, dest, amount),
        r matches Ok((s, d)) ==> s - d == supply - dest,
{
    let new_supply = match supply.checked_add(amount) {
        Some(s) => s,
        None => {
            return Err(TokenError::TransferExceedsLimit);
        },
    };
    match dest.checked_add(amount) {
        Some(d) => Ok((new_supply, d)),
        None => Err(TokenError::TransferExceedsLimit),
    }
}

/// Takes `amount` from the supply and from a source balance.
pub fn burn_amount(supply: u64, source: u64, amount: u64) -> (r: Result<(u64, u64), TokenError>)
    ensures
        r == burned(supply, source, amount),
        r matches Ok((s, b)) ==> s - b == supply - source,
{
    if source < amount {
        return Err(TokenError::InsufficientFunds);
    }
    match supply.checked_sub(amount) {
        Some(s) => Ok((s, source - amount)),
        None => Err(TokenError::InsufficientFunds),
    }
}

/// The ledger of one token as the engine sees it: the supply, and the
/// balance of each of the token's accounts.
pub struct Ledger {
    pub supply: u64,
    pub balances: Seq<u64>,
}

/// An operation of the engine. A forced transfer and a recovery move a
/// balance as a transfer does, so they are transfers here.
pub enum Operation {
    /// Move `amount` from account `from` to account `to`.
    Transfer { from: int, to: int, amount: u64 },
    /// Create `amount` in account `to`.
    Mint { to: int, amount: u64 },
    /// Destroy `amount` in account `from`.
    Burn { from: int, amount: u64 },
}

/// The sum of the balances.
pub open spec fn total(balances: Seq<u64>) -> int
    decreases balances.len(),
{
    if balances.len() == 0 {
        0
    } else {
        total(balances.drop_last()) + balances.last()
    }
}

impl Ledger {
    /// The supply equals the sum of the balances.
    pub open spec fn balanced(self) -> bool {
        self.supply == total(self.balances)
    }

    /// Account `i` is one of the ledger's accounts.
    pub open spec fn has(self, i: int) -> bool {
        0 <= i < self.balances.len()
    }

    /// The ledger after one operation. An operation that is rejected, or
    /// that names an account which the ledger does not have, leaves the
    /// ledger as it was. A transfer from an account to itself, once
    /// accepted, leaves the balance as it was.
    pub open spec fn step(self, op: Operation) -> Ledger {
        match op {
            Operation::Transfer { from, to, amount } => if self.has(from) && self.has(to) {
                match moved(self.balances[from], self.balances[to], amount) {
                    Ok((left, arrived)) => if from == to {
                        self
                    } else {
                        Ledger {
                            supply: self.supply,
                            balances: self.balances.update(from, left).update(to, arrived),
                        }
                    },
                    Err(_) => self,
                }
            } else {
                self
            },
            Operation::Mint { to, amount } => if self.has(to) {
                match minted(self.supply, self.balances[to], amount) {
                    Ok((supply, balance)) => Ledger {
                        supply,
                        balances: self.balances.update(to, balance),
                    },
                    Err(_) => self,
                }
            } else {
                self
            },
            Operation::Burn { from, amount } => if self.has(from) {
                match burned(self.supply, self.balances[from], amount) {
                    Ok((supply, balance)) => Ledger {
                        supply,
                        balances: self.balances.update(from, balance),
                    },
                    Err(_) => self,
                }
            } else {
                self
            },
        }
    }

    /// The ledger after a sequence of operations, each applied to what the
    /// one before it left.
    pub open spec fn run(self, ops: Seq<Operation>) -> Ledger
        decreases ops.len(),
    {
        if ops.len() == 0 {
            self
        } else {
            self.run(ops.drop_last()).step(ops.last())
        }
    }
}

/// Replacing one balance changes the sum by the difference of the new and
/// the old balance.
pub proof fn lemma_total_update(balances: Seq<u64>, i: int, v: u64)
    requires
        0 <= i < balances.len(),
    ensures
        total(balances.update(i, v)) == total(balances) - balances[i] + v,
    decreases balances.len(),
{
    let last = balances.len() - 1;
    if i == last {
        assert(balances.update(i, v).drop_last() =~= balances.drop_last());
    } else {
        assert(balances.update(i, v).drop_last() =~= balances.drop_last().update(i, v));
        lemma_total_update(balances.drop_last(), i, v);
    }
}

/// A transfer changes neither the supply nor the sum of the balances.
pub proof fn lemma_transfer_conserves(ledger: Ledger, from: int, to: int, amount: u64)
    ensures
        ledger.step(Operation::Transfer { from, to, amount }).supply == ledger.supply,
        total(ledger.step(Operation::Transfer { from, to, amount }).balances) == total(
            ledger.balances,
        ),
        ledger.step(Operation::Transfer { from, to, amount }).balances.len()
            == ledger.balances.len(),
{
    if ledger.has(from) && ledger.has(to) && from != to {
        match moved(ledger.balances[from], ledger.balances[to], amount) {
            Ok((left, arrived)) => {
                lemma_total_update(ledger.balances, from, left);
                lemma_total_update(ledger.balances.update(from, left), to, arrived);
            },
            Err(_) => {},
        }
    }
}

/// Every operation changes the supply and the sum of the balances by the
/// same amount: the difference of the two stays what it was.
pub proof fn lemma_step_keeps_difference(ledger: Ledger, op: Operation)
    ensures
        ledger.step(op).supply - total(ledger.step(op).balances) == ledger.supply - total(
            ledger.balances,
        ),
        ledger.step(op).balances.len() == ledger.balances.len(),
{
    match op {
        Operation::Transfer { from, to, amount } => {
            lemma_transfer_conserves(ledger, from, to, amount);
        },
        Operation::Mint { to, amount } => {
            if ledger.has(to) {
                match minted(ledger.supply, ledger.balances[to], amount) {
                    Ok((supply, balance)) => {
                        lemma_total_update(ledger.balances, to, balance);
                    },
                    Err(_) => {},
                }
            }
        },
        Operation::Burn { from, amount } => {
            if ledger.has(from) {
                match burned(ledger.supply, ledger.balances[from], amount) {
                    Ok((supply, balance)) => {
                        lemma_total_update(ledger.balances, from, balance);
                    },
                    Err(_) => {},
                }
            }
        },
    }
}

/// Conservation under transfers: after any sequence of transfers, forced
/// transfers and recoveries, the supply and the sum of the balances are what
/// they were.
pub proof fn lemma_transfers_conserve(ledger: Ledger, ops: Seq<Operation>)
    requires
        forall|k: int| 0 <= k < ops.len() ==> ops[k] is Transfer,
    ensures
        ledger.run(ops).supply == ledger.supply,
        total(ledger.run(ops).balances) == total(ledger.balances),
        ledger.run(ops).balances.len() == ledger.balances.len(),
    decreases ops.len(),
{
    if ops.len() > 0 {
        lemma_transfers_conserve(ledger, ops.drop_last());
        let before = ledger.run(ops.drop_last());
        match ops.last() {
            Operation::Transfer { from, to, amount } => {
                lemma_transfer_conserves(before, from, to, amount);
            },
            _ => {},
        }
    }
}

/// Conservation of the whole: on a ledger whose supply equals the sum of its
/// balances, the supply equals the sum of the balances after every operation
/// of any sequence of transfers, mints and burns.
pub proof fn lemma_run_stays_balanced(ledger: Ledger, ops: Seq<Operation>)
    requires
        ledger.balanced(),
    ensures
        ledger.run(ops).balanced(),
        forall|k: int| 0 <= k <= ops.len() ==> (#[trigger] ledger.run(ops.take(k))).balanced(),
    decreases ops.len(),
{
    if ops.len() > 0 {
        let head = ops.drop_last();
        lemma_run_stays_balanced(ledger, head);
        lemma_step_keeps_difference(ledger.run(head), ops.last());
        assert forall|k: int| 0 <= k <= ops.len() implies (#[trigger] ledger.run(
            ops.take(k),
        )).balanced() by {
            if k == ops.len() {
                assert(ops.take(k) =~= ops);
            } else {
                assert(ops.take(k) =~= head.take(k));
            }
        }
    } else {
        assert forall|k: int| 0 <= k <= ops.len() implies (#[trigger] ledger.run(
            ops.take(k),
        )).balanced() by {
            assert(ops.take(k) =~= ops);
        }
    }
}

} // verus!
