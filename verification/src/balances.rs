use vstd::prelude::*;
use crate::identity::{Duplicate, Identifier};
use crate::numeric::{Amount, Numeric};
use crate::support::{Dispatch, DispatchError, DispatchResult};
use crate::table::Table;

verus! {

/// What the ledger needs on top of the types of the system module.
pub trait Config: crate::system::Config {
    /// An amount of currency.
    type Balance: Amount;
}

/// The balance that `balances` records for `who`: an account without a record
/// holds nothing.
pub open spec fn balance_in<A>(balances: Map<A, nat>, who: A) -> nat {
    if balances.contains_key(who) {
        balances[who]
    } else {
        0
    }
}

/// The sum of all recorded balances.
pub open spec fn total_supply<A>(balances: Map<A, nat>) -> nat
    decreases balances.dom().len(),
    when balances.dom().finite()
{
    if balances.dom().len() == 0 {
        0
    } else {
        let who = balances.dom().choose();
        balances[who] + total_supply(balances.remove(who))
    }
}

/// Whether a transfer of `amount` from `caller` to `to` goes through, where no
/// balance may exceed `limit`. The sender's funds are checked first.
pub open spec fn transfer_check<A>(
    balances: Map<A, nat>,
    limit: nat,
    caller: A,
    to: A,
    amount: nat,
) -> DispatchResult {
    if balance_in(balances, caller) < amount {
        Err(DispatchError::InsufficientFunds)
    } else if balance_in(balances, to) + amount > limit {
        Err(DispatchError::BalanceOverflow)
    } else {
        Ok(())
    }
}

/// The records after a transfer that went through: the amount has left the
/// sender's balance and joined the receiver's. A transfer to oneself leaves
/// the records as they were.
pub open spec fn after_transfer<A>(balances: Map<A, nat>, caller: A, to: A, amount: nat) -> Map<
    A,
    nat,
> {
    if caller == to {
        balances
    } else {
        balances.insert(caller, (balance_in(balances, caller) - amount) as nat).insert(
            to,
            balance_in(balances, to) + amount,
        )
    }
}

/// The records after an attempted transfer: changed only if it went through.
pub open spec fn transfer_effect<A>(
    balances: Map<A, nat>,
    limit: nat,
    caller: A,
    to: A,
    amount: nat,
) -> Map<A, nat> {
    if transfer_check(balances, limit, caller, to, amount) is Ok {
        after_transfer(balances, caller, to, amount)
    } else {
        balances
    }
}

/// Taking one record out of the sum leaves the sum of the others.
pub proof fn lemma_total_supply_remove<A>(balances: Map<A, nat>, who: A)
    requires
        balances.dom().finite(),
        balances.contains_key(who),
    ensures
        total_supply(balances) == balances[who] + total_supply(balances.remove(who)),
    decreases balances.dom().len(),
{
    let first = balances.dom().choose();
    if first != who {
        lemma_total_supply_remove(balances.remove(first), who);
        lemma_total_supply_remove(balances.remove(who), first);
        assert(balances.remove(first).remove(who) =~= balances.remove(who).remove(first));
    }
}

/// Writing one record changes the sum by the difference between the new
/// balance and the old one.
pub proof fn lemma_total_supply_insert<A>(balances: Map<A, nat>, who: A, amount: nat)
    requires
        balances.dom().finite(),
    ensures
        total_supply(balances.insert(who, amount)) + balance_in(balances, who) == total_supply(
            balances,
        ) + amount,
{
    let written = balances.insert(who, amount);
    lemma_total_supply_remove(written, who);
    if balances.contains_key(who) {
        lemma_total_supply_remove(balances, who);
        assert(written.remove(who) =~= balances.remove(who));
    } else {
        assert(written.remove(who) =~= balances);
    }
}

/// A transfer goes through exactly when the sender holds the amount and the
/// receiver can hold it on top of its balance. Without the funds the error is
/// `InsufficientFunds`, whatever the receiver holds.
pub proof fn lemma_transfer_check<A>(
    balances: Map<A, nat>,
    limit: nat,
    caller: A,
    to: A,
    amount: nat,
)
    ensures
        transfer_check(balances, limit, caller, to, amount) is Ok <==> balance_in(balances, caller)
            >= amount && balance_in(balances, to) + amount <= limit,
        balance_in(balances, caller) < amount <==> transfer_check(
            balances,
            limit,
            caller,
            to,
            amount,
        ) == Err::<(), DispatchError>(DispatchError::InsufficientFunds),
        transfer_check(balances, limit, caller, to, amount) is Err ==> transfer_effect(
            balances,
            limit,
            caller,
            to,
            amount,
        ) == balances,
{
}

/// A transfer that goes through keeps the total supply and leaves every
/// account but the sender and the receiver alone. Between two different
/// accounts it takes the amount from the sender and gives it to the receiver.
pub proof fn lemma_transfer_conserves<A>(
    balances: Map<A, nat>,
    limit: nat,
    caller: A,
    to: A,
    amount: nat,
)
    requires
        balances.dom().finite(),
        transfer_check(balances, limit, caller, to, amount) is Ok,
    ensures
        total_supply(after_transfer(balances, caller, to, amount)) == total_supply(balances),
        forall|other: A|
            other != caller && other != to ==> balance_in(
                #[trigger] after_transfer(balances, caller, to, amount),
                other,
            ) == balance_in(balances, other),
        caller != to ==> balance_in(after_transfer(balances, caller, to, amount), caller)
            == balance_in(balances, caller) - amount,
        caller != to ==> balance_in(after_transfer(balances, caller, to, amount), to)
            == balance_in(balances, to) + amount,
        caller == to ==> after_transfer(balances, caller, to, amount) == balances,
{
    if caller != to {
        let debited = balances.insert(caller, (balance_in(balances, caller) - amount) as nat);
        lemma_total_supply_insert(balances, caller, (balance_in(balances, caller) - amount) as nat);
        lemma_total_supply_insert(debited, to, balance_in(balances, to) + amount);
    }
}

/// No attempted transfer changes the total supply, whether it goes through or
/// not and whoever the sender and the receiver are.
pub proof fn lemma_transfer_keeps_supply<A>(
    balances: Map<A, nat>,
    limit: nat,
    caller: A,
    to: A,
    amount: nat,
)
    requires
        balances.dom().finite(),
    ensures
        total_supply(transfer_effect(balances, limit, caller, to, amount)) == total_supply(
            balances,
        ),
{
    if transfer_check(balances, limit, caller, to, amount) is Ok {
        lemma_transfer_conserves(balances, limit, caller, to, amount);
    }
}

/// The operations of the ledger that can be asked for through dispatch.
#[allow(non_camel_case_types)]
pub enum Call<T: Config> {
    /// Move `amount` from the caller to `to`.
    transfer { to: T::AccountId, amount: T::Balance },
}

/// The ledger: for each account, the balance it holds.
#[derive(Debug)]
pub struct Pallet<T: Config> {
    balances: Table<T::AccountId, T::Balance>,
}

impl<T: Config> Pallet<T> {
    /// The recorded balances, by account.
    pub closed spec fn balances(&self) -> Map<<T::AccountId as View>::V, nat> {
        self.balances@.map_values(|b: T::Balance| b.value())
    }

    /// The balance of `who`, zero where nothing is recorded.
    pub open spec fn balance_of(&self, who: <T::AccountId as View>::V) -> nat {
        balance_in(self.balances(), who)
    }

    /// Only finitely many accounts have a recorded balance, and no recorded
    /// balance exceeds the limit of the balance type.
    pub proof fn lemma_balances_bounded(&self)
        ensures
            self.balances().dom().finite(),
            forall|who: <T::AccountId as View>::V| self.balance_of(who) <= T::Balance::limit(),
    {
        self.balances.lemma_finite();
        assert(self.balances().dom() =~= self.balances@.dom());
        assert forall|who: <T::AccountId as View>::V| self.balance_of(who)
            <= T::Balance::limit() by {
            if self.balances().contains_key(who) {
                self.balances@[who].lemma_bounded();
            }
        }
    }

    /// A ledger in which no account holds anything.
    pub fn new() -> (p: Self)
        ensures
            p.balances() == Map::<<T::AccountId as View>::V, nat>::empty(),
            forall|who: <T::AccountId as View>::V| p.balance_of(who) == 0,
    {
        Pallet { balances: Table::new() }
    }

    /// Overwrites the balance of `who` with `amount`, unconditionally.
    pub fn set_balance(&mut self, who: &T::AccountId, amount: T::Balance)
        ensures
            final(self).balances() == old(self).balances().insert(who@, amount.value()),
            final(self).balance_of(who@) == amount.value(),
    {
        self.balances.insert(who.duplicate(), amount);
    }

    /// The balance of `who`.
    pub fn balance(&self, who: &T::AccountId) -> (b: T::Balance)
        ensures
            b.value() == self.balance_of(who@),
    {
        match self.balances.get(who) {
            Some(b) => *b,
            None => T::Balance::zero(),
        }
    }

    /// The recorded balances, each account exactly once, in no promised order.
    pub fn entries(&self) -> (list: Vec<(&T::AccountId, &T::Balance)>)
        ensures
            list@.len() == self.balances().dom().len(),
            forall|i: int|
                0 <= i < list@.len() ==> self.balances().contains_key((#[trigger] list@[i]).0@)
                    && self.balances()[list@[i].0@] == list@[i].1.value(),
            forall|i: int, j: int|
                0 <= i < j < list@.len() ==> (#[trigger] list@[i]).0@ != (#[trigger] list@[j]).0@,
    {
        assert(self.balances().dom() =~= self.balances@.dom());
        self.balances.entries()
    }

    /// Moves `amount` from `caller` to `to`, provided that `caller` holds that
    /// much and that `to` can hold it on top of its balance. Either both
    /// balances are written or nothing is, and the total supply stays what it
    /// was in every case. A transfer to oneself is held to the same two
    /// conditions and, where it goes through, writes nothing.
    pub fn transfer(&mut self, caller: &T::AccountId, to: &T::AccountId, amount: T::Balance) -> (r:
        DispatchResult)
        ensures
            r == transfer_check(
                old(self).balances(),
                T::Balance::limit(),
                caller@,
                to@,
                amount.value(),
            ),
            final(self).balances() == transfer_effect(
                old(self).balances(),
                T::Balance::limit(),
                caller@,
                to@,
                amount.value(),
            ),
            total_supply(final(self).balances()) == total_supply(old(self).balances()),
            r is Ok && caller@ != to@ ==> {
                &&& final(self).balance_of(caller@) == old(self).balance_of(caller@)
                    - amount.value()
                &&& final(self).balance_of(to@) == old(self).balance_of(to@) + amount.value()
            },
            forall|other: <T::AccountId as View>::V|
                other != caller@ && other != to@ ==> final(self).balance_of(other) == old(
                    self,
                ).balance_of(other),
    {
        proof {
            self.lemma_balances_bounded();
            if transfer_check(
                self.balances(),
                T::Balance::limit(),
                caller@,
                to@,
                amount.value(),
            ) is Ok {
                lemma_transfer_conserves(
                    self.balances(),
                    T::Balance::limit(),
                    caller@,
                    to@,
                    amount.value(),
                );
            }
        }
        let caller_balance = self.balance(caller);
        let to_balance = self.balance(to);
        let new_caller_balance = match caller_balance.checked_sub(&amount) {
            Some(b) => b,
            None => {
                return Err(DispatchError::InsufficientFunds);
            },
        };
        let new_to_balance = match to_balance.checked_add(&amount) {
            Some(b) => b,
            None => {
                return Err(DispatchError::BalanceOverflow);
            },
        };
        proof {
            new_to_balance.lemma_bounded();
        }
        if caller.same(to) {
            return Ok(());
        }
        self.set_balance(caller, new_caller_balance);
        self.set_balance(to, new_to_balance);
        Ok(())
    }
}

impl<T: Config> Dispatch for Pallet<T> {
    type Caller = T::AccountId;

    type Call = Call<T>;

    /// Routes a call to the ledger operation it names. A transfer is made
    /// from the caller.
    fn dispatch(&mut self, caller: Self::Caller, call: Self::Call) -> (r: DispatchResult)
        ensures
            match call {
                Call::transfer { to, amount } => {
                    &&& r == transfer_check(
                        old(self).balances(),
                        T::Balance::limit(),
                        caller@,
                        to@,
                        amount.value(),
                    )
                    &&& final(self).balances() == transfer_effect(
                        old(self).balances(),
                        T::Balance::limit(),
                        caller@,
                        to@,
                        amount.value(),
                    )
                },
            },
    {
        match call {
            Call::transfer { to, amount } => self.transfer(&caller, &to, amount),
        }
    }
}

} // verus!
