use vstd::prelude::*;
use crate::identity::{Duplicate, Identifier};
use crate::numeric::{Counter, Numeric};
use crate::table::Table;

verus! {

/// The types that every module of a runtime agrees on.
pub trait Config {
    /// Who owns state and submits extrinsics.
    type AccountId: Identifier + Duplicate;

    /// The number of a block.
    type BlockNumber: Counter;

    /// How many extrinsics an account has submitted.
    type Nonce: Counter;
}

/// The nonce that `nonces` records for `who`: an account without a record has
/// submitted nothing.
pub open spec fn nonce_in<A>(nonces: Map<A, nat>, who: A) -> nat {
    if nonces.contains_key(who) {
        nonces[who]
    } else {
        0
    }
}

/// The records after one more submission by `who`.
pub open spec fn bump<A>(nonces: Map<A, nat>, who: A) -> Map<A, nat> {
    nonces.insert(who, nonce_in(nonces, who) + 1)
}

/// The records after `n` more submissions by `who`.
pub open spec fn bump_times<A>(nonces: Map<A, nat>, who: A, n: nat) -> Map<A, nat>
    decreases n,
{
    if n == 0 {
        nonces
    } else {
        bump(bump_times(nonces, who, (n - 1) as nat), who)
    }
}

/// After `n` submissions by `who`, the nonce of `who` has grown by exactly `n`
/// and the nonce of every other account is what it was. In particular an
/// account that starts without a record ends with nonce `n`.
pub proof fn lemma_bump_times<A>(nonces: Map<A, nat>, who: A, n: nat)
    ensures
        nonce_in(bump_times(nonces, who, n), who) == nonce_in(nonces, who) + n,
        forall|other: A|
            other != who ==> nonce_in(#[trigger] bump_times(nonces, who, n), other) == nonce_in(
                nonces,
                other,
            ),
    decreases n,
{
    if n > 0 {
        lemma_bump_times(nonces, who, (n - 1) as nat);
    }
}

/// The system module: the current block number and, for each account, the
/// number of extrinsics it has submitted.
///
/// Both counters are stepped up by one and never wrap around. Stepping a
/// counter that has reached the limit of its type is a fatal condition, which
/// callers rule out: see the preconditions of `inc_block_number` and
/// `inc_nonce`.
#[derive(Debug)]
pub struct Pallet<T: Config> {
    block_number: T::BlockNumber,
    nonce: Table<T::AccountId, T::Nonce>,
}

impl<T: Config> Pallet<T> {
    /// The current block number.
    pub closed spec fn number(&self) -> nat {
        self.block_number.value()
    }

    /// The recorded nonces, by account.
    pub closed spec fn nonces(&self) -> Map<<T::AccountId as View>::V, nat> {
        self.nonce@.map_values(|n: T::Nonce| n.value())
    }

    /// The nonce of `who`, zero where nothing is recorded.
    pub open spec fn nonce_of(&self, who: <T::AccountId as View>::V) -> nat {
        nonce_in(self.nonces(), who)
    }

    /// Only finitely many accounts have a recorded nonce, and neither the
    /// block number nor any nonce exceeds the limit of its type.
    pub proof fn lemma_counters_bounded(&self)
        ensures
            self.nonces().dom().finite(),
            self.number() <= T::BlockNumber::limit(),
            forall|who: <T::AccountId as View>::V| self.nonce_of(who) <= T::Nonce::limit(),
    {
        self.nonce.lemma_finite();
        assert(self.nonces().dom() =~= self.nonce@.dom());
        self.block_number.lemma_bounded();
        assert forall|who: <T::AccountId as View>::V| self.nonce_of(who) <= T::Nonce::limit() by {
            if self.nonces().contains_key(who) {
                self.nonce@[who].lemma_bounded();
            }
        }
    }

    /// A system module at block zero, in which no account has submitted anything.
    pub fn new() -> (p: Self)
        ensures
            p.number() == 0,
            p.nonces() == Map::<<T::AccountId as View>::V, nat>::empty(),
            forall|who: <T::AccountId as View>::V| p.nonce_of(who) == 0,
    {
        Pallet { block_number: T::BlockNumber::zero(), nonce: Table::new() }
    }

    /// The current block number.
    pub fn block_number(&self) -> (n: T::BlockNumber)
        ensures
            n.value() == self.number(),
    {
        self.block_number
    }

    /// The nonce of `who`: how many extrinsics it has submitted.
    pub fn get_nonce(&self, who: &T::AccountId) -> (n: T::Nonce)
        ensures
            n.value() == self.nonce_of(who@),
    {
        match self.nonce.get(who) {
            Some(n) => *n,
            None => T::Nonce::zero(),
        }
    }

    /// The recorded nonces, each account exactly once, in no promised order.
    pub fn nonce_entries(&self) -> (list: Vec<(&T::AccountId, &T::Nonce)>)
        ensures
            list@.len() == self.nonces().dom().len(),
            forall|i: int|
                0 <= i < list@.len() ==> self.nonces().contains_key((#[trigger] list@[i]).0@)
                    && self.nonces()[list@[i].0@] == list@[i].1.value(),
            forall|i: int, j: int|
                0 <= i < j < list@.len() ==> (#[trigger] list@[i]).0@ != (#[trigger] list@[j]).0@,
    {
        assert(self.nonces().dom() =~= self.nonce@.dom());
        self.nonce.entries()
    }

    /// Steps the block number up by one. The nonces are left alone.
    pub fn inc_block_number(&mut self)
        requires
            old(self).number() < T::BlockNumber::limit(),
        ensures
            final(self).number() == old(self).number() + 1,
            final(self).nonces() == old(self).nonces(),
    {
        self.block_number = self.block_number.succ();
    }

    /// Records one more submission by `who`. The nonce of every other account,
    /// and the block number, are left alone.
    pub fn inc_nonce(&mut self, who: &T::AccountId)
        requires
            old(self).nonce_of(who@) < T::Nonce::limit(),
        ensures
            final(self).nonces() == bump(old(self).nonces(), who@),
            final(self).nonce_of(who@) == old(self).nonce_of(who@) + 1,
            forall|other: <T::AccountId as View>::V|
                other != who@ ==> final(self).nonce_of(other) == old(self).nonce_of(other),
            final(self).number() == old(self).number(),
    {
        let next = self.get_nonce(who).succ();
        self.nonce.insert(who.duplicate(), next);
    }
}

} // verus!
