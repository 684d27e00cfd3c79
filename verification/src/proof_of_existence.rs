use vstd::prelude::*;
use crate::identity::Identifier;
use crate::support::{Dispatch, DispatchError, DispatchResult};
use crate::table::Table;

verus! {

/// What the claim module needs on top of the types of the system module.
pub trait Config: crate::system::Config {
    /// What can be claimed: the content itself, or better a hash of it.
    type Content: Identifier;
}

/// Whether `content` can be claimed: only content without an owner can.
pub open spec fn create_check<C, A>(claims: Map<C, A>, content: C) -> DispatchResult {
    if claims.contains_key(content) {
        Err(DispatchError::ContentAlreadyClaimed)
    } else {
        Ok(())
    }
}

/// The claims after `caller` has tried to claim `content`.
pub open spec fn create_effect<C, A>(claims: Map<C, A>, caller: A, content: C) -> Map<C, A> {
    if create_check(claims, content) is Ok {
        claims.insert(content, caller)
    } else {
        claims
    }
}

/// Whether `caller` can revoke the claim on `content`: the content must have
/// an owner, and the owner must be `caller`.
pub open spec fn revoke_check<C, A>(claims: Map<C, A>, caller: A, content: C) -> DispatchResult {
    if !claims.contains_key(content) {
        Err(DispatchError::ClaimNotFound)
    } else if claims[content] != caller {
        Err(DispatchError::NotClaimOwner)
    } else {
        Ok(())
    }
}

/// The claims after `caller` has tried to revoke the claim on `content`.
pub open spec fn revoke_effect<C, A>(claims: Map<C, A>, caller: A, content: C) -> Map<C, A> {
    if revoke_check(claims, caller, content) is Ok {
        claims.remove(content)
    } else {
        claims
    }
}

/// Once `first` has claimed free content, a claim on it by anyone is refused
/// as `ContentAlreadyClaimed`, and `first` is still the owner afterwards.
pub proof fn lemma_claim_is_exclusive<C, A>(claims: Map<C, A>, first: A, second: A, content: C)
    requires
        !claims.contains_key(content),
    ensures
        create_check(claims, content) is Ok,
        create_check(create_effect(claims, first, content), content) == Err::<(), DispatchError>(
            DispatchError::ContentAlreadyClaimed,
        ),
        create_effect(create_effect(claims, first, content), second, content) == create_effect(
            claims,
            first,
            content,
        ),
        create_effect(create_effect(claims, first, content), second, content)[content] == first,
{
}

/// Nobody but the owner can revoke a claim: the attempt is refused as
/// `NotClaimOwner` and the claims stay as they were.
pub proof fn lemma_only_owner_revokes<C, A>(claims: Map<C, A>, caller: A, content: C)
    requires
        claims.contains_key(content),
        claims[content] != caller,
    ensures
        revoke_check(claims, caller, content) == Err::<(), DispatchError>(
            DispatchError::NotClaimOwner,
        ),
        revoke_effect(claims, caller, content) == claims,
{
}

/// The owner can revoke its claim, after which the content has no owner while
/// every other claim stands.
pub proof fn lemma_owner_revokes<C, A>(claims: Map<C, A>, owner: A, content: C)
    requires
        claims.contains_key(content),
        claims[content] == owner,
    ensures
        revoke_check(claims, owner, content) is Ok,
        !revoke_effect(claims, owner, content).contains_key(content),
        forall|other: C|
            other != content ==> revoke_effect(claims, owner, content).get(other) == claims.get(
                other,
            ),
{
}

/// The operations of the claim module that can be asked for through dispatch.
#[allow(non_camel_case_types)]
pub enum Call<T: Config> {
    /// Claim `claim` for the caller.
    create_claim { claim: T::Content },
    /// Give up the caller's claim on `claim`.
    revoke_claim { claim: T::Content },
}

/// The claim module: for each piece of claimed content, the account that owns
/// it. An account can own many pieces of content; a piece of content has at
/// most one owner.
#[derive(Debug)]
pub struct Pallet<T: Config> {
    claims: Table<T::Content, T::AccountId>,
}

impl<T: Config> Pallet<T> {
    /// The owner of each piece of claimed content.
    pub closed spec fn claims(&self) -> Map<<T::Content as View>::V, <T::AccountId as View>::V> {
        self.claims@.map_values(|owner: T::AccountId| owner@)
    }

    /// A claim module in which nothing is claimed.
    pub fn new() -> (p: Self)
        ensures
            p.claims() == Map::<<T::Content as View>::V, <T::AccountId as View>::V>::empty(),
            forall|content: <T::Content as View>::V| !p.claims().contains_key(content),
    {
        Pallet { claims: Table::new() }
    }

    /// The owner of `claim`, if it has one.
    pub fn get_claim(&self, claim: &T::Content) -> (r: Option<&T::AccountId>)
        ensures
            match r {
                Some(owner) => self.claims().contains_key(claim@) && owner@ == self.claims()[claim@],
                None => !self.claims().contains_key(claim@),
            },
    {
        self.claims.get(claim)
    }

    /// The claims, each piece of content exactly once with its owner, in no
    /// promised order.
    pub fn entries(&self) -> (list: Vec<(&T::Content, &T::AccountId)>)
        ensures
            list@.len() == self.claims().dom().len(),
            forall|i: int|
                0 <= i < list@.len() ==> self.claims().contains_key((#[trigger] list@[i]).0@)
                    && self.claims()[list@[i].0@] == list@[i].1@,
            forall|i: int, j: int|
                0 <= i < j < list@.len() ==> (#[trigger] list@[i]).0@ != (#[trigger] list@[j]).0@,
    {
        assert(self.claims().dom() =~= self.claims@.dom());
        self.claims.entries()
    }

    /// Claims `claim` for `caller`, unless it already has an owner.
    pub fn create_claim(&mut self, caller: T::AccountId, claim: T::Content) -> (r: DispatchResult)
        ensures
            r == create_check(old(self).claims(), claim@),
            final(self).claims() == create_effect(old(self).claims(), caller@, claim@),
    {
        if self.claims.contains_key(&claim) {
            return Err(DispatchError::ContentAlreadyClaimed);
        }
        self.claims.insert(claim, caller);
        Ok(())
    }

    /// Gives up the claim on `claim`, provided that `caller` owns it.
    pub fn revoke_claim(&mut self, caller: T::AccountId, claim: T::Content) -> (r: DispatchResult)
        ensures
            r == revoke_check(old(self).claims(), caller@, claim@),
            final(self).claims() == revoke_effect(old(self).claims(), caller@, claim@),
    {
        let owner = match self.get_claim(&claim) {
            Some(owner) => owner,
            None => {
                return Err(DispatchError::ClaimNotFound);
            },
        };
        if !caller.same(owner) {
            return Err(DispatchError::NotClaimOwner);
        }
        self.claims.remove(&claim);
        Ok(())
    }
}

impl<T: Config> Dispatch for Pallet<T> {
    type Caller = T::AccountId;

    type Call = Call<T>;

    /// Routes a call to the claim operation it names, on behalf of the caller.
    fn dispatch(&mut self, caller: Self::Caller, call: Self::Call) -> (r: DispatchResult)
        ensures
            match call {
                Call::create_claim { claim } => {
                    &&& r == create_check(old(self).claims(), claim@)
                    &&& final(self).claims() == create_effect(old(self).claims(), caller@, claim@)
                },
                Call::revoke_claim { claim } => {
                    &&& r == revoke_check(old(self).claims(), caller@, claim@)
                    &&& final(self).claims() == revoke_effect(old(self).claims(), caller@, claim@)
                },
            },
    {
        match call {
            Call::create_claim { claim } => self.create_claim(caller, claim),
            Call::revoke_claim { claim } => self.revoke_claim(caller, claim),
        }
    }
}

} // verus!
