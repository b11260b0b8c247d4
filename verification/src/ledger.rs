//! The executable ledger: the four mapping tables behind the abstract
//! state of [`crate::state`], with every operation proved to implement
//! its transition function and to preserve the global invariant.

use vstd::prelude::*;
use crate::account::{Account, null_account};
use crate::token::TokenId;
use crate::errors::Erc721Error;
use crate::events::Event;
use crate::state::{owns_pred, LedgerState};
use crate::state::{
    lemma_approve_preserves_inv, lemma_init_inv, lemma_set_operator_preserves_inv,
    lemma_update_preserves_inv,
};
use crate::store::{BalanceMap, OperatorMap, TokenMap};
use crate::dec::{dec_rep, dec_string};

verus! {

/// The per-deployment identity of a ledger: a display name, a symbol,
/// and the base locator from which per-token descriptors are derived.
pub struct ERC721Params {
    pub name: String,
    pub symbol: String,
    pub base_uri: String,
}

/// The token ownership ledger: owners, balances, per-token delegates,
/// blanket operator delegations, and the log of notifications raised by
/// committed mutations.
pub struct ERC721 {
    params: ERC721Params,
    owners: TokenMap,
    balances: BalanceMap,
    token_approvals: TokenMap,
    operator_approvals: OperatorMap,
    events: Vec<Event>,
}

impl View for ERC721 {
    type V = LedgerState;

    closed spec fn view(&self) -> LedgerState {
        LedgerState {
            name: self.params.name@,
            symbol: self.params.symbol@,
            base_uri: self.params.base_uri@,
            owners: self.owners@,
            balances: self.balances@,
            token_approvals: self.token_approvals@,
            operator_approvals: self.operator_approvals@,
            events: self.events@,
        }
    }
}

/// A well-formed ledger satisfies the abstract global invariant.
pub proof fn lemma_wf_implies_inv(l: &ERC721)
    requires
        l.wf(),
    ensures
        l@.inv(),
{
}

impl ERC721 {
    /// Well-formedness: each table keeps its keys distinct, and the
    /// abstract state satisfies the global invariant. Established by the
    /// constructor and preserved by every operation.
    pub closed spec fn wf(self) -> bool {
        &&& self.owners.wf()
        &&& self.balances.wf()
        &&& self.token_approvals.wf()
        &&& self.operator_approvals.wf()
        &&& self@.inv()
    }

    /// Builds an empty ledger carrying the given identity.
    pub fn new(params: ERC721Params) -> (r: ERC721)
        ensures
            r.wf(),
            r@ == LedgerState::init(params.name@, params.symbol@, params.base_uri@),
    {
        let r = ERC721 {
            params,
            owners: TokenMap::new(),
            balances: BalanceMap::new(),
            token_approvals: TokenMap::new(),
            operator_approvals: OperatorMap::new(),
            events: Vec::new(),
        };
        proof {
            lemma_init_inv(r.params.name@, r.params.symbol@, r.params.base_uri@);
            assert(r@ =~= LedgerState::init(r.params.name@, r.params.symbol@, r.params.base_uri@));
        }
        r
    }

    /// The ledger's display name.
    pub fn name(&self) -> (r: &String)
        ensures
            r@ == self@.name,
    {
        &self.params.name
    }

    /// The ledger's symbol.
    pub fn symbol(&self) -> (r: &String)
        ensures
            r@ == self@.symbol,
    {
        &self.params.symbol
    }

    /// The descriptor locator of an existing token: the base locator
    /// followed immediately by the token identifier in decimal. Requires
    /// the token to exist; fails with token-not-found exactly otherwise.
    pub fn token_uri(&self, token_id: TokenId) -> (r: Result<String, Erc721Error>)
        requires
            self.wf(),
        ensures
            match r {
                Ok(s) => self@.token_exists(token_id) && s@ == self@.base_uri + dec_rep(
                    token_id.value(),
                ),
                Err(e) => !self@.token_exists(token_id) && e == (Erc721Error::TokenNotFound {
                    token_id,
                }),
            },
    {
        match self.require_owned(token_id) {
            Ok(_owner) => {
                let digits = dec_string(token_id);
                let base = self.params.base_uri.clone();
                Ok(base.concat(digits.as_str()))
            },
            Err(e) => Err(e),
        }
    }

    /// The notifications raised so far, oldest first.
    pub fn event_log(&self) -> (r: &Vec<Event>)
        ensures
            r@ == self@.events,
    {
        &self.events
    }

    /// The number of tokens the account currently owns; zero for any
    /// account never seen, the null account included. Never fails.
    pub fn balance_of(&self, owner: Account) -> (r: u128)
        requires
            self.wf(),
        ensures
            r as nat == self@.balance_of(owner),
    {
        match self.balances.get(owner) {
            Some(v) => v,
            None => 0,
        }
    }

    /// The owner of a token; the null account when the token does not
    /// exist. Never fails.
    pub fn owner_of(&self, token_id: TokenId) -> (r: Account)
        requires
            self.wf(),
        ensures
            r == self@.owner_of(token_id),
    {
        match self.owners.get(token_id) {
            Some(a) => a,
            None => Account::null(),
        }
    }

    /// The token's single delegate, read without an existence gate; used
    /// by the authorization rule and by the gated public lookup.
    fn approved_raw(&self, token_id: TokenId) -> (r: Account)
        requires
            self.wf(),
        ensures
            r == self@.approved(token_id),
    {
        match self.token_approvals.get(token_id) {
            Some(a) => a,
            None => Account::null(),
        }
    }

    /// Whether `operator` holds a blanket delegation from `owner`. A pure
    /// lookup; never fails.
    pub fn is_approved_for_all(&self, owner: Account, operator: Account) -> (r: bool)
        requires
            self.wf(),
        ensures
            r == self@.approved_for_all(owner, operator),
    {
        match self.operator_approvals.get(owner, operator) {
            Some(b) => b,
            None => false,
        }
    }

    /// The owner of an existing token; the token-not-found failure
    /// exactly when the token does not exist.
    fn require_owned(&self, token_id: TokenId) -> (r: Result<Account, Erc721Error>)
        requires
            self.wf(),
        ensures
            match r {
                Ok(a) => self@.token_exists(token_id) && a == self@.owner_of(token_id),
                Err(e) => !self@.token_exists(token_id) && e == (Erc721Error::TokenNotFound {
                    token_id,
                }),
            },
    {
        let owner = self.owner_of(token_id);
        if owner.is_null() {
            Err(Erc721Error::TokenNotFound { token_id })
        } else {
            Ok(owner)
        }
    }

    /// The token's current delegate. Requires the token to exist; fails
    /// with token-not-found exactly otherwise.
    pub fn get_approved(&self, token_id: TokenId) -> (r: Result<Account, Erc721Error>)
        requires
            self.wf(),
        ensures
            match r {
                Ok(a) => self@.token_exists(token_id) && a == self@.approved(token_id),
                Err(e) => !self@.token_exists(token_id) && e == (Erc721Error::TokenNotFound {
                    token_id,
                }),
            },
    {
        match self.require_owned(token_id) {
            Ok(_owner) => Ok(self.approved_raw(token_id)),
            Err(e) => Err(e),
        }
    }

    /// The authorization rule: whether `actor` may act on `token_id` on
    /// behalf of `owner`, by being the owner, holding the owner's blanket
    /// delegation, or being the token's approved delegate.
    pub fn is_authorized(&self, owner: Account, actor: Account, token_id: TokenId) -> (r: bool)
        requires
            self.wf(),
        ensures
            r == self@.is_authorized(owner, actor, token_id),
    {
        if actor.is_null() {
            false
        } else if owner == actor {
            true
        } else if self.is_approved_for_all(owner, actor) {
            true
        } else {
            let a = self.approved_raw(token_id);
            a == actor
        }
    }

    /// Demands authorization. When the actor is not authorized, reports
    /// nonexistence in preference to missing rights: token-not-found when
    /// the owner is null, insufficient-approval otherwise.
    fn check_authorized(&self, owner: Account, actor: Account, token_id: TokenId) -> (r: Result<
        (),
        Erc721Error,
    >)
        requires
            self.wf(),
        ensures
            match r {
                Ok(()) => self@.is_authorized(owner, actor, token_id),
                Err(e) => !self@.is_authorized(owner, actor, token_id) && e == (
                if owner == null_account() {
                    Erc721Error::TokenNotFound { token_id }
                } else {
                    Erc721Error::InsufficientApproval { operator: actor, token_id }
                }),
            },
    {
        if self.is_authorized(owner, actor, token_id) {
            Ok(())
        } else if owner.is_null() {
            Err(Erc721Error::TokenNotFound { token_id })
        } else {
            Err(Erc721Error::InsufficientApproval { operator: actor, token_id })
        }
    }

    /// The single mutation path, shared by mint, burn, and transfer.
    /// When `auth` is a real account the transfer must be authorized
    /// against the current owner; a null `auth` marks a privileged
    /// internal call that skips the check. On success the committed delta
    /// is exactly the abstract transition, and the previous owner is
    /// returned; on failure nothing changes.
    pub fn update(&mut self, to: Account, token_id: TokenId, auth: Account) -> (r: Result<
        Account,
        Erc721Error,
    >)
        requires
            old(self).wf(),
        ensures
            final(self).wf(),
            match r {
                Ok(prev) => prev == old(self)@.owner_of(token_id) && (auth != null_account()
                    ==> old(self)@.is_authorized(prev, auth, token_id)) && final(self)@ == old(
                    self,
                )@.update_tr(to, token_id),
                Err(e) => *final(self) == *old(self) && auth != null_account() && !old(
                    self,
                )@.is_authorized(old(self)@.owner_of(token_id), auth, token_id) && e == (
                if old(self)@.owner_of(token_id) == null_account() {
                    Erc721Error::TokenNotFound { token_id }
                } else {
                    Erc721Error::InsufficientApproval { operator: auth, token_id }
                }),
            },
    {
        let from = self.owner_of(token_id);
        if !auth.is_null() {
            match self.check_authorized(from, auth, token_id) {
                Ok(()) => {},
                Err(e) => {
                    return Err(e);
                },
            }
        }
        let ghost pre = self@;
        if !from.is_null() {
            // a real owner is displaced: silently clear the stale
            // delegate, then release one unit of the owner's balance
            self.token_approvals.set(token_id, Account::null());
            let bal_from: u128 = match self.balances.get(from) {
                Some(v) => v,
                None => 0,
            };
            proof {
                assert(pre.balance_of(from) == pre.owned(from).len());
                assert(pre.owned(from).contains(token_id));
                pre.owners.dom().lemma_len_filter(owns_pred(pre.owners, from));
                assert(pre.owned(from).len() == pre.owned(from).remove(token_id).len() + 1);
                assert(bal_from >= 1);
            }
            self.balances.set(from, bal_from - 1);
        }
        if !to.is_null() {
            // a real owner is installed: charge one unit to it
            let bound: usize = self.owners.entry_count();
            let bal_to: u128 = match self.balances.get(to) {
                Some(v) => v,
                None => 0,
            };
            proof {
                pre.owners.dom().lemma_len_filter(owns_pred(pre.owners, to));
                assert(pre.owned(to).len() <= pre.owners.dom().len());
                assert(pre.balance_of(to) == pre.owned(to).len());
                assert(bal_to as nat <= bound as nat);
                assert(bal_to < u128::MAX);
            }
            self.balances.set(to, bal_to + 1);
        }
        self.owners.set(token_id, to);
        self.events.push(Event::Transfer { from, to, token_id });
        proof {
            lemma_update_preserves_inv(pre, to, token_id);
            assert(self@ =~= pre.update_tr(to, token_id));
        }
        Ok(from)
    }

    /// Explicit delegation of a single token to `to`, authorized by
    /// `actor`: the actor must be the token's owner or hold the owner's
    /// blanket delegation (a null actor marks a privileged internal
    /// call). Requires the token to exist; emits an approval
    /// notification. On failure nothing changes.
    pub fn approve(&mut self, actor: Account, to: Account, token_id: TokenId) -> (r: Result<
        (),
        Erc721Error,
    >)
        requires
            old(self).wf(),
        ensures
            final(self).wf(),
            match r {
                Ok(()) => old(self)@.token_exists(token_id) && (auth_ok_for_approve(
                    old(self)@,
                    actor,
                    token_id,
                )) && final(self)@ == old(self)@.approve_tr(to, token_id),
                Err(e) => *final(self) == *old(self) && match e {
                    Erc721Error::TokenNotFound { token_id: t2 } => t2 == token_id && !old(
                        self,
                    )@.token_exists(token_id),
                    Erc721Error::InvalidOperator { operator } => operator == actor && old(
                        self,
                    )@.token_exists(token_id) && !auth_ok_for_approve(old(self)@, actor, token_id),
                    _ => false,
                },
            },
    {
        let owner = match self.require_owned(token_id) {
            Ok(o) => o,
            Err(e) => {
                return Err(e);
            },
        };
        if !actor.is_null() && owner != actor && !self.is_approved_for_all(owner, actor) {
            return Err(Erc721Error::InvalidOperator { operator: actor });
        }
        let ghost pre = self@;
        self.events.push(Event::Approval { owner, approved: to, token_id });
        self.token_approvals.set(token_id, to);
        proof {
            lemma_approve_preserves_inv(pre, to, token_id);
            assert(self@ =~= pre.approve_tr(to, token_id));
        }
        Ok(())
    }

    /// Grants or revokes a blanket delegation from `actor` to `operator`.
    /// Rejects the null operator; otherwise stores the flag and emits a
    /// notification unconditionally, even when the flag is unchanged.
    pub fn set_approval_for_all(&mut self, actor: Account, operator: Account, approved: bool) -> (r:
        Result<(), Erc721Error>)
        requires
            old(self).wf(),
        ensures
            final(self).wf(),
            match r {
                Ok(()) => operator != null_account() && final(self)@ == old(self)@.set_operator_tr(
                    actor,
                    operator,
                    approved,
                ),
                Err(e) => *final(self) == *old(self) && operator == null_account() && e == (
                Erc721Error::InvalidOperator { operator }),
            },
    {
        if operator.is_null() {
            return Err(Erc721Error::InvalidOperator { operator });
        }
        let ghost pre = self@;
        self.operator_approvals.set(actor, operator, approved);
        self.events.push(Event::ApprovalForAll { owner: actor, operator, approved });
        proof {
            lemma_set_operator_preserves_inv(pre, actor, operator, approved);
            assert(self@ =~= pre.set_operator_tr(actor, operator, approved));
        }
        Ok(())
    }

    /// Caller-initiated transfer: moves `token_id` from `from` to `to`
    /// on behalf of `actor`. Rejects a null destination, demands
    /// authorization against the current owner (nonexistence reported in
    /// preference to missing rights), and demands that the asserted
    /// sender match the current owner. Either every change commits — the
    /// abstract transition, delegate cleared, notification appended — or
    /// none does.
    pub fn transfer_from(
        &mut self,
        actor: Account,
        from: Account,
        to: Account,
        token_id: TokenId,
    ) -> (r: Result<(), Erc721Error>)
        requires
            old(self).wf(),
        ensures
            final(self).wf(),
            match r {
                Ok(()) => to != null_account() && old(self)@.owner_of(token_id) == from && (actor
                    != null_account() ==> old(self)@.is_authorized(from, actor, token_id))
                    && final(self)@ == old(self)@.update_tr(to, token_id),
                Err(e) => *final(self) == *old(self) && match e {
                    Erc721Error::InvalidReceiver { receiver } => receiver == null_account() && to
                        == null_account(),
                    Erc721Error::TokenNotFound { token_id: t2 } => t2 == token_id && to
                        != null_account() && actor != null_account() && old(self)@.owner_of(
                        token_id,
                    ) == null_account() && !old(self)@.is_authorized(
                        old(self)@.owner_of(token_id),
                        actor,
                        token_id,
                    ),
                    Erc721Error::InsufficientApproval { operator, token_id: t2 } => operator
                        == actor && t2 == token_id && to != null_account() && actor
                        != null_account() && old(self)@.owner_of(token_id) != null_account()
                        && !old(self)@.is_authorized(old(self)@.owner_of(token_id), actor, token_id),
                    Erc721Error::IncorrectOwner { sender, token_id: t2, owner } => sender == from
                        && t2 == token_id && owner == old(self)@.owner_of(token_id) && to
                        != null_account() && owner != from && (actor == null_account() || old(
                        self,
                    )@.is_authorized(owner, actor, token_id)),
                    _ => false,
                },
            },
    {
        if to.is_null() {
            return Err(Erc721Error::InvalidReceiver { receiver: Account::null() });
        }
        let current = self.owner_of(token_id);
        if !actor.is_null() {
            match self.check_authorized(current, actor, token_id) {
                Ok(()) => {},
                Err(e) => {
                    return Err(e);
                },
            }
        }
        if current != from {
            return Err(Erc721Error::IncorrectOwner { sender: from, token_id, owner: current });
        }
        match self.update(to, token_id, actor) {
            Ok(_prev) => Ok(()),
            Err(e) => Err(e),
        }
    }

    /// Identical to [`Self::transfer_from`]; receiver-callback protocols
    /// are acknowledged but not exercised by this ledger.
    pub fn safe_transfer_from(
        &mut self,
        actor: Account,
        from: Account,
        to: Account,
        token_id: TokenId,
    ) -> (r: Result<(), Erc721Error>)
        requires
            old(self).wf(),
        ensures
            final(self).wf(),
            match r {
                Ok(()) => to != null_account() && old(self)@.owner_of(token_id) == from && (actor
                    != null_account() ==> old(self)@.is_authorized(from, actor, token_id))
                    && final(self)@ == old(self)@.update_tr(to, token_id),
                Err(e) => *final(self) == *old(self) && match e {
                    Erc721Error::InvalidReceiver { receiver } => receiver == null_account() && to
                        == null_account(),
                    Erc721Error::TokenNotFound { token_id: t2 } => t2 == token_id && to
                        != null_account() && actor != null_account() && old(self)@.owner_of(
                        token_id,
                    ) == null_account() && !old(self)@.is_authorized(
                        old(self)@.owner_of(token_id),
                        actor,
                        token_id,
                    ),
                    Erc721Error::InsufficientApproval { operator, token_id: t2 } => operator
                        == actor && t2 == token_id && to != null_account() && actor
                        != null_account() && old(self)@.owner_of(token_id) != null_account()
                        && !old(self)@.is_authorized(old(self)@.owner_of(token_id), actor, token_id),
                    Erc721Error::IncorrectOwner { sender, token_id: t2, owner } => sender == from
                        && t2 == token_id && owner == old(self)@.owner_of(token_id) && to
                        != null_account() && owner != from && (actor == null_account() || old(
                        self,
                    )@.is_authorized(owner, actor, token_id)),
                    _ => false,
                },
            },
    {
        self.transfer_from(actor, from, to, token_id)
    }

    /// Privileged creation of a token: requires a real destination and a
    /// currently nonexistent token, then commits the mint transition.
    pub fn mint(&mut self, to: Account, token_id: TokenId) -> (r: Result<(), Erc721Error>)
        requires
            old(self).wf(),
        ensures
            final(self).wf(),
            match r {
                Ok(()) => to != null_account() && old(self)@.owner_of(token_id) == null_account()
                    && final(self)@ == old(self)@.update_tr(to, token_id),
                Err(e) => *final(self) == *old(self) && match e {
                    Erc721Error::InvalidReceiver { receiver } => receiver == null_account() && to
                        == null_account(),
                    Erc721Error::InvalidSender { sender } => sender == null_account() && to
                        != null_account() && old(self)@.owner_of(token_id) != null_account(),
                    _ => false,
                },
            },
    {
        if to.is_null() {
            return Err(Erc721Error::InvalidReceiver { receiver: Account::null() });
        }
        let current = self.owner_of(token_id);
        if !current.is_null() {
            return Err(Erc721Error::InvalidSender { sender: Account::null() });
        }
        match self.update(to, token_id, Account::null()) {
            Ok(_prev) => Ok(()),
            Err(e) => Err(e),
        }
    }

    /// Privileged destruction of a token: requires the token to exist,
    /// then commits the burn transition — the owner's balance shrinks,
    /// the delegate is cleared, and the owner of record becomes null.
    pub fn burn(&mut self, token_id: TokenId) -> (r: Result<(), Erc721Error>)
        requires
            old(self).wf(),
        ensures
            final(self).wf(),
            match r {
                Ok(()) => old(self)@.token_exists(token_id) && final(self)@ == old(
                    self,
                )@.update_tr(null_account(), token_id),
                Err(e) => *final(self) == *old(self) && !old(self)@.token_exists(token_id) && e
                    == (Erc721Error::TokenNotFound { token_id }),
            },
    {
        let current = self.owner_of(token_id);
        if current.is_null() {
            return Err(Erc721Error::TokenNotFound { token_id });
        }
        match self.update(Account::null(), token_id, Account::null()) {
            Ok(_prev) => Ok(()),
            Err(e) => Err(e),
        }
    }
}

/// Whether `actor` may grant a delegation on `token_id`: a privileged
/// null actor, the token's owner, or a holder of the owner's blanket
/// delegation.
pub open spec fn auth_ok_for_approve(s: LedgerState, actor: Account, token_id: TokenId) -> bool {
    actor == null_account() || actor == s.owner_of(token_id) || s.approved_for_all(
        s.owner_of(token_id),
        actor,
    )
}

} // verus!
