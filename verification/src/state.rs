//! The mathematical model of the ledger: an abstract state made of the
//! four mapping tables, the identity strings, and the notification log,
//! together with the global invariant and the transition functions that
//! the executable operations are proved to implement.

use vstd::prelude::*;
use crate::account::{Account, null_account};
use crate::token::TokenId;
use crate::events::Event;

verus! {

/// Reads a balance table with absent entries defaulting to zero.
pub open spec fn bal_of(m: Map<Account, nat>, a: Account) -> nat {
    if m.contains_key(a) {
        m[a]
    } else {
        0
    }
}

/// The membership predicate of an account's owned-token set.
pub open spec fn owns_pred(m: Map<TokenId, Account>, a: Account) -> spec_fn(TokenId) -> bool {
    |t: TokenId| m[t] == a
}

/// The abstract ledger state.
#[verifier::ext_equal]
pub struct LedgerState {
    pub name: Seq<char>,
    pub symbol: Seq<char>,
    pub base_uri: Seq<char>,
    pub owners: Map<TokenId, Account>,
    pub balances: Map<Account, nat>,
    pub token_approvals: Map<TokenId, Account>,
    pub operator_approvals: Map<(Account, Account), bool>,
    pub events: Seq<Event>,
}

impl LedgerState {
    /// The owner of a token; the null account when the token does not
    /// exist. A missing entry and a stored null owner both mean
    /// nonexistence.
    pub open spec fn owner_of(self, t: TokenId) -> Account {
        if self.owners.contains_key(t) {
            self.owners[t]
        } else {
            null_account()
        }
    }

    /// A token exists exactly when its owner of record is not null.
    pub open spec fn token_exists(self, t: TokenId) -> bool {
        self.owner_of(t) != null_account()
    }

    /// The recorded balance of an account; zero when absent.
    pub open spec fn balance_of(self, a: Account) -> nat {
        bal_of(self.balances, a)
    }

    /// The single delegate currently approved for a token; null when none.
    pub open spec fn approved(self, t: TokenId) -> Account {
        if self.token_approvals.contains_key(t) {
            self.token_approvals[t]
        } else {
            null_account()
        }
    }

    /// Whether `operator` holds a blanket delegation from `owner`.
    pub open spec fn approved_for_all(self, owner: Account, operator: Account) -> bool {
        self.operator_approvals.contains_key((owner, operator))
            && self.operator_approvals[(owner, operator)]
    }

    /// The set of tokens whose owner of record is `a`.
    pub open spec fn owned(self, a: Account) -> Set<TokenId> {
        self.owners.dom().filter(owns_pred(self.owners, a))
    }

    /// The authorization rule: an actor may act on a token exactly when it
    /// is a real account and is the owner, holds the owner's blanket
    /// delegation, or is the token's approved delegate.
    pub open spec fn is_authorized(self, owner: Account, actor: Account, t: TokenId) -> bool {
        actor != null_account() && (actor == owner || self.approved_for_all(owner, actor)
            || self.approved(t) == actor)
    }

    /// The global invariant, preserved by every committed operation:
    /// balances count exactly the owned tokens, the null account owns
    /// nothing, a nonexistent token carries no delegate, and no blanket
    /// delegation names the null operator.
    pub open spec fn inv(self) -> bool {
        &&& self.owners.dom().finite()
        &&& forall|a: Account|
            a != null_account() ==> #[trigger] self.balance_of(a) == self.owned(a).len()
        &&& self.balance_of(null_account()) == 0
        &&& forall|t: TokenId|
            self.owner_of(t) == null_account() ==> #[trigger] self.approved(t) == null_account()
        &&& forall|o: Account, p: Account|
            #[trigger] self.approved_for_all(o, p) ==> p != null_account()
    }

    /// The freshly constructed ledger: no tokens, no balances, no
    /// delegations, no notifications.
    pub open spec fn init(name: Seq<char>, symbol: Seq<char>, base_uri: Seq<char>) -> LedgerState {
        LedgerState {
            name,
            symbol,
            base_uri,
            owners: Map::empty(),
            balances: Map::empty(),
            token_approvals: Map::empty(),
            operator_approvals: Map::empty(),
            events: Seq::empty(),
        }
    }

    /// The committed delta of the single mutation path: reassign the
    /// token's owner, adjust both balances, silently clear the token's
    /// delegate when a real owner is displaced, and append the transfer
    /// notification. A null previous owner makes this a mint, a null `to`
    /// a burn.
    pub open spec fn update_tr(self, to: Account, t: TokenId) -> LedgerState {
        let from = self.owner_of(t);
        let b1 = if from != null_account() {
            self.balances.insert(from, (bal_of(self.balances, from) - 1) as nat)
        } else {
            self.balances
        };
        let b2 = if to != null_account() {
            b1.insert(to, bal_of(b1, to) + 1)
        } else {
            b1
        };
        LedgerState {
            owners: self.owners.insert(t, to),
            balances: b2,
            token_approvals: if from != null_account() {
                self.token_approvals.insert(t, null_account())
            } else {
                self.token_approvals
            },
            events: self.events.push(Event::Transfer { from, to, token_id: t }),
            ..self
        }
    }

    /// The committed delta of an explicit delegation: record the delegate
    /// and append the approval notification naming the token's owner.
    pub open spec fn approve_tr(self, to: Account, t: TokenId) -> LedgerState {
        LedgerState {
            token_approvals: self.token_approvals.insert(t, to),
            events: self.events.push(
                Event::Approval { owner: self.owner_of(t), approved: to, token_id: t },
            ),
            ..self
        }
    }

    /// The committed delta of a blanket delegation: store the flag and
    /// append the notification, unconditionally even when the flag is
    /// unchanged.
    pub open spec fn set_operator_tr(
        self,
        owner: Account,
        operator: Account,
        approved: bool,
    ) -> LedgerState {
        LedgerState {
            operator_approvals: self.operator_approvals.insert((owner, operator), approved),
            events: self.events.push(Event::ApprovalForAll { owner, operator, approved }),
            ..self
        }
    }
}

/// The freshly constructed ledger satisfies the global invariant.
pub proof fn lemma_init_inv(name: Seq<char>, symbol: Seq<char>, base_uri: Seq<char>)
    ensures
        LedgerState::init(name, symbol, base_uri).inv(),
{
    let s = LedgerState::init(name, symbol, base_uri);
    assert forall|a: Account| a != null_account() implies #[trigger] s.balance_of(a) == s.owned(
        a,
    ).len() by {
        assert(s.owned(a) =~= Set::<TokenId>::empty());
    }
}

/// The single mutation path preserves the global invariant, whatever the
/// destination: mint, burn, and transfer alike.
pub proof fn lemma_update_preserves_inv(s: LedgerState, to: Account, t: TokenId)
    requires
        s.inv(),
    ensures
        s.update_tr(to, t).inv(),
{
    let nul = null_account();
    let from = s.owner_of(t);
    let s2 = s.update_tr(to, t);

    assert(s2.owners.dom() =~= s.owners.dom().insert(t));

    // each owned set is finite and bounded by the table's domain
    assert forall|a: Account| (#[trigger] s.owned(a)).finite() by {
        s.owners.dom().lemma_len_filter(owns_pred(s.owners, a));
    }
    assert forall|a: Account| (#[trigger] s2.owned(a)).finite() by {
        s2.owners.dom().lemma_len_filter(owns_pred(s2.owners, a));
    }

    // membership of the moved token before the change
    if from != nul {
        assert(s.owned(from).contains(t));
    }
    assert(forall|a: Account| a != from ==> !(#[trigger] s.owned(a)).contains(t));

    // how each owned set changes
    assert forall|a: Account| a != to implies #[trigger] s2.owned(a) =~= s.owned(a).remove(t) by {
        assert forall|t2: TokenId| s2.owned(a).contains(t2) <==> s.owned(a).remove(t).contains(
            t2,
        ) by {
            if t2 != t {
                assert(s2.owners.contains_key(t2) <==> s.owners.contains_key(t2));
                if s.owners.contains_key(t2) {
                    assert(s2.owners[t2] == s.owners[t2]);
                }
            }
        }
    }
    if to != nul {
        assert(s2.owned(to) =~= s.owned(to).insert(t)) by {
            assert forall|t2: TokenId| s2.owned(to).contains(t2) <==> s.owned(to).insert(
                t,
            ).contains(t2) by {
                if t2 != t {
                    assert(s2.owners.contains_key(t2) <==> s.owners.contains_key(t2));
                    if s.owners.contains_key(t2) {
                        assert(s2.owners[t2] == s.owners[t2]);
                    }
                }
            }
        }
    }

    // the balance table after both adjustments
    let b1 = if from != nul {
        s.balances.insert(from, (bal_of(s.balances, from) - 1) as nat)
    } else {
        s.balances
    };
    let b2 = if to != nul {
        b1.insert(to, bal_of(b1, to) + 1)
    } else {
        b1
    };
    assert(s2.balances == b2);

    // balance consistency for every real account
    assert forall|a: Account| a != nul implies #[trigger] s2.balance_of(a) == s2.owned(
        a,
    ).len() by {
        if a == to {
            if from == to {
                assert(s.owned(to).contains(t));
                assert(s2.owned(to) =~= s.owned(to));
                assert(bal_of(b1, to) == (s.balance_of(to) - 1) as nat);
                assert(s.balance_of(to) == s.owned(to).len());
                assert(s.owned(to).len() >= 1);
                assert(s2.balance_of(to) == s.owned(to).len());
            } else {
                assert(!s.owned(to).contains(t));
                assert(s2.owned(to).len() == s.owned(to).len() + 1);
                assert(bal_of(b1, to) == s.balance_of(to));
                assert(s2.balance_of(to) == s.balance_of(to) + 1);
            }
        } else if a == from {
            // from != to, so the remove really shrinks the set
            assert(s.owned(from).contains(t));
            assert(s2.owned(from) =~= s.owned(from).remove(t));
            assert(s2.owned(from).len() == s.owned(from).len() - 1);
            assert(bal_of(b1, from) == (s.balance_of(from) - 1) as nat);
            assert(s2.balance_of(from) == bal_of(b1, from));
            assert(s.owned(from).len() >= 1);
        } else {
            assert(!s.owned(a).contains(t));
            assert(s2.owned(a) =~= s.owned(a).remove(t));
            assert(s.owned(a).remove(t) =~= s.owned(a));
            assert(s2.balance_of(a) == s.balance_of(a));
        }
    }

    // the null account still holds nothing
    assert(s2.balance_of(nul) == 0);

    // a nonexistent token still carries no delegate
    assert forall|t2: TokenId| s2.owner_of(t2) == nul implies #[trigger] s2.approved(t2)
        == nul by {
        if t2 == t {
            if from != nul {
                assert(s2.token_approvals == s.token_approvals.insert(t, nul));
                assert(s2.approved(t) == nul);
            } else {
                assert(s.owner_of(t) == nul);
                assert(s.approved(t) == nul);
                assert(s2.token_approvals == s.token_approvals);
                assert(s2.approved(t) == s.approved(t));
            }
        } else {
            assert(s2.owner_of(t2) == s.owner_of(t2));
            assert(s2.approved(t2) == s.approved(t2));
            assert(s.approved(t2) == nul);
        }
    }

    // blanket delegations are untouched
    assert forall|o: Account, p: Account| #[trigger] s2.approved_for_all(o, p) implies p
        != nul by {
        assert(s2.operator_approvals == s.operator_approvals);
        assert(s.approved_for_all(o, p));
    }
}

/// An explicit delegation on an existing token preserves the global
/// invariant.
pub proof fn lemma_approve_preserves_inv(s: LedgerState, to: Account, t: TokenId)
    requires
        s.inv(),
        s.token_exists(t),
    ensures
        s.approve_tr(to, t).inv(),
{
    let s2 = s.approve_tr(to, t);
    assert(s2.owners == s.owners);
    assert forall|a: Account| a != null_account() implies #[trigger] s2.balance_of(a) == s2.owned(
        a,
    ).len() by {
        assert(s.balance_of(a) == s.owned(a).len());
        assert(s2.owned(a) =~= s.owned(a));
        assert(s2.balance_of(a) == s.balance_of(a));
    }
    assert forall|t2: TokenId| s2.owner_of(t2) == null_account() implies #[trigger] s2.approved(t2)
        == null_account() by {
        assert(s2.owner_of(t2) == s.owner_of(t2));
        assert(t2 != t);
        assert(s2.approved(t2) == s.approved(t2));
        assert(s.approved(t2) == null_account());
    }
    assert forall|o: Account, p: Account| #[trigger] s2.approved_for_all(o, p) implies p
        != null_account() by {
        assert(s.approved_for_all(o, p));
    }
}

/// Recording a blanket delegation for a real operator preserves the
/// global invariant.
pub proof fn lemma_set_operator_preserves_inv(
    s: LedgerState,
    owner: Account,
    operator: Account,
    approved: bool,
)
    requires
        s.inv(),
        operator != null_account(),
    ensures
        s.set_operator_tr(owner, operator, approved).inv(),
{
    let s2 = s.set_operator_tr(owner, operator, approved);
    assert forall|a: Account| a != null_account() implies #[trigger] s2.balance_of(a) == s2.owned(
        a,
    ).len() by {
        assert(s.balance_of(a) == s.owned(a).len());
        assert(s2.owned(a) =~= s.owned(a));
        assert(s2.balance_of(a) == s.balance_of(a));
    }
    assert forall|t2: TokenId| s2.owner_of(t2) == null_account() implies #[trigger] s2.approved(t2)
        == null_account() by {
        assert(s2.owner_of(t2) == s.owner_of(t2));
        assert(s2.approved(t2) == s.approved(t2));
        assert(s.approved(t2) == null_account());
    }
    assert forall|o: Account, p: Account| #[trigger] s2.approved_for_all(o, p) implies p
        != null_account() by {
        if !(o == owner && p == operator) {
            assert(s.approved_for_all(o, p));
        }
    }
}

} // verus!
