//! The general laws of the ledger, stated over the abstract state and
//! proved from the same definitions the executable operations are
//! verified against.

use vstd::prelude::*;
use crate::account::{Account, null_account};
use crate::token::TokenId;
use crate::events::Event;
use crate::state::{lemma_update_preserves_inv, owns_pred, LedgerState};
use crate::ledger::{lemma_wf_implies_inv, ERC721};

verus! {

/// Balance consistency: in every well-formed ledger, each real
/// account's recorded balance equals the number of tokens whose owner
/// of record is that account.
pub proof fn lemma_balance_consistency(l: &ERC721, a: Account)
    requires
        l.wf(),
        a != null_account(),
    ensures
        l@.balance_of(a) == l@.owned(a).len(),
{
    lemma_wf_implies_inv(l);
}

/// Single owner: ownership is a function of the token, so at most one
/// account is the owner of record of any token at any time.
pub proof fn lemma_single_owner(s: LedgerState, t: TokenId, a1: Account, a2: Account)
    requires
        s.owner_of(t) == a1,
        s.owner_of(t) == a2,
    ensures
        a1 == a2,
{
}

/// Approval clearing: committing the update transition for a token —
/// a transfer or a burn, whatever its destination — leaves the token
/// with no approved delegate, regardless of the delegate beforehand.
pub proof fn lemma_approval_cleared(s: LedgerState, to: Account, t: TokenId)
    requires
        s.inv(),
    ensures
        s.update_tr(to, t).approved(t) == null_account(),
{
    if s.owner_of(t) == null_account() {
        assert(s.approved(t) == null_account());
    }
}

/// Idempotent double delegation: granting the same blanket delegation
/// twice leaves every table exactly as a single grant does, while each
/// grant appends its own notification.
pub proof fn lemma_double_approval(s: LedgerState, owner: Account, operator: Account)
    ensures
        ({
            let once = s.set_operator_tr(owner, operator, true);
            let twice = once.set_operator_tr(owner, operator, true);
            let note = Event::ApprovalForAll { owner, operator, approved: true };
            &&& twice.owners == once.owners
            &&& twice.balances == once.balances
            &&& twice.token_approvals == once.token_approvals
            &&& twice.operator_approvals == once.operator_approvals
            &&& once.events == s.events.push(note)
            &&& twice.events == once.events.push(note)
        }),
{
    let once = s.set_operator_tr(owner, operator, true);
    let twice = once.set_operator_tr(owner, operator, true);
    assert(twice.operator_approvals =~= once.operator_approvals);
}

/// Round trip: transferring a token away and back restores its owner
/// of record and both parties' balances.
pub proof fn lemma_transfer_round_trip(s: LedgerState, a: Account, b: Account, t: TokenId)
    requires
        s.inv(),
        a != null_account(),
        b != null_account(),
        s.owner_of(t) == a,
    ensures
        ({
            let s2 = s.update_tr(b, t).update_tr(a, t);
            &&& s2.owner_of(t) == a
            &&& s2.balance_of(a) == s.balance_of(a)
            &&& s2.balance_of(b) == s.balance_of(b)
        }),
{
    let s1 = s.update_tr(b, t);
    let s2 = s1.update_tr(a, t);
    lemma_update_preserves_inv(s, b, t);
    assert(s1.owner_of(t) == b);
    // the source account owns the token, so its balance is positive
    assert(s.balance_of(a) == s.owned(a).len());
    assert(s.owned(a).contains(t));
    s.owners.dom().lemma_len_filter(owns_pred(s.owners, a));
    assert(s.owned(a).len() == s.owned(a).remove(t).len() + 1);
    if a == b {
        assert(s1.balance_of(a) == s.balance_of(a));
        assert(s2.balance_of(a) == s1.balance_of(a));
    } else {
        assert(s1.balance_of(a) == s.balance_of(a) - 1);
        assert(s1.balance_of(b) == s.balance_of(b) + 1);
        assert(s2.balance_of(b) == s1.balance_of(b) - 1);
        assert(s2.balance_of(a) == s1.balance_of(a) + 1);
    }
}

} // verus!
