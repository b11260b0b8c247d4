use vstd::prelude::*;
use crate::account::Account;
use crate::token::TokenId;

verus! {

/// The closed taxonomy of ledger failures. Each variant carries the
/// entities that made the operation illegal, so callers can branch on the
/// failure kind programmatically.
#[derive(PartialEq, Eq, Structural, Clone, Copy, Debug)]
pub enum Erc721Error {
    /// An operation was asked to treat the null account as a real owner.
    InvalidOwner { owner: Account },
    /// A lookup, authorization, or approval targeted a token whose current
    /// owner is the null account (never minted, or already burned).
    TokenNotFound { token_id: TokenId },
    /// The caller-asserted sender does not match the token's actual owner.
    IncorrectOwner { sender: Account, token_id: TokenId, owner: Account },
    /// A structurally disallowed sender was supplied (a mint found the
    /// token already owned).
    InvalidSender { sender: Account },
    /// The destination account is the null account on an operation that
    /// forbids it.
    InvalidReceiver { receiver: Account },
    /// The actor holds neither ownership, nor operator approval, nor the
    /// single-token approval.
    InsufficientApproval { operator: Account, token_id: TokenId },
    /// An approval was attempted by an account lacking the right to grant
    /// it.
    InvalidApprover { approver: Account },
    /// The operator argument is the null account, or an approval authorizer
    /// is neither the owner nor an existing operator.
    InvalidOperator { operator: Account },
}

} // verus!
