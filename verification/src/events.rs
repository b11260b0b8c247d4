use vstd::prelude::*;
use crate::account::Account;
use crate::token::TokenId;

verus! {

/// The notifications the ledger raises, in the order the mutations
/// committed. A transfer event fires on every ownership change, minting
/// and burning included; an approval event fires only on explicit
/// delegation, never on the silent clear during a transfer.
#[derive(PartialEq, Eq, Structural, Clone, Copy, Debug)]
#[allow(inconsistent_fields)]
pub enum Event {
    Transfer { from: Account, to: Account, token_id: TokenId },
    Approval { owner: Account, approved: Account, token_id: TokenId },
    ApprovalForAll { owner: Account, operator: Account, approved: bool },
}

} // verus!
