use vstd::prelude::*;

verus! {

/// An opaque 160-bit participant identifier: an owner, an operator, or an
/// approved delegate. The all-zero value is the distinguished null account,
/// which stands for "no one": no owner, no delegate, the burn destination.
#[derive(PartialEq, Eq, Structural, Clone, Copy, Debug, Hash)]
pub struct Account {
    pub hi: u32,
    pub lo: u128,
}

/// The sentinel account meaning "no one".
pub open spec fn null_account() -> Account {
    Account { hi: 0, lo: 0 }
}

impl Account {
    /// Builds an account identifier from its high 32 bits and low 128 bits.
    pub fn new(hi: u32, lo: u128) -> (r: Account)
        ensures
            r == (Account { hi, lo }),
    {
        Account { hi, lo }
    }

    /// A convenience constructor for small identifiers.
    pub fn from_u64(x: u64) -> (r: Account)
        ensures
            r == (Account { hi: 0u32, lo: x as u128 }),
            r == null_account() <==> x == 0,
    {
        Account { hi: 0, lo: x as u128 }
    }

    /// The null account, the sentinel for "no one".
    pub fn null() -> (r: Account)
        ensures
            r == null_account(),
    {
        Account { hi: 0, lo: 0 }
    }

    /// True exactly when this is the null account.
    pub fn is_null(&self) -> (r: bool)
        ensures
            r <==> *self == null_account(),
    {
        self.hi == 0 && self.lo == 0
    }
}

} // verus!
