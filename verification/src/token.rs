use vstd::prelude::*;

verus! {

/// A 256-bit unsigned token identifier, held as four 64-bit limbs,
/// least significant first.
#[derive(PartialEq, Eq, Structural, Clone, Copy, Debug, Hash)]
pub struct TokenId {
    pub w0: u64,
    pub w1: u64,
    pub w2: u64,
    pub w3: u64,
}

impl TokenId {
    /// The mathematical value of the identifier, in Horner form over the
    /// limb base.
    pub open spec fn value(self) -> nat {
        (((self.w3 * 0x1_0000_0000_0000_0000int + self.w2) * 0x1_0000_0000_0000_0000int + self.w1)
            * 0x1_0000_0000_0000_0000int + self.w0) as nat
    }

    /// Builds an identifier from four limbs, least significant first.
    pub fn new(w0: u64, w1: u64, w2: u64, w3: u64) -> (r: TokenId)
        ensures
            r == (TokenId { w0, w1, w2, w3 }),
    {
        TokenId { w0, w1, w2, w3 }
    }

    /// A convenience constructor for small identifiers.
    pub fn from_u64(x: u64) -> (r: TokenId)
        ensures
            r == (TokenId { w0: x, w1: 0u64, w2: 0u64, w3: 0u64 }),
            r.value() == x,
    {
        TokenId { w0: x, w1: 0, w2: 0, w3: 0 }
    }

    /// True exactly when the value is zero.
    pub fn is_zero(&self) -> (r: bool)
        ensures
            r <==> self.value() == 0,
    {
        proof {
            let p = 0x1_0000_0000_0000_0000int;
            let v2 = self.w3 * p + self.w2;
            let v1 = v2 * p + self.w1;
            let v0 = v1 * p + self.w0;
            assert(v2 >= 0 && (v2 == 0 <==> (self.w3 == 0 && self.w2 == 0))) by (nonlinear_arith)
                requires
                    v2 == self.w3 * p + self.w2,
                    p == 0x1_0000_0000_0000_0000int,
                    0 <= self.w3 <= u64::MAX,
                    0 <= self.w2 <= u64::MAX,
            ;
            assert(v1 >= 0 && (v1 == 0 <==> (v2 == 0 && self.w1 == 0))) by (nonlinear_arith)
                requires
                    v1 == v2 * p + self.w1,
                    p == 0x1_0000_0000_0000_0000int,
                    v2 >= 0,
                    0 <= self.w1 <= u64::MAX,
            ;
            assert(v0 >= 0 && (v0 == 0 <==> (v1 == 0 && self.w0 == 0))) by (nonlinear_arith)
                requires
                    v0 == v1 * p + self.w0,
                    p == 0x1_0000_0000_0000_0000int,
                    v1 >= 0,
                    0 <= self.w0 <= u64::MAX,
            ;
            assert(self.value() == v0);
        }
        self.w0 == 0 && self.w1 == 0 && self.w2 == 0 && self.w3 == 0
    }
}

} // verus!
