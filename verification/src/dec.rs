//! Decimal rendering of 256-bit token identifiers, used to derive a
//! token's descriptor locator from the base locator.

use vstd::prelude::*;
use vstd::arithmetic::div_mod::{lemma_fundamental_div_mod, lemma_fundamental_div_mod_converse};
use crate::token::TokenId;

verus! {

/// The character of a single decimal digit.
pub open spec fn digit_char(d: nat) -> char {
    if d == 0 {
        '0'
    } else if d == 1 {
        '1'
    } else if d == 2 {
        '2'
    } else if d == 3 {
        '3'
    } else if d == 4 {
        '4'
    } else if d == 5 {
        '5'
    } else if d == 6 {
        '6'
    } else if d == 7 {
        '7'
    } else if d == 8 {
        '8'
    } else {
        '9'
    }
}

/// The decimal representation of a natural number, most significant
/// digit first, with no leading zeros (a single zero digit for zero).
pub open spec fn dec_rep(n: nat) -> Seq<char>
    decreases n,
{
    if n < 10 {
        seq![digit_char(n)]
    } else {
        dec_rep(n / 10).push(digit_char(n % 10))
    }
}

/// The single-character string of one decimal digit.
fn digit_str(d: u64) -> (r: &'static str)
    requires
        d < 10,
    ensures
        r@ == seq![digit_char(d as nat)],
{
    let r: &'static str = if d == 0 {
        "0"
    } else if d == 1 {
        "1"
    } else if d == 2 {
        "2"
    } else if d == 3 {
        "3"
    } else if d == 4 {
        "4"
    } else if d == 5 {
        "5"
    } else if d == 6 {
        "6"
    } else if d == 7 {
        "7"
    } else if d == 8 {
        "8"
    } else {
        "9"
    };
    proof {
        reveal_strlit("0");
        reveal_strlit("1");
        reveal_strlit("2");
        reveal_strlit("3");
        reveal_strlit("4");
        reveal_strlit("5");
        reveal_strlit("6");
        reveal_strlit("7");
        reveal_strlit("8");
        reveal_strlit("9");
        assert(r@ =~= seq![digit_char(d as nat)]);
    }
    r
}

/// Divides a 256-bit identifier by ten, limb by limb, carrying the
/// remainder down through 128-bit intermediates.
fn div10(id: TokenId) -> (r: (TokenId, u64))
    ensures
        r.0.value() * 10 + r.1 == id.value(),
        r.1 < 10,
{
    let t3: u128 = id.w3 as u128;
    let q3: u128 = t3 / 10;
    let r3: u128 = t3 % 10;
    proof {
        lemma_fundamental_div_mod(t3 as int, 10);
    }
    let t2: u128 = r3 * 0x1_0000_0000_0000_0000u128 + id.w2 as u128;
    let q2: u128 = t2 / 10;
    let r2: u128 = t2 % 10;
    proof {
        lemma_fundamental_div_mod(t2 as int, 10);
    }
    let t1: u128 = r2 * 0x1_0000_0000_0000_0000u128 + id.w1 as u128;
    let q1: u128 = t1 / 10;
    let r1: u128 = t1 % 10;
    proof {
        lemma_fundamental_div_mod(t1 as int, 10);
    }
    let t0: u128 = r1 * 0x1_0000_0000_0000_0000u128 + id.w0 as u128;
    let q0: u128 = t0 / 10;
    let r0: u128 = t0 % 10;
    proof {
        lemma_fundamental_div_mod(t0 as int, 10);
    }
    let out = TokenId::new(q0 as u64, q1 as u64, q2 as u64, q3 as u64);
    proof {
        let p = 0x1_0000_0000_0000_0000int;
        let a2 = id.w3 * p + id.w2;
        let b2 = q3 * p + q2;
        assert(a2 == 10 * b2 + r2 && a2 >= 0 && b2 >= 0) by (nonlinear_arith)
            requires
                p == 0x1_0000_0000_0000_0000int,
                a2 == id.w3 * p + id.w2,
                b2 == q3 * p + q2,
                id.w3 == 10 * q3 + r3,
                r3 * p + id.w2 == 10 * q2 + r2,
                q3 >= 0,
                q2 >= 0,
                r2 >= 0,
                id.w2 >= 0,
                id.w3 >= 0,
        ;
        let a1 = a2 * p + id.w1;
        let b1 = b2 * p + q1;
        assert(a1 == 10 * b1 + r1 && a1 >= 0 && b1 >= 0) by (nonlinear_arith)
            requires
                p == 0x1_0000_0000_0000_0000int,
                a1 == a2 * p + id.w1,
                b1 == b2 * p + q1,
                a2 == 10 * b2 + r2,
                r2 * p + id.w1 == 10 * q1 + r1,
                a2 >= 0,
                b2 >= 0,
                q1 >= 0,
                r1 >= 0,
                id.w1 >= 0,
        ;
        let a0 = a1 * p + id.w0;
        let b0 = b1 * p + q0;
        assert(a0 == 10 * b0 + r0 && a0 >= 0 && b0 >= 0) by (nonlinear_arith)
            requires
                p == 0x1_0000_0000_0000_0000int,
                a0 == a1 * p + id.w0,
                b0 == b1 * p + q0,
                a1 == 10 * b1 + r1,
                r1 * p + id.w0 == 10 * q0 + r0,
                a1 >= 0,
                b1 >= 0,
                q0 >= 0,
                r0 >= 0,
                id.w0 >= 0,
        ;
        assert(id.value() == a0);
        assert(out.value() == b0);
    }
    (out, r0 as u64)
}

/// Renders an identifier's value in decimal.
pub fn dec_string(id: TokenId) -> (r: String)
    ensures
        r@ == dec_rep(id.value()),
    decreases id.value(),
{
    let (q, d) = div10(id);
    proof {
        lemma_fundamental_div_mod_converse(
            id.value() as int,
            10,
            q.value() as int,
            d as int,
        );
    }
    if q.is_zero() {
        proof {
            assert(id.value() == d);
        }
        String::from_str(digit_str(d))
    } else {
        proof {
            assert(id.value() >= 10);
            assert(q.value() < id.value());
        }
        let mut s = dec_string(q);
        s.append(digit_str(d));
        proof {
            assert(dec_rep(id.value()) == dec_rep(q.value()).push(digit_char(d as nat)));
            assert(dec_rep(q.value()).push(digit_char(d as nat)) =~= dec_rep(q.value()) + seq![
                digit_char(d as nat),
            ]);
        }
        s
    }
}

} // verus!
