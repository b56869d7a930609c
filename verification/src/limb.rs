//! Leaf-level multi-precision primitives on 64-bit limbs: add-with-carry,
//! subtract-with-borrow, and multiply-accumulate-with-carry. Every
//! field-element operation is chained from these.

use vstd::prelude::*;
use vstd::arithmetic::div_mod::lemma_fundamental_div_mod;
use vstd::arithmetic::div_mod::lemma_fundamental_div_mod_converse;
use vstd::arithmetic::mul::lemma_mul_upper_bound;
use vstd::arithmetic::div_mod::lemma_small_mod;
use vstd::arithmetic::div_mod::lemma_mod_multiples_vanish;
use vstd::arithmetic::div_mod::lemma_mod_bound;

verus! {

/// The limb radix, 2^64.
pub open spec fn two64() -> int {
    0x1_0000_0000_0000_0000
}

/// The exact low/high split of `a + b + carry`.
pub open spec fn adc_spec(a: u64, b: u64, carry: u64) -> (u64, u64) {
    (((a + b + carry) % two64()) as u64, ((a + b + carry) / two64()) as u64)
}

/// The exact result of `a - (b + borrow)`: the difference modulo 2^64, and a
/// new borrow of 1 exactly when the subtraction underflowed.
pub open spec fn sbb_spec(a: u64, b: u64, borrow: u64) -> (u64, u64) {
    let t = a - b - borrow;
    (((t % two64()) as u64), (if t < 0 { 1u64 } else { 0u64 }))
}

/// The exact low/high split of `a + b * c + carry`.
pub open spec fn mac_spec(a: u64, b: u64, c: u64, carry: u64) -> (u64, u64) {
    (((a + b * c + carry) % two64()) as u64, ((a + b * c + carry) / two64()) as u64)
}

/// Compute `a + b + carry`, returning the result and the new carry over.
pub fn adc(a: u64, b: u64, carry: u64) -> (r: (u64, u64))
    ensures
        r == adc_spec(a, b, carry),
        r.0 + r.1 * two64() == a + b + carry,
        r.1 <= 2,
{
    let wide: u128 = (a as u128) + (b as u128) + (carry as u128);
    let lo: u64 = (wide % 0x1_0000_0000_0000_0000u128) as u64;
    let hi: u64 = (wide / 0x1_0000_0000_0000_0000u128) as u64;
    proof {
        lemma_fundamental_div_mod(wide as int, two64());
    }
    (lo, hi)
}

/// Compute `a - (b + borrow)`, returning the result and the new borrow:
/// the difference with 128-bit wraparound, and 1 exactly when the
/// subtraction underflowed, else 0. Feeding the outgoing borrow into the
/// next limb's subtraction subtracts one extra unit exactly on underflow.
pub fn sbb(a: u64, b: u64, borrow: u64) -> (r: (u64, u64))
    ensures
        r == sbb_spec(a, b, borrow),
        r.1 == 0 || r.1 == 1,
        borrow <= 1 ==> r.0 - r.1 * two64() == a - b - borrow,
{
    let need: u128 = (b as u128) + (borrow as u128);
    let wide: u128 = (a as u128).wrapping_sub(need);
    let bw: u64 = if (a as u128) < need {
        1
    } else {
        0
    };
    proof {
        lemma_sbb_split(a as int, b as int, borrow as int, wide as int);
    }
    let lo: u64 = (wide % 0x1_0000_0000_0000_0000u128) as u64;
    (lo, bw)
}

/// The low 64 bits of the 128-bit wraparound difference are the difference
/// modulo 2^64.
proof fn lemma_sbb_split(a: int, b: int, borrow: int, wide: int)
    requires
        0 <= a < two64(),
        0 <= b < two64(),
        0 <= borrow < two64(),
        wide == if a - b - borrow >= 0 {
            a - b - borrow
        } else {
            a - b - borrow + two64() * two64()
        },
    ensures
        wide % two64() == (a - b - borrow) % two64(),
        0 <= (a - b - borrow) % two64() < two64(),
        borrow <= 1 && a - b - borrow >= 0 ==> (a - b - borrow) % two64() == a - b - borrow,
        borrow <= 1 && a - b - borrow < 0 ==> (a - b - borrow) % two64() == a - b - borrow
            + two64(),
{
    let t = a - b - borrow;
    if t >= 0 {
        lemma_small_mod(t as nat, two64() as nat);
    } else {
        lemma_mod_multiples_vanish(two64(), t, two64());
        if borrow <= 1 {
            lemma_small_mod((t + two64()) as nat, two64() as nat);
            lemma_mod_multiples_vanish(1, t, two64());
        } else {
            lemma_mod_bound(t, two64());
        }
    }
}

/// Compute `a + (b * c) + carry`, returning the result and the new carry over.
pub fn mac(a: u64, b: u64, c: u64, carry: u64) -> (r: (u64, u64))
    ensures
        r == mac_spec(a, b, c, carry),
        r.0 + r.1 * two64() == a + b * c + carry,
{
    proof {
        lemma_mul_upper_bound(b as int, u64::MAX as int, c as int, u64::MAX as int);
    }
    let wide: u128 = (a as u128) + (b as u128) * (c as u128) + (carry as u128);
    let lo: u64 = (wide % 0x1_0000_0000_0000_0000u128) as u64;
    let hi: u64 = (wide / 0x1_0000_0000_0000_0000u128) as u64;
    proof {
        lemma_fundamental_div_mod(wide as int, two64());
    }
    (lo, hi)
}

/// Adding with carry is symmetric in its two addends.
pub proof fn lemma_adc_symmetric(a: u64, b: u64, carry: u64)
    ensures
        adc_spec(a, b, carry) == adc_spec(b, a, carry),
{
}

/// Subtracting an operand and then adding it back recovers the original value:
/// the low word of the re-addition is `a` again, and its carry out equals the
/// borrow the subtraction reported.
pub proof fn lemma_sub_add_round_trip(a: u64, b: u64)
    ensures
        ({
            let (d, bor) = sbb_spec(a, b, 0);
            let (s, c) = adc_spec(d, b, 0);
            s == a && c == bor
        }),
{
    let (d, bor) = sbb_spec(a, b, 0);
    let t = a - b;
    if t >= 0 {
        lemma_small_mod(t as nat, two64() as nat);
        assert(d + b == a);
    } else {
        lemma_small_mod((t + two64()) as nat, two64() as nat);
        lemma_mod_multiples_vanish(1, t, two64());
        assert(d + b == a + two64());
    }
}

} // verus!
