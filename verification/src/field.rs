//! Canonical base-field elements for the Pallas curve, held as four
//! little-endian 64-bit limbs. The modular operations themselves (addition,
//! subtraction, multiplication, inversion) are performed by `pasta_curves`'
//! field type behind narrow trusted wrappers; everything this crate states
//! about them is phrased over the plain limb values.

use vstd::prelude::*;
use vstd::arithmetic::div_mod::lemma_small_mod;
use vstd::arithmetic::div_mod::lemma_mul_mod_noop_left;
use vstd::arithmetic::div_mod::lemma_mul_mod_noop_right;
use vstd::arithmetic::mul::lemma_mul_is_associative;
use pasta_curves::Fp;
use pasta_curves::group::ff::Field;
use pasta_curves::group::ff::PrimeField;

verus! {

/// The Pallas base-field modulus,
/// p = 0x40000000000000000000000000000000224698fc094cf91b992d30ed00000001.
pub open spec fn modulus() -> int {
    0x40000000000000000000000000000000224698fc094cf91b992d30ed00000001int
}

/// The integer a sequence of four little-endian 64-bit limbs stands for.
pub open spec fn limbs_val(l: [u64; 4]) -> int {
    l[0] + l[1] * 0x1_0000_0000_0000_0000int
        + l[2] * 0x1_0000_0000_0000_0000_0000_0000_0000_0000int
        + l[3] * 0x1_0000_0000_0000_0000_0000_0000_0000_0000_0000_0000_0000_0000int
}

/// Field addition modulo the Pallas prime.
pub open spec fn fadd(a: int, b: int) -> int {
    (a + b) % modulus()
}

/// Field subtraction modulo the Pallas prime.
pub open spec fn fsub(a: int, b: int) -> int {
    (a - b) % modulus()
}

/// Field multiplication modulo the Pallas prime.
pub open spec fn fmul(a: int, b: int) -> int {
    (a * b) % modulus()
}

/// The product of a sequence of field values, reduced after every factor.
pub open spec fn prod_mod(s: Seq<int>) -> int
    decreases s.len(),
{
    if s.len() == 0 {
        1
    } else {
        fmul(prod_mod(s.drop_last()), s.last())
    }
}

/// `d` has a multiplicative inverse modulo the Pallas prime.
pub open spec fn invertible(d: int) -> bool {
    exists|w: int| 0 <= w < modulus() && #[trigger] fmul(d, w) == 1
}

/// A canonical Pallas base-field element: four little-endian 64-bit limbs
/// whose value is strictly below the modulus.
#[derive(Clone, Copy, PartialEq, Eq, Debug)]
pub struct Fe {
    pub limbs: [u64; 4],
}

impl Fe {
    /// The mathematical value of this element.
    pub open spec fn val(self) -> int {
        limbs_val(self.limbs)
    }

    /// Canonical form: reduced modulo the field prime.
    pub open spec fn wf(self) -> bool {
        0 <= self.val() < modulus()
    }

    /// The additive identity.
    pub fn zero() -> (r: Fe)
        ensures
            r.val() == 0,
            r.wf(),
    {
        Fe { limbs: [0u64, 0u64, 0u64, 0u64] }
    }

    /// The multiplicative identity.
    pub fn one() -> (r: Fe)
        ensures
            r.val() == 1,
            r.wf(),
    {
        Fe { limbs: [1u64, 0u64, 0u64, 0u64] }
    }

    /// Embed a single word.
    pub fn from_u64(x: u64) -> (r: Fe)
        ensures
            r.val() == x,
            r.wf(),
    {
        Fe { limbs: [x, 0u64, 0u64, 0u64] }
    }

    /// Build an element from already-reduced little-endian limbs.
    pub fn from_limbs(limbs: [u64; 4]) -> (r: Fe)
        requires
            0 <= limbs_val(limbs) < modulus(),
        ensures
            r.limbs == limbs,
            r.wf(),
    {
        Fe { limbs }
    }

    /// The little-endian limbs of this element.
    pub fn to_limbs(&self) -> (r: [u64; 4])
        ensures
            r == self.limbs,
    {
        self.limbs
    }

    /// Zero test, by limb comparison: canonical elements represent zero
    /// uniquely.
    pub fn is_zero(&self) -> (r: bool)
        ensures
            r <==> self.val() == 0,
    {
        self.limbs[0] == 0 && self.limbs[1] == 0 && self.limbs[2] == 0 && self.limbs[3] == 0
    }

    /// Value equality, by limb comparison: canonical elements represent each
    /// value uniquely.
    pub fn eq_fe(&self, other: &Fe) -> (r: bool)
        ensures
            r <==> self.val() == other.val(),
    {
        let r = self.limbs[0] == other.limbs[0] && self.limbs[1] == other.limbs[1]
            && self.limbs[2] == other.limbs[2] && self.limbs[3] == other.limbs[3];
        proof {
            if self.val() == other.val() {
                lemma_limbs_val_injective(self.limbs, other.limbs);
            }
        }
        r
    }

    /// Field addition.
    pub fn add_fe(&self, rhs: &Fe) -> (r: Fe)
        requires
            self.wf(),
            rhs.wf(),
        ensures
            r.wf(),
            r.val() == fadd(self.val(), rhs.val()),
    {
        fp_add(self, rhs)
    }

    /// Field subtraction.
    pub fn sub_fe(&self, rhs: &Fe) -> (r: Fe)
        requires
            self.wf(),
            rhs.wf(),
        ensures
            r.wf(),
            r.val() == fsub(self.val(), rhs.val()),
    {
        fp_sub(self, rhs)
    }

    /// Field multiplication.
    pub fn mul_fe(&self, rhs: &Fe) -> (r: Fe)
        requires
            self.wf(),
            rhs.wf(),
        ensures
            r.wf(),
            r.val() == fmul(self.val(), rhs.val()),
    {
        fp_mul(self, rhs)
    }

    /// Field inversion: `None` exactly on zero, otherwise the multiplicative
    /// inverse (which witnesses that the value is invertible).
    pub fn invert_fe(&self) -> (r: Option<Fe>)
        requires
            self.wf(),
        ensures
            r is None <==> self.val() == 0,
            r matches Some(i) ==> i.wf() && fmul(i.val(), self.val()) == 1 && invertible(
                self.val(),
            ),
    {
        let r = fp_invert(self);
        proof {
            match r {
                Some(i) => {
                    assert(fmul(self.val(), i.val()) == 1);
                },
                None => {},
            }
        }
        r
    }
}

/// Two limb sequences with the same value are the same limbs: the radix-2^64
/// representation is injective.
proof fn lemma_limbs_val_injective(a: [u64; 4], b: [u64; 4])
    requires
        limbs_val(a) == limbs_val(b),
    ensures
        a == b,
{
    broadcast use vstd::array::group_array_axioms;

    let r: int = 0x1_0000_0000_0000_0000;
    let xa: int = a[1] + a[2] * r + a[3] * r * r;
    let xb: int = b[1] + b[2] * r + b[3] * r * r;
    assert(a[0] + xa * r == b[0] + xb * r) by {
        assert(a[2] * (r * r) == a[2] * r * r) by {
            lemma_mul_is_associative(a[2] as int, r, r);
        }
        assert(a[3] * (r * r * r) == a[3] * r * r * r) by {
            lemma_mul_is_associative(a[3] as int, r * r, r);
            lemma_mul_is_associative(a[3] as int, r, r * r);
            lemma_mul_is_associative(r, r, r);
        }
        assert(b[2] * (r * r) == b[2] * r * r) by {
            lemma_mul_is_associative(b[2] as int, r, r);
        }
        assert(b[3] * (r * r * r) == b[3] * r * r * r) by {
            lemma_mul_is_associative(b[3] as int, r * r, r);
            lemma_mul_is_associative(b[3] as int, r, r * r);
            lemma_mul_is_associative(r, r, r);
        }
    }
    assert(a[0] == b[0] && xa == xb);
    let ya: int = a[2] + a[3] * r;
    let yb: int = b[2] + b[3] * r;
    assert(a[1] + ya * r == b[1] + yb * r);
    assert(a[1] == b[1] && ya == yb);
    assert(a[2] == b[2] && a[3] == b[3]);
    assert(a =~= b);
}

/// Canonical field elements represent each value uniquely.
pub proof fn lemma_fe_val_injective(a: Fe, b: Fe)
    requires
        a.val() == b.val(),
    ensures
        a == b,
{
    lemma_limbs_val_injective(a.limbs, b.limbs);
}

/// Products of reduced factors reduce pairwise: `fmul` is associative.
pub proof fn lemma_fmul_assoc(a: int, b: int, c: int)
    ensures
        fmul(fmul(a, b), c) == fmul(a, fmul(b, c)),
{
    lemma_mul_mod_noop_left(a * b, c, modulus());
    lemma_mul_mod_noop_right(a, b * c, modulus());
    lemma_mul_is_associative(a, b, c);
}

/// Multiplying a reduced value by one leaves it unchanged.
pub proof fn lemma_fmul_one(a: int)
    requires
        0 <= a < modulus(),
    ensures
        fmul(1, a) == a,
        fmul(a, 1) == a,
{
    lemma_small_mod(a as nat, modulus() as nat);
}

/// Relies on `pasta_curves::Fp` addition (`core::ops::Add`), with
/// `Fp::from_raw` reading canonical little-endian limbs and
/// `ff::PrimeField::to_repr` writing the canonical result back: the sum
/// modulo the Pallas base-field prime.
#[verifier::external_body]
fn fp_add(a: &Fe, b: &Fe) -> (r: Fe)
    requires
        a.wf(),
        b.wf(),
    ensures
        r.wf(),
        r.val() == fadd(a.val(), b.val()),
{
    let v = (Fp::from_raw(a.limbs) + Fp::from_raw(b.limbs)).to_repr();
    Fe {
        limbs: [
            u64::from_le_bytes(v[0..8].try_into().unwrap()),
            u64::from_le_bytes(v[8..16].try_into().unwrap()),
            u64::from_le_bytes(v[16..24].try_into().unwrap()),
            u64::from_le_bytes(v[24..32].try_into().unwrap()),
        ],
    }
}

/// Relies on `pasta_curves::Fp` subtraction (`core::ops::Sub`), converting
/// through `Fp::from_raw` and `ff::PrimeField::to_repr`: the difference
/// modulo the Pallas base-field prime.
#[verifier::external_body]
fn fp_sub(a: &Fe, b: &Fe) -> (r: Fe)
    requires
        a.wf(),
        b.wf(),
    ensures
        r.wf(),
        r.val() == fsub(a.val(), b.val()),
{
    let v = (Fp::from_raw(a.limbs) - Fp::from_raw(b.limbs)).to_repr();
    Fe {
        limbs: [
            u64::from_le_bytes(v[0..8].try_into().unwrap()),
            u64::from_le_bytes(v[8..16].try_into().unwrap()),
            u64::from_le_bytes(v[16..24].try_into().unwrap()),
            u64::from_le_bytes(v[24..32].try_into().unwrap()),
        ],
    }
}

/// Relies on `pasta_curves::Fp` multiplication (`core::ops::Mul`, Montgomery
/// arithmetic), converting through `Fp::from_raw` and
/// `ff::PrimeField::to_repr`: the product modulo the Pallas base-field prime.
#[verifier::external_body]
fn fp_mul(a: &Fe, b: &Fe) -> (r: Fe)
    requires
        a.wf(),
        b.wf(),
    ensures
        r.wf(),
        r.val() == fmul(a.val(), b.val()),
{
    let v = (Fp::from_raw(a.limbs) * Fp::from_raw(b.limbs)).to_repr();
    Fe {
        limbs: [
            u64::from_le_bytes(v[0..8].try_into().unwrap()),
            u64::from_le_bytes(v[8..16].try_into().unwrap()),
            u64::from_le_bytes(v[16..24].try_into().unwrap()),
            u64::from_le_bytes(v[24..32].try_into().unwrap()),
        ],
    }
}

/// Relies on `ff::Field::invert` for `pasta_curves::Fp`: it fails exactly on
/// zero and otherwise returns the multiplicative inverse modulo the Pallas
/// base-field prime (it computes the power p - 2 of its argument).
#[verifier::external_body]
fn fp_invert(a: &Fe) -> (r: Option<Fe>)
    requires
        a.wf(),
    ensures
        r is None <==> a.val() == 0,
        r matches Some(i) ==> i.wf() && fmul(i.val(), a.val()) == 1,
{
    match Option::<Fp>::from(Fp::from_raw(a.limbs).invert()) {
        None => None,
        Some(f) => {
            let v = f.to_repr();
            Some(Fe {
                limbs: [
                    u64::from_le_bytes(v[0..8].try_into().unwrap()),
                    u64::from_le_bytes(v[8..16].try_into().unwrap()),
                    u64::from_le_bytes(v[16..24].try_into().unwrap()),
                    u64::from_le_bytes(v[24..32].try_into().unwrap()),
                ],
            })
        },
    }
}

} // verus!
