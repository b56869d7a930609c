//! Affine points on a short-Weierstrass curve with `a = 0` over the Pallas
//! base field, the complete affine addition law as a relational
//! specification, and a verified single-pair adder.

use vstd::prelude::*;
use vstd::arithmetic::div_mod::lemma_small_mod;
use vstd::arithmetic::div_mod::lemma_add_mod_noop;
use vstd::arithmetic::div_mod::lemma_mul_mod_noop_left;
use vstd::arithmetic::div_mod::lemma_mul_mod_noop_right;
use vstd::arithmetic::mul::lemma_mul_is_associative;
use crate::field::Fe;
use crate::field::fadd;
use crate::field::fsub;
use crate::field::fmul;
use crate::field::invertible;
use crate::field::modulus;
use crate::field::lemma_fmul_assoc;
use crate::field::lemma_fmul_one;
use crate::field::lemma_fe_val_injective;

verus! {

/// An affine elliptic-curve point: a coordinate pair on the Pallas base
/// field, or the distinguished identity (point at infinity).
#[derive(Clone, Copy, PartialEq, Eq, Debug)]
pub enum AffinePoint {
    Identity,
    Affine { x: Fe, y: Fe },
}

impl AffinePoint {
    /// Both coordinates are canonical field elements.
    pub open spec fn wf(self) -> bool {
        match self {
            AffinePoint::Identity => true,
            AffinePoint::Affine { x, y } => x.wf() && y.wf(),
        }
    }

    /// The x coordinate as a field element (zero stands in for the identity).
    pub open spec fn x_fe(self) -> Fe {
        match self {
            AffinePoint::Identity => Fe { limbs: [0u64, 0u64, 0u64, 0u64] },
            AffinePoint::Affine { x, y } => x,
        }
    }

    /// The y coordinate as a field element (zero stands in for the identity).
    pub open spec fn y_fe(self) -> Fe {
        match self {
            AffinePoint::Identity => Fe { limbs: [0u64, 0u64, 0u64, 0u64] },
            AffinePoint::Affine { x, y } => y,
        }
    }

    /// The value of the x coordinate.
    pub open spec fn xv(self) -> int {
        self.x_fe().val()
    }

    /// The value of the y coordinate.
    pub open spec fn yv(self) -> int {
        self.y_fe().val()
    }

    /// The identity point.
    pub fn identity() -> (r: Self)
        ensures
            r == AffinePoint::Identity,
    {
        AffinePoint::Identity
    }

    /// A finite point from its coordinates. No on-curve check is made.
    pub fn from_xy(x: Fe, y: Fe) -> (r: Self)
        requires
            x.wf(),
            y.wf(),
        ensures
            r == (AffinePoint::Affine { x, y }),
    {
        AffinePoint::Affine { x, y }
    }

    /// Is this the identity?
    pub fn is_identity(&self) -> (r: bool)
        ensures
            r <==> *self is Identity,
    {
        match self {
            AffinePoint::Identity => true,
            AffinePoint::Affine { .. } => false,
        }
    }
}

/// The pair calls for the slope-based formula: neither operand is the
/// identity, and they are not mutual inverses (equal x, opposite y).
pub open spec fn needs_slope(a: AffinePoint, b: AffinePoint) -> bool {
    &&& !(a is Identity)
    &&& !(b is Identity)
    &&& !(a.xv() == b.xv() && fadd(a.yv(), b.yv()) == 0)
}

/// The denominator of the slope: `2*y1` when doubling (equal x),
/// else `x2 - x1`.
pub open spec fn slope_den(a: AffinePoint, b: AffinePoint) -> int {
    if a.xv() == b.xv() {
        fadd(a.yv(), a.yv())
    } else {
        fsub(b.xv(), a.xv())
    }
}

/// The numerator of the slope: `3*x1^2` when doubling (the curve has
/// `a = 0`), else `y2 - y1`.
pub open spec fn slope_num(a: AffinePoint, b: AffinePoint) -> int {
    if a.xv() == b.xv() {
        fmul(3, fmul(a.xv(), a.xv()))
    } else {
        fsub(b.yv(), a.yv())
    }
}

/// The complete affine addition law, as a relation: `r` is the group sum of
/// `a` and `b`. Identity operands pass the other operand through; mutual
/// inverses give the identity; otherwise `r = (x3, y3)` with
/// `x3 = lambda^2 - x1 - x2`, `y3 = lambda*(x1 - x3) - y1`, where `lambda`
/// is the slope (doubling or chord) and the slope denominator is invertible.
pub open spec fn is_sum(a: AffinePoint, b: AffinePoint, r: AffinePoint) -> bool {
    if a is Identity {
        r == b
    } else if b is Identity {
        r == a
    } else if a.xv() == b.xv() && fadd(a.yv(), b.yv()) == 0 {
        r is Identity
    } else {
        &&& r is Affine
        &&& r.wf()
        &&& exists|lam: int, w: int|
            #![trigger fmul(lam, slope_den(a, b)), fmul(slope_den(a, b), w)]
            {
                &&& 0 <= lam < modulus()
                &&& 0 <= w < modulus()
                &&& fmul(lam, slope_den(a, b)) == slope_num(a, b)
                &&& fmul(slope_den(a, b), w) == 1
                &&& r.xv() == fsub(fsub(fmul(lam, lam), a.xv()), b.xv())
                &&& r.yv() == fsub(fmul(lam, fsub(a.xv(), r.xv())), a.yv())
            }
    }
}

/// Combine a slope numerator and the inverse of the slope denominator into
/// the sum's coordinates.
pub(crate) fn slope_combine(
    Ghost(a): Ghost<AffinePoint>,
    Ghost(b): Ghost<AffinePoint>,
    x1: &Fe,
    y1: &Fe,
    x2: &Fe,
    num: &Fe,
    invd: &Fe,
) -> (r: AffinePoint)
    requires
        needs_slope(a, b),
        a == (AffinePoint::Affine { x: *x1, y: *y1 }),
        b is Affine,
        b.x_fe() == *x2,
        x1.wf(),
        y1.wf(),
        x2.wf(),
        num.wf(),
        num.val() == slope_num(a, b),
        invd.wf(),
        fmul(invd.val(), slope_den(a, b)) == 1,
    ensures
        r.wf(),
        is_sum(a, b, r),
{
    let lam = num.mul_fe(invd);
    let x3 = lam.mul_fe(&lam).sub_fe(x1).sub_fe(x2);
    let y3 = lam.mul_fe(&x1.sub_fe(&x3)).sub_fe(y1);
    let r = AffinePoint::Affine { x: x3, y: y3 };
    proof {
        let den = slope_den(a, b);
        lemma_fmul_assoc(num.val(), invd.val(), den);
        lemma_fmul_one(num.val());
        assert(fmul(lam.val(), den) == slope_num(a, b));
        assert(fmul(den, invd.val()) == 1);
        assert(r.xv() == fsub(fsub(fmul(lam.val(), lam.val()), a.xv()), b.xv()));
        assert(r.yv() == fsub(fmul(lam.val(), fsub(a.xv(), r.xv())), a.yv()));
        assert(is_sum(a, b, r));
    }
    r
}

/// Add a single pair of affine points with the complete law, performing one
/// field inversion. The result is the group sum whenever the slope
/// denominator is invertible (for canonical on-curve operands it always is);
/// pairs that need no slope are always summed exactly.
pub fn add_affine(a: &AffinePoint, b: &AffinePoint) -> (r: AffinePoint)
    requires
        a.wf(),
        b.wf(),
    ensures
        r.wf(),
        !needs_slope(*a, *b) ==> is_sum(*a, *b, r),
        needs_slope(*a, *b) && invertible(slope_den(*a, *b)) ==> is_sum(*a, *b, r),
        needs_slope(*a, *b) && !invertible(slope_den(*a, *b)) ==> r is Identity,
{
    match a {
        AffinePoint::Identity => *b,
        AffinePoint::Affine { x: x1, y: y1 } => match b {
            AffinePoint::Identity => *a,
            AffinePoint::Affine { x: x2, y: y2 } => {
                if x1.eq_fe(x2) && y1.add_fe(y2).is_zero() {
                    AffinePoint::Identity
                } else {
                    let (den, num) = slope_parts(Ghost(*a), Ghost(*b), x1, y1, x2, y2);
                    match den.invert_fe() {
                        None => {
                            proof {
                                lemma_zero_not_invertible();
                            }
                            AffinePoint::Identity
                        },
                        Some(invd) => {
                            proof {
                                assert(fmul(slope_den(*a, *b), invd.val()) == 1);
                            }
                            slope_combine(Ghost(*a), Ghost(*b), x1, y1, x2, &num, &invd)
                        },
                    }
                }
            },
        },
    }
}

/// Zero has no multiplicative inverse.
pub(crate) proof fn lemma_zero_not_invertible()
    ensures
        !invertible(0),
{
    assert forall|w: int| #[trigger] fmul(0, w) != 1 by {
        assert(0int * w == 0);
        assert(fmul(0, w) == 0);
    }
}

/// Compute the slope denominator and numerator of a pair that needs the
/// slope formula: `(2*y1, 3*x1^2)` when doubling, `(x2 - x1, y2 - y1)`
/// otherwise.
pub(crate) fn slope_parts(
    Ghost(a): Ghost<AffinePoint>,
    Ghost(b): Ghost<AffinePoint>,
    x1: &Fe,
    y1: &Fe,
    x2: &Fe,
    y2: &Fe,
) -> (r: (Fe, Fe))
    requires
        needs_slope(a, b),
        a == (AffinePoint::Affine { x: *x1, y: *y1 }),
        b == (AffinePoint::Affine { x: *x2, y: *y2 }),
        x1.wf(),
        y1.wf(),
        x2.wf(),
        y2.wf(),
    ensures
        r.0.wf(),
        r.1.wf(),
        r.0.val() == slope_den(a, b),
        r.1.val() == slope_num(a, b),
{
    if x1.eq_fe(x2) {
        let den = y1.add_fe(y1);
        let t3 = x1.add_fe(x1).add_fe(x1);
        let num = t3.mul_fe(x1);
        proof {
            lemma_slope_num_doubling(x1.val(), t3.val(), num.val());
        }
        (den, num)
    } else {
        (x2.sub_fe(x1), y2.sub_fe(y1))
    }
}

/// `((x + x) mod p + x) mod p * x mod p` is `3*x^2 mod p`: the doubling
/// numerator computed by chained reduced operations equals its definition.
proof fn lemma_slope_num_doubling(x: int, t3: int, num: int)
    requires
        0 <= x < modulus(),
        t3 == fadd(fadd(x, x), x),
        num == fmul(t3, x),
    ensures
        num == fmul(3, fmul(x, x)),
{
    let m = modulus();
    lemma_small_mod(x as nat, m as nat);
    lemma_add_mod_noop(x + x, x, m);
    assert(t3 == (3 * x) % m);
    lemma_mul_mod_noop_left(3 * x, x, m);
    assert(num == (3 * x * x) % m);
    lemma_mul_is_associative(3, x, x);
    lemma_mul_mod_noop_right(3, x * x, m);
}

/// The group sum is unique: the addition law relates a pair of operands to
/// at most one result, so a batched addition and a naive pointwise addition
/// of the same operands agree exactly.
pub proof fn lemma_sum_unique(a: AffinePoint, b: AffinePoint, r1: AffinePoint, r2: AffinePoint)
    requires
        is_sum(a, b, r1),
        is_sum(a, b, r2),
    ensures
        r1 == r2,
{
    if a is Identity {
    } else if b is Identity {
    } else if a.xv() == b.xv() && fadd(a.yv(), b.yv()) == 0 {
    } else {
        let den = slope_den(a, b);
        let num = slope_num(a, b);
        let (lam1, w1): (int, int) = choose|lam: int, w: int|
            #![trigger fmul(lam, slope_den(a, b)), fmul(slope_den(a, b), w)]
            {
                &&& 0 <= lam < modulus()
                &&& 0 <= w < modulus()
                &&& fmul(lam, slope_den(a, b)) == slope_num(a, b)
                &&& fmul(slope_den(a, b), w) == 1
                &&& r1.xv() == fsub(fsub(fmul(lam, lam), a.xv()), b.xv())
                &&& r1.yv() == fsub(fmul(lam, fsub(a.xv(), r1.xv())), a.yv())
            };
        let (lam2, w2): (int, int) = choose|lam: int, w: int|
            #![trigger fmul(lam, slope_den(a, b)), fmul(slope_den(a, b), w)]
            {
                &&& 0 <= lam < modulus()
                &&& 0 <= w < modulus()
                &&& fmul(lam, slope_den(a, b)) == slope_num(a, b)
                &&& fmul(slope_den(a, b), w) == 1
                &&& r2.xv() == fsub(fsub(fmul(lam, lam), a.xv()), b.xv())
                &&& r2.yv() == fsub(fmul(lam, fsub(a.xv(), r2.xv())), a.yv())
            };
        lemma_fmul_one(lam1);
        lemma_fmul_assoc(lam1, den, w1);
        assert(lam1 == fmul(num, w1));
        lemma_fmul_one(lam2);
        lemma_fmul_assoc(lam2, den, w1);
        assert(lam2 == fmul(num, w1));
        assert(r1.xv() == r2.xv() && r1.yv() == r2.yv());
        lemma_fe_val_injective(r1.x_fe(), r2.x_fe());
        lemma_fe_val_injective(r1.y_fe(), r2.y_fe());
        assert(r1 == (AffinePoint::Affine { x: r1.x_fe(), y: r1.y_fe() }));
        assert(r2 == (AffinePoint::Affine { x: r2.x_fe(), y: r2.y_fe() }));
    }
}

/// Tree-reduction equivalence: reducing four operands pairwise and then
/// summing the two partial sums gives the same point whichever calls staged
/// the intermediates, since each stage's result is unique.
pub proof fn lemma_tree_reduction(
    a: AffinePoint,
    b: AffinePoint,
    c: AffinePoint,
    d: AffinePoint,
    s1: AffinePoint,
    s2: AffinePoint,
    t1: AffinePoint,
    u1: AffinePoint,
    u2: AffinePoint,
    t2: AffinePoint,
)
    requires
        is_sum(a, b, s1),
        is_sum(c, d, s2),
        is_sum(s1, s2, t1),
        is_sum(a, b, u1),
        is_sum(c, d, u2),
        is_sum(u1, u2, t2),
    ensures
        t1 == t2,
{
    lemma_sum_unique(a, b, s1, u1);
    lemma_sum_unique(c, d, s2, u2);
    lemma_sum_unique(s1, s2, t1, t2);
}

} // verus!
