//! Batched affine point addition: many pairwise additions share a single
//! field inversion (Montgomery's trick). A forward pass accumulates the
//! running product of all slope denominators, the product is inverted once,
//! and a backward pass recovers each individual inverse and writes each sum
//! to its output slot.

use vstd::prelude::*;
use crate::field::Fe;
use crate::field::fmul;
use crate::field::invertible;
use crate::field::prod_mod;
use crate::field::lemma_fmul_assoc;
use crate::field::modulus;
use crate::point::AffinePoint;
use crate::point::needs_slope;
use crate::point::slope_den;
use crate::point::slope_num;
use crate::point::is_sum;
use crate::point::slope_parts;
use crate::point::slope_combine;
use crate::point::lemma_zero_not_invertible;
use vstd::pervasive::unreached;

verus! {

/// The operand a batched addition reads at slot `k`: when gathering, the
/// base point selected by `positions[k]`; otherwise whatever was already
/// staged in the working buffer.
pub open spec fn staged_at<P>(
    p0: Seq<P>,
    bases: Seq<P>,
    positions: Seq<u32>,
    np: int,
    load: bool,
    k: int,
) -> P {
    if load && 0 <= k < np {
        bases[positions[k] as int]
    } else {
        p0[k]
    }
}

/// The whole working buffer as the batched addition sees it after gathering.
pub open spec fn staged_seq<P>(
    p0: Seq<P>,
    bases: Seq<P>,
    positions: Seq<u32>,
    np: int,
    load: bool,
) -> Seq<P> {
    Seq::new(p0.len(), |k: int| staged_at(p0, bases, positions, np, load, k))
}

/// The slope denominators of the batch, in pair order, for the pairs that
/// need the slope formula.
pub open spec fn batch_dens(staged: Seq<AffinePoint>, pairs: int) -> Seq<int>
    decreases pairs,
{
    if pairs <= 0 {
        Seq::empty()
    } else {
        let s = batch_dens(staged, pairs - 1);
        if needs_slope(staged[2 * (pairs - 1)], staged[2 * (pairs - 1) + 1]) {
            s.push(slope_den(staged[2 * (pairs - 1)], staged[2 * (pairs - 1) + 1]))
        } else {
            s
        }
    }
}

/// Slot `k` is one of the designated output slots of this invocation.
pub open spec fn is_output_slot(outs: Seq<u32>, offset: int, pairs: int, k: int) -> bool {
    exists|i: int| 0 <= i < pairs && (#[trigger] outs[offset + i]) as int == k
}

/// An affine curve point type with a batched pairwise adder that shares one
/// field inversion across the whole batch, and a raw coordinate accessor.
pub trait CurveAffineExt: Sized + Copy {
    /// The coordinate (base field) type.
    type Base;

    /// The coordinates are canonical (fully reduced).
    spec fn canon(self) -> bool;

    /// The point is the distinguished identity.
    spec fn ident(self) -> bool;

    /// The raw affine coordinates, with no on-curve check.
    spec fn coords(self) -> (Self::Base, Self::Base);

    /// `r` is the group sum of `a` and `b`.
    spec fn sum_spec(a: Self, b: Self, r: Self) -> bool;

    /// The product of the batch's slope denominators is invertible. For
    /// canonical on-curve operands this always holds: every denominator the
    /// complete law keeps is nonzero, and the field has no zero divisors.
    spec fn dens_invertible(staged: Seq<Self>, pairs: int) -> bool;

    /// The pair is within range of the incomplete (generic-only) formula:
    /// no identity operand, no doubling, no mutual inverses.
    spec fn generic_pair(a: Self, b: Self) -> bool;

    /// Add `num_points / 2` pairs of points. The operands are consecutive
    /// staged slots `(2i, 2i+1)` of `points`; when `LOAD_POINTS` they are
    /// first gathered there from `bases` at `base_positions[0..num_points]`.
    /// The sum of pair `i` is written to slot `output_indices[offset + i]`;
    /// every other slot keeps its staged value. `COMPLETE` selects the
    /// exception-free law; without it the caller guarantees every pair is
    /// generic. The whole batch performs one field inversion; in the
    /// degenerate case where the denominator product has no inverse (never,
    /// for canonical on-curve operands) the buffer is left fully staged and
    /// no sums are written.
    fn batch_add<const COMPLETE: bool, const LOAD_POINTS: bool>(
        points: &mut Vec<Self>,
        output_indices: &Vec<u32>,
        num_points: usize,
        offset: usize,
        bases: &Vec<Self>,
        base_positions: &Vec<u32>,
    )
        requires
            num_points % 2 == 0,
            offset + num_points / 2 <= output_indices@.len(),
            num_points <= old(points)@.len(),
            forall|k: int| 0 <= k < old(points)@.len() ==> (#[trigger] old(points)@[k]).canon(),
            forall|k: int| 0 <= k < bases@.len() ==> (#[trigger] bases@[k]).canon(),
            LOAD_POINTS ==> num_points <= base_positions@.len(),
            LOAD_POINTS ==> forall|j: int|
                0 <= j < num_points ==> ((#[trigger] base_positions@[j]) as int) < bases@.len(),
            forall|i: int|
                0 <= i < num_points / 2 ==> ((#[trigger] output_indices@[offset + i]) as int)
                    < old(points)@.len(),
            forall|i: int, j: int|
                0 <= i < j < num_points / 2 ==> (#[trigger] output_indices@[offset + i])
                    != (#[trigger] output_indices@[offset + j]),
            !COMPLETE ==> forall|i: int|
                0 <= i < num_points / 2 ==> #[trigger] Self::generic_pair(
                    staged_seq(
                        old(points)@,
                        bases@,
                        base_positions@,
                        num_points as int,
                        LOAD_POINTS,
                    )[2 * i],
                    staged_seq(
                        old(points)@,
                        bases@,
                        base_positions@,
                        num_points as int,
                        LOAD_POINTS,
                    )[2 * i + 1],
                ),
        ensures
            final(points)@.len() == old(points)@.len(),
            forall|k: int| 0 <= k < final(points)@.len() ==> (#[trigger] final(points)@[k]).canon(),
            forall|k: int|
                0 <= k < final(points)@.len() && !is_output_slot(
                    output_indices@,
                    offset as int,
                    num_points as int / 2,
                    k,
                ) ==> (#[trigger] final(points)@[k]) == staged_seq(
                    old(points)@,
                    bases@,
                    base_positions@,
                    num_points as int,
                    LOAD_POINTS,
                )[k],
            Self::dens_invertible(
                staged_seq(old(points)@, bases@, base_positions@, num_points as int, LOAD_POINTS),
                num_points as int / 2,
            ) ==> forall|i: int|
                0 <= i < num_points as int / 2 ==> #[trigger] Self::sum_spec(
                    staged_seq(
                        old(points)@,
                        bases@,
                        base_positions@,
                        num_points as int,
                        LOAD_POINTS,
                    )[2 * i],
                    staged_seq(
                        old(points)@,
                        bases@,
                        base_positions@,
                        num_points as int,
                        LOAD_POINTS,
                    )[2 * i + 1],
                    final(points)@[output_indices@[offset + i] as int],
                ),
            !Self::dens_invertible(
                staged_seq(old(points)@, bases@, base_positions@, num_points as int, LOAD_POINTS),
                num_points as int / 2,
            ) ==> final(points)@ == staged_seq(
                old(points)@,
                bases@,
                base_positions@,
                num_points as int,
                LOAD_POINTS,
            ),
    ;

    /// The raw affine coordinates, without an on-curve membership check.
    fn into_coordinates(self) -> (r: (Self::Base, Self::Base))
        requires
            !self.ident(),
            self.canon(),
        ensures
            r == self.coords(),
    ;
}

/// The per-pair plan the forward pass leaves for the backward pass: either a
/// sum already known without any inversion, or the slope ingredients
/// together with the running product (`prefix`) of all earlier denominators.
#[derive(Clone, Copy)]
pub(crate) enum Plan {
    Ready { result: AffinePoint },
    Slope { x1: Fe, y1: Fe, x2: Fe, num: Fe, den: Fe, prefix: Fe, k: Ghost<int> },
}

/// The plan for a pair is faithful to the staged operands `a`, `b` and to
/// the denominator sequence `dens` (its own denominator sits at index
/// `kexp`, and `prefix` is the product of all earlier ones).
pub(crate) open spec fn plan_ok(
    pl: Plan,
    a: AffinePoint,
    b: AffinePoint,
    dens: Seq<int>,
    kexp: int,
) -> bool {
    match pl {
        Plan::Ready { result } => {
            &&& !needs_slope(a, b)
            &&& result.wf()
            &&& is_sum(a, b, result)
        },
        Plan::Slope { x1, y1, x2, num, den, prefix, k } => {
            &&& needs_slope(a, b)
            &&& a == (AffinePoint::Affine { x: x1, y: y1 })
            &&& b is Affine
            &&& b.x_fe() == x2
            &&& x1.wf() && y1.wf() && x2.wf()
            &&& num.wf() && num.val() == slope_num(a, b)
            &&& den.wf() && den.val() == slope_den(a, b)
            &&& prefix.wf()
            &&& k@ == kexp
            &&& 0 <= k@ < dens.len()
            &&& dens[k@] == den.val()
            &&& prefix.val() == prod_mod(dens.take(k@))
        },
    }
}

/// How many pairs of the prefix carry a slope plan.
pub(crate) open spec fn slope_count(plans: Seq<Plan>) -> int
    decreases plans.len(),
{
    if plans.len() == 0 {
        0
    } else {
        slope_count(plans.drop_last()) + if plans.last() is Slope {
            1int
        } else {
            0int
        }
    }
}

proof fn lemma_prod_push(s: Seq<int>, d: int)
    ensures
        prod_mod(s.push(d)) == fmul(prod_mod(s), d),
{
    assert(s.push(d).drop_last() =~= s);
}

proof fn lemma_prod_take_step(s: Seq<int>, k: int)
    requires
        0 <= k < s.len(),
    ensures
        prod_mod(s.take(k + 1)) == fmul(prod_mod(s.take(k)), s[k]),
{
    assert(s.take(k + 1).drop_last() =~= s.take(k));
    assert(s.take(k + 1).last() == s[k]);
}

proof fn lemma_slope_count_push(s: Seq<Plan>, p: Plan)
    ensures
        slope_count(s.push(p)) == slope_count(s) + if p is Slope {
            1int
        } else {
            0int
        },
{
    assert(s.push(p).drop_last() =~= s);
}

proof fn lemma_plan_ok_extend(
    pl: Plan,
    a: AffinePoint,
    b: AffinePoint,
    dens: Seq<int>,
    d: int,
    kexp: int,
)
    requires
        plan_ok(pl, a, b, dens, kexp),
    ensures
        plan_ok(pl, a, b, dens.push(d), kexp),
{
    match pl {
        Plan::Slope { k, .. } => {
            assert(dens.push(d).take(k@) =~= dens.take(k@));
        },
        _ => {},
    }
}

/// Every factor of an invertible reduced product is itself invertible.
proof fn lemma_factor_invertible(s: Seq<int>, k: int, w: int)
    requires
        0 <= k < s.len(),
        0 <= w < modulus(),
        fmul(prod_mod(s), w) == 1,
    ensures
        invertible(s[k]),
    decreases s.len(),
{
    let pd = prod_mod(s.drop_last());
    let sl = s.last();
    if k == s.len() - 1 {
        lemma_fmul_assoc(sl, pd, w);
        assert(fmul(sl, fmul(pd, w)) == 1);
    } else {
        lemma_fmul_assoc(pd, sl, w);
        lemma_factor_invertible(s.drop_last(), k, fmul(sl, w));
        assert(s.drop_last()[k] == s[k]);
    }
}

/// A pair that needs the slope formula contributes its denominator to the
/// batch's denominator sequence.
proof fn lemma_batch_dens_has_pair(staged: Seq<AffinePoint>, pairs: int, i: int)
    requires
        0 <= i < pairs,
        needs_slope(staged[2 * i], staged[2 * i + 1]),
    ensures
        exists|k: int|
            0 <= k < batch_dens(staged, pairs).len() && #[trigger] batch_dens(staged, pairs)[k]
                == slope_den(staged[2 * i], staged[2 * i + 1]),
    decreases pairs,
{
    let s0 = batch_dens(staged, pairs - 1);
    let d = slope_den(staged[2 * i], staged[2 * i + 1]);
    if i == pairs - 1 {
        assert(batch_dens(staged, pairs)[s0.len() as int] == d);
    } else {
        lemma_batch_dens_has_pair(staged, pairs - 1, i);
        let k = choose|k: int| 0 <= k < s0.len() && #[trigger] s0[k] == d;
        assert(batch_dens(staged, pairs)[k] == d);
    }
}

/// When the batch's denominator product is invertible, every individual
/// slope denominator is invertible as well: every pair the batched adder
/// sums, a naive single-pair addition of the same staged operands sums
/// identically (the sum relation then holds of both results, and sums are
/// unique).
pub proof fn lemma_pair_den_invertible(staged: Seq<AffinePoint>, pairs: int, i: int)
    requires
        invertible(prod_mod(batch_dens(staged, pairs))),
        0 <= i < pairs,
        needs_slope(staged[2 * i], staged[2 * i + 1]),
    ensures
        invertible(slope_den(staged[2 * i], staged[2 * i + 1])),
{
    lemma_batch_dens_has_pair(staged, pairs, i);
    let s = batch_dens(staged, pairs);
    let d = slope_den(staged[2 * i], staged[2 * i + 1]);
    let k = choose|k: int| 0 <= k < s.len() && #[trigger] s[k] == d;
    let w = choose|w: int| 0 <= w < modulus() && #[trigger] fmul(prod_mod(s), w) == 1;
    lemma_factor_invertible(s, k, w);
}

/// Build the slope plan of one pair and fold its denominator into the
/// running product.
fn push_slope(
    Ghost(a): Ghost<AffinePoint>,
    Ghost(b): Ghost<AffinePoint>,
    x1: Fe,
    y1: Fe,
    x2: Fe,
    y2: Fe,
    acc: Fe,
    Ghost(dens): Ghost<Seq<int>>,
) -> (r: (Plan, Fe))
    requires
        needs_slope(a, b),
        a == (AffinePoint::Affine { x: x1, y: y1 }),
        b == (AffinePoint::Affine { x: x2, y: y2 }),
        x1.wf(),
        y1.wf(),
        x2.wf(),
        y2.wf(),
        acc.wf(),
        acc.val() == prod_mod(dens),
    ensures
        r.1.wf(),
        r.1.val() == prod_mod(dens.push(slope_den(a, b))),
        plan_ok(r.0, a, b, dens.push(slope_den(a, b)), dens.len() as int),
{
    let (den, num) = slope_parts(Ghost(a), Ghost(b), &x1, &y1, &x2, &y2);
    let acc2 = acc.mul_fe(&den);
    let plan = Plan::Slope { x1, y1, x2, num, den, prefix: acc, k: Ghost(dens.len() as int) };
    proof {
        lemma_prod_push(dens, den.val());
        assert(dens.push(den.val()).take(dens.len() as int) =~= dens);
    }
    (plan, acc2)
}

impl CurveAffineExt for AffinePoint {
    type Base = Fe;

    open spec fn canon(self) -> bool {
        self.wf()
    }

    open spec fn ident(self) -> bool {
        self is Identity
    }

    open spec fn coords(self) -> (Fe, Fe) {
        (self.x_fe(), self.y_fe())
    }

    open spec fn sum_spec(a: Self, b: Self, r: Self) -> bool {
        is_sum(a, b, r)
    }

    open spec fn dens_invertible(staged: Seq<Self>, pairs: int) -> bool {
        invertible(prod_mod(batch_dens(staged, pairs)))
    }

    open spec fn generic_pair(a: Self, b: Self) -> bool {
        !(a is Identity) && !(b is Identity) && a.xv() != b.xv()
    }

    #[verifier::rlimit(100)]
    fn batch_add<const COMPLETE: bool, const LOAD_POINTS: bool>(
        points: &mut Vec<AffinePoint>,
        output_indices: &Vec<u32>,
        num_points: usize,
        offset: usize,
        bases: &Vec<AffinePoint>,
        base_positions: &Vec<u32>,
    ) {
        let ghost staged = staged_seq(
            old(points)@,
            bases@,
            base_positions@,
            num_points as int,
            LOAD_POINTS,
        );
        proof {
            assert forall|k: int| 0 <= k < staged.len() implies (#[trigger] staged[k]).wf() by {
                assert(staged[k] == staged_at(
                    old(points)@,
                    bases@,
                    base_positions@,
                    num_points as int,
                    LOAD_POINTS,
                    k,
                ));
            }
        }
        let n = num_points / 2;

        // Gather pass: stage the operands from the base buffer.
        if LOAD_POINTS {
            let mut j: usize = 0;
            while j < num_points
                invariant
                    j <= num_points,
                    num_points <= points@.len(),
                    points@.len() == old(points)@.len(),
                    num_points <= base_positions@.len(),
                    forall|t: int|
                        0 <= t < num_points ==> ((#[trigger] base_positions@[t]) as int)
                            < bases@.len(),
                    staged == staged_seq(
                        old(points)@,
                        bases@,
                        base_positions@,
                        num_points as int,
                        true,
                    ),
                    forall|k: int| 0 <= k < j ==> (#[trigger] points@[k]) == staged[k],
                    forall|k: int|
                        j <= k < points@.len() ==> (#[trigger] points@[k]) == old(points)@[k],
                decreases num_points - j,
            {
                let pos = base_positions[j] as usize;
                let p = bases[pos];
                points.set(j, p);
                j += 1;
            }
        }
        proof {
            assert(points@ =~= staged);
        }

        // Forward pass: classify every pair, record its plan, and accumulate
        // the running product of the slope denominators.
        let mut plans: Vec<Plan> = Vec::new();
        let mut acc: Fe = Fe::one();
        let ghost mut dens: Seq<int> = Seq::empty();
        let mut i: usize = 0;
        while i < n
            invariant
                i <= n,
                n == num_points / 2,
                num_points % 2 == 0,
                num_points <= points@.len(),
                points@ == staged,
                forall|k: int| 0 <= k < staged.len() ==> (#[trigger] staged[k]).wf(),
                !COMPLETE ==> forall|t: int|
                    0 <= t < n ==> #[trigger] Self::generic_pair(staged[2 * t], staged[2 * t + 1]),
                plans@.len() == i as int,
                dens == batch_dens(staged, i as int),
                slope_count(plans@) == dens.len(),
                acc.wf(),
                acc.val() == prod_mod(dens),
                forall|t: int|
                    0 <= t < i ==> plan_ok(
                        #[trigger] plans@[t],
                        staged[2 * t],
                        staged[2 * t + 1],
                        dens,
                        slope_count(plans@.take(t)),
                    ),
            decreases n - i,
        {
            let a = points[2 * i];
            let b = points[2 * i + 1];
            let ghost dens0 = dens;
            let ghost plans0 = plans@;
            let plan: Plan;
            if COMPLETE && a.is_identity() {
                plan = Plan::Ready { result: b };
            } else if COMPLETE && b.is_identity() {
                plan = Plan::Ready { result: a };
            } else {
                proof {
                    if !COMPLETE {
                        assert(Self::generic_pair(staged[2 * i as int], staged[2 * i as int + 1]));
                    }
                    assert(!(a is Identity));
                    assert(!(b is Identity));
                }
                let (x1, y1) = match a {
                    AffinePoint::Affine { x, y } => (x, y),
                    AffinePoint::Identity => unreached(),
                };
                let (x2, y2) = match b {
                    AffinePoint::Affine { x, y } => (x, y),
                    AffinePoint::Identity => unreached(),
                };
                if COMPLETE && x1.eq_fe(&x2) && y1.add_fe(&y2).is_zero() {
                    plan = Plan::Ready { result: AffinePoint::Identity };
                } else {
                    proof {
                        assert(needs_slope(a, b));
                    }
                    let (pl, acc2) = push_slope(
                        Ghost(a),
                        Ghost(b),
                        x1,
                        y1,
                        x2,
                        y2,
                        acc,
                        Ghost(dens),
                    );
                    plan = pl;
                    acc = acc2;
                    proof {
                        dens = dens.push(slope_den(a, b));
                        assert forall|t: int|
                            0 <= t < i implies plan_ok(
                            #[trigger] plans0[t],
                            staged[2 * t],
                            staged[2 * t + 1],
                            dens,
                            slope_count(plans0.take(t)),
                        ) by {
                            lemma_plan_ok_extend(
                                plans0[t],
                                staged[2 * t],
                                staged[2 * t + 1],
                                dens0,
                                slope_den(a, b),
                                slope_count(plans0.take(t)),
                            );
                        }
                    }
                }
            }
            plans.push(plan);
            i += 1;
            proof {
                lemma_slope_count_push(plans0, plan);
                assert(plans@.drop_last() =~= plans0);
                assert(plans@.take(i as int - 1) =~= plans0);
                assert forall|t: int|
                    0 <= t < i implies plan_ok(
                    #[trigger] plans@[t],
                    staged[2 * t],
                    staged[2 * t + 1],
                    dens,
                    slope_count(plans@.take(t)),
                ) by {
                    if t < i - 1 {
                        assert(plans@.take(t) =~= plans0.take(t));
                        assert(plans@[t] == plans0[t]);
                    } else {
                        assert(plans@[t] == plan);
                        assert(slope_count(plans@.take(t)) == slope_count(plans0));
                    }
                }
            }
        }
        proof {
            assert(dens == batch_dens(staged, n as int));
        }

        // One shared inversion of the whole denominator product.
        let inv_opt = acc.invert_fe();
        match inv_opt {
            None => {
                proof {
                    lemma_zero_not_invertible();
                    assert(!Self::dens_invertible(staged, num_points as int / 2));
                    assert(points@ == staged);
                }
            },
            Some(inv_all) => {
                // Backward pass: peel the running product pair by pair,
                // recover each denominator's inverse, and write each sum.
                let mut running = inv_all;
                let out_len = output_indices.len();
                let ghost mut rcnt: int = dens.len() as int;
                proof {
                    assert(plans@.take(n as int) =~= plans@);
                    assert(dens.take(rcnt) =~= dens);
                    assert(fmul(running.val(), prod_mod(dens.take(rcnt))) == 1);
                }
                let mut ii: usize = n;
                while ii > 0
                    invariant
                        ii <= n,
                        n == num_points / 2,
                        num_points % 2 == 0,
                        num_points <= staged.len(),
                        points@.len() == staged.len(),
                        staged.len() == old(points)@.len(),
                        plans@.len() == n as int,
                        out_len == output_indices@.len(),
                        offset + n <= out_len,
                        forall|k: int| 0 <= k < staged.len() ==> (#[trigger] staged[k]).wf(),
                        forall|t: int|
                            0 <= t < n ==> ((#[trigger] output_indices@[offset + t]) as int)
                                < staged.len(),
                        forall|t1: int, t2: int|
                            0 <= t1 < t2 < n ==> (#[trigger] output_indices@[offset + t1])
                                != (#[trigger] output_indices@[offset + t2]),
                        forall|t: int|
                            0 <= t < n ==> plan_ok(
                                #[trigger] plans@[t],
                                staged[2 * t],
                                staged[2 * t + 1],
                                dens,
                                slope_count(plans@.take(t)),
                            ),
                        running.wf(),
                        rcnt == slope_count(plans@.take(ii as int)),
                        fmul(running.val(), prod_mod(dens.take(rcnt))) == 1,
                        forall|t: int|
                            ii <= t < n ==> is_sum(
                                staged[2 * t],
                                staged[2 * t + 1],
                                points@[(#[trigger] output_indices@[offset + t]) as int],
                            ),
                        forall|k: int|
                            0 <= k < points@.len() && !(exists|t: int|
                                ii <= t < n && ((#[trigger] output_indices@[offset + t]) as int)
                                    == k) ==> (#[trigger] points@[k]) == staged[k],
                        forall|k: int| 0 <= k < points@.len() ==> (#[trigger] points@[k]).wf(),
                    decreases ii,
                {
                    ii -= 1;
                    let out_idx = output_indices[offset + ii] as usize;
                    let plan = plans[ii];
                    proof {
                        assert(plans@.take(ii as int + 1).drop_last() =~= plans@.take(ii as int));
                        assert(plans@.take(ii as int + 1).last() == plans@[ii as int]);
                    }
                    match plan {
                        Plan::Ready { result } => {
                            points.set(out_idx, result);
                        },
                        Plan::Slope { x1, y1, x2, num, den, prefix, k } => {
                            let invd = running.mul_fe(&prefix);
                            let ghost r0 = running.val();
                            running = running.mul_fe(&den);
                            proof {
                                lemma_prod_take_step(dens, k@);
                                let ptk = prod_mod(dens.take(k@));
                                lemma_fmul_assoc(r0, ptk, dens[k@]);
                                assert(fmul(invd.val(), den.val()) == 1);
                                lemma_fmul_assoc(r0, dens[k@], ptk);
                                assert(fmul(running.val(), prod_mod(dens.take(k@))) == 1);
                                rcnt = k@;
                            }
                            let r = slope_combine(
                                Ghost(staged[2 * ii as int]),
                                Ghost(staged[2 * ii as int + 1]),
                                &x1,
                                &y1,
                                &x2,
                                &num,
                                &invd,
                            );
                            points.set(out_idx, r);
                        },
                    }
                }
                proof {
                    assert(fmul(prod_mod(batch_dens(staged, num_points as int / 2)), inv_all.val())
                        == 1);
                }
            },
        }
    }

    fn into_coordinates(self) -> (r: (Fe, Fe)) {
        match self {
            AffinePoint::Affine { x, y } => (x, y),
            AffinePoint::Identity => unreached(),
        }
    }
}

} // verus!
