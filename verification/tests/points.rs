use curve_batch::batch::CurveAffineExt;
use curve_batch::field::Fe;
use curve_batch::point::add_affine;
use curve_batch::point::AffinePoint;

/// The Pallas base-field modulus minus one, as little-endian limbs.
const P_MINUS_1: [u64; 4] = [
    0x992d30ed00000000,
    0x224698fc094cf91b,
    0x0000000000000000,
    0x4000000000000000,
];

/// The Pallas base-field modulus minus two, as little-endian limbs.
const P_MINUS_2: [u64; 4] = [
    0x992d30ecffffffff,
    0x224698fc094cf91b,
    0x0000000000000000,
    0x4000000000000000,
];

/// (-1, 2) lies on the Pallas curve y^2 = x^3 + 5.
fn base_point() -> AffinePoint {
    AffinePoint::from_xy(Fe::from_limbs(P_MINUS_1), Fe::from_u64(2))
}

/// The negation of the base point: (-1, -2).
fn neg_base_point() -> AffinePoint {
    AffinePoint::from_xy(Fe::from_limbs(P_MINUS_1), Fe::from_limbs(P_MINUS_2))
}

fn on_curve(p: &AffinePoint) -> bool {
    let (x, y) = p.into_coordinates();
    let lhs = y.mul_fe(&y);
    let rhs = x.mul_fe(&x).mul_fe(&x).add_fe(&Fe::from_u64(5));
    lhs.eq_fe(&rhs)
}

#[test]
fn field_ops_have_exact_values() {
    let three = Fe::from_u64(3);
    let four = Fe::from_u64(4);
    assert_eq!(three.add_fe(&four), Fe::from_u64(7));
    assert_eq!(Fe::from_u64(10).sub_fe(&three), Fe::from_u64(7));
    assert_eq!(Fe::from_u64(6).mul_fe(&Fe::from_u64(7)), Fe::from_u64(42));
    // Wrap-around subtraction: 0 - 1 = p - 1.
    assert_eq!(Fe::zero().sub_fe(&Fe::one()), Fe::from_limbs(P_MINUS_1));
    // Addition reduces: (p - 1) + 2 = 1.
    assert_eq!(Fe::from_limbs(P_MINUS_1).add_fe(&Fe::from_u64(2)), Fe::one());
}

#[test]
fn field_inversion() {
    assert_eq!(Fe::zero().invert_fe(), None);
    assert_eq!(Fe::one().invert_fe(), Some(Fe::one()));
    let two = Fe::from_u64(2);
    let half = two.invert_fe().expect("2 is invertible");
    assert_eq!(half.mul_fe(&two), Fe::one());
    assert!(!half.eq_fe(&two));
}

#[test]
fn base_point_is_on_curve() {
    assert!(on_curve(&base_point()));
    assert!(on_curve(&neg_base_point()));
}

#[test]
fn single_additions_cover_the_complete_law() {
    let g = base_point();
    let ng = neg_base_point();
    let id = AffinePoint::identity();
    // Identity operands pass the other operand through.
    assert_eq!(add_affine(&id, &g), g);
    assert_eq!(add_affine(&g, &id), g);
    assert_eq!(add_affine(&id, &id), id);
    // Mutual inverses give the identity.
    assert_eq!(add_affine(&g, &ng), id);
    // Doubling gives a new point on the curve.
    let g2 = add_affine(&g, &g);
    assert!(!g2.is_identity());
    assert!(on_curve(&g2));
    assert_ne!(g2, g);
    // A generic addition gives a point on the curve.
    let g3 = add_affine(&g2, &g);
    assert!(on_curve(&g3));
    // (2G) + (-G) = G: adding the inverse walks back.
    assert_eq!(add_affine(&g2, &ng), g);
}

#[test]
fn batch_add_complete_handles_exceptional_pairs() {
    let g = base_point();
    let ng = neg_base_point();
    let id = AffinePoint::identity();
    let g2 = add_affine(&g, &g);
    // Pairs: (G, -G) -> identity; (G, G) -> 2G; (G2, identity) -> G2.
    let mut points = vec![g, ng, g, g, g2, id, id, id];
    let outs: Vec<u32> = vec![5, 6, 7];
    AffinePoint::batch_add::<true, false>(&mut points, &outs, 6, 0, &Vec::new(), &Vec::new());
    assert_eq!(points[5], id);
    assert_eq!(points[6], g2);
    assert_eq!(points[7], g2);
    // Untouched slots keep their values.
    assert_eq!(points[0], g);
    assert_eq!(points[1], ng);
}

#[test]
fn batch_of_inverse_then_identity_pair() {
    // Three points P, -P, Q: the pair (P, -P) yields the identity, and the
    // pair (Q, identity) passes Q through unchanged.
    let p = base_point();
    let np = neg_base_point();
    let q = add_affine(&p, &p);
    let id = AffinePoint::identity();
    let mut points = vec![p, np, q, id];
    let outs: Vec<u32> = vec![0, 1];
    AffinePoint::batch_add::<true, false>(&mut points, &outs, 4, 0, &Vec::new(), &Vec::new());
    assert_eq!(points[0], id);
    assert_eq!(points[1], q);
}

#[test]
fn batch_add_incomplete_matches_naive_addition() {
    let g = base_point();
    let g2 = add_affine(&g, &g);
    let g3 = add_affine(&g2, &g);
    let g4 = add_affine(&g3, &g);
    // Generic pairs only: distinct x, no identities.
    let mut points = vec![g, g2, g3, g4, g, g3];
    let outs: Vec<u32> = vec![1, 3, 5];
    AffinePoint::batch_add::<false, false>(&mut points, &outs, 6, 0, &Vec::new(), &Vec::new());
    assert_eq!(points[1], add_affine(&g, &g2));
    assert_eq!(points[3], add_affine(&g3, &g4));
    assert_eq!(points[5], add_affine(&g, &g3));
    for k in [1usize, 3, 5] {
        assert!(on_curve(&points[k]));
    }
}

#[test]
fn batch_add_respects_offset_and_gathering() {
    let g = base_point();
    let g2 = add_affine(&g, &g);
    let g3 = add_affine(&g2, &g);
    let bases = vec![g, g2, g3];
    // Gather (G3, G) into slots 0 and 1, write the sum to slot 2.
    let mut points = vec![AffinePoint::identity(); 3];
    let outs: Vec<u32> = vec![9, 9, 2];
    let positions: Vec<u32> = vec![2, 0];
    AffinePoint::batch_add::<true, true>(&mut points, &outs, 2, 2, &bases, &positions);
    assert_eq!(points[0], g3);
    assert_eq!(points[1], g);
    assert_eq!(points[2], add_affine(&g3, &g));
}

#[test]
fn chained_rounds_match_a_single_reduction() {
    let g = base_point();
    let g2 = add_affine(&g, &g);
    let g3 = add_affine(&g2, &g);
    let g4 = add_affine(&g3, &g);
    let bases = vec![g, g2, g3, g4];
    // Round 1: gather all four points and add the pairs (G, G2) and (G3, G4),
    // writing the partial sums to slots 0 and 1.
    let mut points = vec![AffinePoint::identity(); 4];
    let outs: Vec<u32> = vec![0, 1, 2];
    let positions: Vec<u32> = vec![0, 1, 2, 3];
    AffinePoint::batch_add::<true, true>(&mut points, &outs, 4, 0, &bases, &positions);
    // Round 2: the partial sums are already staged; add them in place.
    AffinePoint::batch_add::<true, false>(&mut points, &outs, 2, 2, &bases, &positions);
    // The chained result equals the one a single unbatched reduction gives.
    let expected = add_affine(&add_affine(&g, &g2), &add_affine(&g3, &g4));
    assert_eq!(points[2], expected);
    assert!(on_curve(&points[2]));
}

#[test]
fn into_coordinates_returns_raw_coordinates() {
    let g = base_point();
    let (x, y) = g.into_coordinates();
    assert_eq!(x.to_limbs(), P_MINUS_1);
    assert_eq!(y, Fe::from_u64(2));
}
