//! Limb-level carry/borrow arithmetic and a batched affine point adder
//! for prime-field elliptic-curve arithmetic.

pub mod batch;
pub mod field;
pub mod limb;
pub mod point;
