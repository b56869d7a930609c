use curve_batch::limb::adc;
use curve_batch::limb::mac;
use curve_batch::limb::sbb;

#[test]
fn u64_and_test() {
    assert_eq!(0 & 0, 0);
    assert_eq!(0 & 1, 0);
    assert_eq!(1 & 0, 0);
    assert_eq!(1 & 1, 1);
    assert_eq!(u64::MAX & 0, 0);
    assert_eq!(u64::MAX & 1, 1);
    assert_eq!(u64::MAX & u64::MAX, u64::MAX);
}

#[test]
fn test_abc() {
    assert_eq!(adc(0, 0, 0), (0, 0));
    assert_eq!(adc(0, 0, 1), (1, 0));
    assert_eq!(adc(0, 1, 0), (1, 0));
    assert_eq!(adc(0, 1, 1), (2, 0));
    assert_eq!(adc(1, 0, 0), (1, 0));
    assert_eq!(adc(1, 0, 1), (2, 0));
    assert_eq!(adc(1, 1, 0), (2, 0));
    assert_eq!(adc(1, 1, 1), (3, 0));
    assert_eq!(adc(u64::MAX, 0, 0), (u64::MAX, 0));
    assert_eq!(adc(u64::MAX, 0, 1), (0, 1));
    assert_eq!(adc(u64::MAX, 1, 0), (0, 1));
    assert_eq!(adc(u64::MAX, 1, 1), (1, 1));
    assert_eq!(adc(u64::MAX, u64::MAX, 0), (u64::MAX - 1, 1));
    assert_eq!(adc(u64::MAX, u64::MAX, 1), (u64::MAX, 1));
    assert_eq!(adc(u64::MAX, u64::MAX, 2), (0, 2));
}

#[test]
fn test_mac() {
    assert_eq!(mac(0, 0, 0, 0), (0, 0));
    assert_eq!(mac(0, 0, 0, 1), (1, 0));
    assert_eq!(mac(0, 0, 1, 0), (0, 0));
    assert_eq!(mac(0, 0, 1, 1), (1, 0));
    assert_eq!(mac(0, 1, 0, 0), (0, 0));
    assert_eq!(mac(u64::MAX, 0, 0, 0), (u64::MAX, 0));
    assert_eq!(mac(u64::MAX, u64::MAX, u64::MAX, 0), (0, u64::MAX));
    assert_eq!(
        mac(u64::MAX, u64::MAX, u64::MAX, u64::MAX),
        (u64::MAX, u64::MAX)
    );
}

#[test]
fn test_wrapping_sub() {
    assert_eq!(0u128.wrapping_sub(1), u128::MAX);
    assert_eq!(0u128.wrapping_sub(2), u128::MAX - 1);
    assert_eq!(1u128.wrapping_sub(1), 0);
    assert_eq!(2u128.wrapping_sub(1), 1);

    println!("u128::MAX = {}", u128::MAX);

    assert_eq!(u128::MAX as u64, u64::MAX);
    assert_eq!(((u64::MAX as u128) + 1) as u64, 0);
    assert_eq!(((u64::MAX as u128) + 2) as u64, 1);
    assert_eq!(((u64::MAX as u128) + 3) as u64, 2);
}

#[test]
fn test_wrapping_mul() {
    assert_eq!(0u128.wrapping_mul(0), 0);
    assert_eq!(0u128.wrapping_mul(1), 0);
    assert_eq!(u64::MAX.wrapping_mul(1), u64::MAX);
    assert_eq!(u64::MAX.wrapping_mul(2), u64::MAX - 1);
    assert_eq!(u64::MAX.wrapping_mul(3), u64::MAX - 2);
    assert_eq!((u64::MAX - 1).wrapping_mul(2), u64::MAX - 3);
    assert_eq!((u64::MAX - 2).wrapping_mul(2), u64::MAX - 5);
}

#[test]
fn test_sbb() {
    assert_eq!(sbb(0, 0, 0), (0, 0));
    assert_eq!(sbb(0, 0, 1), (u64::MAX, 1));
    assert_eq!(sbb(0, 1, 0), (u64::MAX, 1));
    assert_eq!(sbb(0, 1, 1), (u64::MAX - 1, 1));
    assert_eq!(sbb(1, 0, 0), (1, 0));
    assert_eq!(sbb(1, 0, 1), (0, 0));
    assert_eq!(sbb(1, 1, 0), (0, 0));
    assert_eq!(sbb(1, 1, 1), (u64::MAX, 1));
}

#[test]
fn borrow_propagates_across_limbs() {
    // [0, 1] - [1, 0] = 2^64 - 1: the low limb borrows one unit from the high.
    let (lo, borrow) = sbb(0, 1, 0);
    let (hi, borrow) = sbb(1, 0, borrow);
    assert_eq!(lo, u64::MAX);
    assert_eq!(hi, 0);
    assert_eq!(borrow, 0);
    // [0, 0] - [1, 0] = -1: the borrow walks out of the top limb.
    let (lo, borrow) = sbb(0, 1, 0);
    let (hi, borrow) = sbb(0, 0, borrow);
    assert_eq!(lo, u64::MAX);
    assert_eq!(hi, u64::MAX);
    assert_eq!(borrow, 1);
}

#[test]
fn carry_propagates_across_limbs() {
    // [u64::MAX, u64::MAX] + [1, 0] with carry 0 -> [0, 0] with carry 1.
    let (lo, carry) = adc(u64::MAX, 1, 0);
    let (hi, carry) = adc(u64::MAX, 0, carry);
    assert_eq!(lo, 0);
    assert_eq!(hi, 0);
    assert_eq!(carry, 1);
}

#[test]
fn sub_then_add_recovers_operand() {
    let pairs = [
        (0u64, 0u64),
        (5, 3),
        (3, 5),
        (u64::MAX, 1),
        (0, u64::MAX),
        (12345678901234567, 98765432109876543),
    ];
    for (a, b) in pairs {
        let (d, borrow) = sbb(a, b, 0);
        let (s, c) = adc(d, b, 0);
        assert_eq!(s, a);
        assert_eq!(c, borrow);
        assert_eq!(borrow, if a < b { 1 } else { 0 });
    }
}

#[test]
fn mac_splits_the_exact_product() {
    // 2^32 * 2^32 = 2^64: low word 0, high word 1.
    assert_eq!(mac(0, 1 << 32, 1 << 32, 0), (0, 1));
    // Cross-check a mixed case against 128-bit arithmetic.
    let (a, b, c, carry) = (17u64, 0xdeadbeefu64, 0xfeedface12345678u64, 999u64);
    let wide = a as u128 + (b as u128) * (c as u128) + carry as u128;
    assert_eq!(mac(a, b, c, carry), (wide as u64, (wide >> 64) as u64));
}

#[test]
fn adc_is_symmetric() {
    assert_eq!(adc(u64::MAX, 7, 1), adc(7, u64::MAX, 1));
    assert_eq!(adc(0, u64::MAX, 0), adc(u64::MAX, 0, 0));
}
