use algebra::capability::{
    Addition, Assignable, Constructible, Equality, Multiplication, Negatable, Ordered, Unity, Zero,
};
use algebra::error::AlgebraError;
use algebra::sint4::{wrap_far, wrap_sint4, wrapped_power, SInt4, SInt4Algebra};

fn cell(val: i8) -> SInt4 {
    SInt4 { val }
}

/// The value of `[-8, 7]` that differs from `x` by a multiple of 16.
fn expected_wrap(x: i32) -> i8 {
    ((x + 8).rem_euclid(16) - 8) as i8
}

#[test]
fn add2b_four_and_two_is_six() {
    let alg = SInt4Algebra {};
    let x = cell(4);
    let mut y = cell(2);
    assert_eq!(alg.add2b(&x, &mut y), Ok(()));
    assert_eq!(y.val, 6);
    assert_eq!(x.val, 4);
}

#[test]
fn adding_one_to_seven_wraps_to_minus_eight() {
    let alg = SInt4Algebra {};
    let one = cell(1);
    let mut stored = cell(7);
    assert_eq!(alg.add2b(&one, &mut stored), Ok(()));
    assert_eq!(stored.val, -8);
    assert_ne!(stored.val, 8);
}

#[test]
fn subtracting_one_from_minus_eight_wraps_to_seven() {
    let alg = SInt4Algebra {};
    let one = cell(1);
    let mut stored = cell(-8);
    assert_eq!(alg.subtract2a(&mut stored, &one), Ok(()));
    assert_eq!(stored.val, 7);
}

#[test]
fn wrap_sint4_takes_one_step() {
    for (raw, want) in [(8, -8), (14, -2), (23, 7), (-9, 7), (-16, 0), (-24, -8), (7, 7), (-8, -8), (0, 0)] {
        let mut c = cell(raw);
        wrap_sint4(&mut c);
        assert_eq!(c.val, want, "raw {}", raw);
    }
    let mut far = cell(100);
    wrap_sint4(&mut far);
    assert_eq!(far.val, 84);
}

#[test]
fn wrap_far_reduces_every_i8() {
    for raw in i8::MIN..=i8::MAX {
        assert_eq!(wrap_far(raw), expected_wrap(raw as i32), "raw {}", raw);
    }
    assert_eq!(wrap_far(49), 1);
    assert_eq!(wrap_far(64), 0);
    assert_eq!(wrap_far(-56), -8);
}

#[test]
fn every_sum_and_difference_wraps() {
    let alg = SInt4Algebra {};
    for a in -8i8..=7 {
        for b in -8i8..=7 {
            let sum = expected_wrap(a as i32 + b as i32);
            let diff = expected_wrap(a as i32 - b as i32);

            let mut out = cell(b);
            assert_eq!(alg.add2b(&cell(a), &mut out), Ok(()));
            assert_eq!(out.val, sum);

            let mut out = cell(0);
            assert_eq!(alg.add3c(&cell(a), &cell(b), &mut out), Ok(()));
            assert_eq!(out.val, sum);

            let mut out = cell(a);
            assert_eq!(alg.subtract2a(&mut out, &cell(b)), Ok(()));
            assert_eq!(out.val, diff);

            let mut out = cell(b);
            assert_eq!(alg.subtract2b(&cell(a), &mut out), Ok(()));
            assert_eq!(out.val, diff);

            let mut out = cell(5);
            assert_eq!(alg.subtract3c(&cell(a), &cell(b), &mut out), Ok(()));
            assert_eq!(out.val, diff);
        }
    }
}

#[test]
fn sum_less_first_operand_recovers_second() {
    let alg = SInt4Algebra {};
    for a in -8i8..=7 {
        for b in -8i8..=7 {
            let mut result = alg.ctor_from_ref(&cell(b));
            alg.add2b(&cell(a), &mut result).unwrap();
            alg.subtract2a(&mut result, &cell(a)).unwrap();
            assert_eq!(result, cell(b));
        }
    }
}

#[test]
fn add2b_then_subtract2b_gives_the_negative() {
    let alg = SInt4Algebra {};
    for a in -8i8..=7 {
        for b in -8i8..=7 {
            let mut result = alg.ctor_from_ref(&cell(b));
            alg.add2b(&cell(a), &mut result).unwrap();
            alg.subtract2b(&cell(a), &mut result).unwrap();
            let mut negative = cell(b);
            alg.negate(&mut negative).unwrap();
            assert_eq!(result, negative);
            assert_eq!(result == cell(b), b == 0 || b == -8);
        }
    }
    let mut result = cell(2);
    alg.add2b(&cell(1), &mut result).unwrap();
    alg.subtract2b(&cell(1), &mut result).unwrap();
    assert_eq!(result.val, -2);
}

#[test]
fn negate_twice_is_identity() {
    let alg = SInt4Algebra {};
    for a in -8i8..=7 {
        let mut v = cell(a);
        assert_eq!(alg.negate(&mut v), Ok(()));
        assert_eq!(v.val, expected_wrap(-(a as i32)));
        assert_eq!(alg.negate(&mut v), Ok(()));
        assert!(alg.is_eq(&v, &cell(a)));
    }
}

#[test]
fn negate_minus_eight_stays_minus_eight() {
    let alg = SInt4Algebra {};
    let mut v = cell(-8);
    alg.negate(&mut v).unwrap();
    assert_eq!(v.val, -8);
    let mut out = cell(0);
    alg.negate2b(&cell(3), &mut out).unwrap();
    assert_eq!(out.val, -3);
}

#[test]
fn zero_is_additive_identity() {
    let alg = SInt4Algebra {};
    for a in -8i8..=7 {
        let mut z = cell(5);
        alg.zero(&mut z);
        assert!(alg.is_zero(&z));
        alg.add2b(&cell(a), &mut z).unwrap();
        assert!(alg.is_eq(&z, &cell(a)));
    }
}

#[test]
fn double_equals_add3c_of_itself() {
    let alg = SInt4Algebra {};
    for a in -8i8..=7 {
        let mut doubled = cell(a);
        alg.double(&mut doubled).unwrap();
        let mut added = alg.ctor();
        alg.add3c(&cell(a), &cell(a), &mut added).unwrap();
        assert_eq!(doubled, added);
        assert_eq!(doubled.val, expected_wrap(2 * a as i32));
    }
    let mut five = cell(5);
    alg.double(&mut five).unwrap();
    assert_eq!(five.val, -6);
}

#[test]
fn zero_and_unity_are_recognised() {
    let alg = SInt4Algebra {};
    let mut v = cell(3);
    assert!(!alg.is_zero(&v));
    assert!(!alg.is_unity(&v));
    alg.unity(&mut v);
    assert_eq!(v.val, 1);
    assert!(alg.is_unity(&v));
    alg.zero(&mut v);
    assert_eq!(v.val, 0);
    assert!(alg.is_zero(&v));
    assert!(!alg.is_unity(&v));
}

#[test]
fn equality_and_its_negation() {
    let alg = SInt4Algebra {};
    for a in -8i8..=7 {
        for b in -8i8..=7 {
            assert_eq!(alg.is_eq(&cell(a), &cell(b)), a == b);
            assert_eq!(alg.is_not_eq(&cell(a), &cell(b)), !alg.is_eq(&cell(a), &cell(b)));
        }
    }
}

#[test]
fn order_is_total_and_consistent() {
    let alg = SInt4Algebra {};
    for a in -8i8..=7 {
        for b in -8i8..=7 {
            let (x, y) = (cell(a), cell(b));
            let holds = [alg.is_less(&x, &y), alg.is_eq(&x, &y), alg.is_greater(&x, &y)];
            assert_eq!(holds.iter().filter(|h| **h).count(), 1);
            assert_eq!(alg.is_less(&x, &y), a < b);
            assert_eq!(alg.is_less_eq(&x, &y), alg.is_less(&x, &y) || alg.is_eq(&x, &y));
            assert_eq!(alg.is_greater_eq(&x, &y), alg.is_greater(&x, &y) || alg.is_eq(&x, &y));
        }
    }
}

#[test]
fn assign_and_ctor_from_ref_copy() {
    let alg = SInt4Algebra {};
    let src = cell(-3);
    let mut dst = cell(6);
    alg.assign(&src, &mut dst);
    assert_eq!(dst.val, -3);
    assert_eq!(src.val, -3);
    let mut copy = alg.ctor_from_ref(&src);
    alg.double(&mut copy).unwrap();
    assert_eq!(copy.val, -6);
    assert_eq!(src.val, -3);
    assert_eq!(alg.ctor().val, 0);
}

#[test]
fn products_wrap() {
    let alg = SInt4Algebra {};
    for a in -8i8..=7 {
        for b in -8i8..=7 {
            let want = expected_wrap(a as i32 * b as i32);
            let mut out = cell(a);
            assert_eq!(alg.multiply2a(&mut out, &cell(b)), Ok(()));
            assert_eq!(out.val, want);
            let mut out = cell(b);
            assert_eq!(alg.multiply2b(&cell(a), &mut out), Ok(()));
            assert_eq!(out.val, want);
            let mut out = cell(0);
            assert_eq!(alg.multiply3c(&cell(a), &cell(b), &mut out), Ok(()));
            assert_eq!(out.val, want);
        }
        let mut sq = cell(a);
        assert_eq!(alg.square(&mut sq), Ok(()));
        assert_eq!(sq.val, expected_wrap(a as i32 * a as i32));
    }
    let mut seven = cell(7);
    alg.square(&mut seven).unwrap();
    assert_eq!(seven.val, 1);
}

#[test]
fn powers_wrap() {
    let alg = SInt4Algebra {};
    for a in -8i8..=7 {
        let mut naive: i8 = 1;
        for n in 0..40 {
            let mut out = cell(a);
            assert_eq!(alg.power(n, &mut out), Ok(()));
            assert_eq!(out.val, naive, "{}^{}", a, n);
            assert_eq!(wrapped_power(a, n as u32), naive);
            let mut other = cell(0);
            assert_eq!(alg.power2b(n, &cell(a), &mut other), Ok(()));
            assert_eq!(other.val, naive);
            naive = expected_wrap(naive as i32 * a as i32);
        }
    }
    let mut three = cell(3);
    alg.power(2, &mut three).unwrap();
    assert_eq!(three.val, -7);
    let mut zero = cell(0);
    alg.power(0, &mut zero).unwrap();
    assert_eq!(zero.val, 1);
    let mut big = cell(3);
    alg.power(i32::MAX, &mut big).unwrap();
    assert_eq!(big.val, expected_wrap(27));
}

#[test]
fn negative_exponent_is_a_domain_error() {
    let alg = SInt4Algebra {};
    let mut a = cell(3);
    assert_eq!(alg.power(-1, &mut a), Err(AlgebraError::Domain));
    assert_eq!(a.val, 3);
    let mut b = cell(5);
    assert_eq!(alg.power2b(i32::MIN, &cell(2), &mut b), Err(AlgebraError::Domain));
    assert_eq!(b.val, 5);
}

#[test]
fn accepts_tells_the_domain() {
    let alg = SInt4Algebra {};
    assert!(alg.accepts(&cell(-8)));
    assert!(alg.accepts(&cell(7)));
    assert!(alg.accepts(&cell(0)));
    assert!(!alg.accepts(&cell(8)));
    assert!(!alg.accepts(&cell(-9)));
    assert!(!alg.accepts(&cell(100)));
}
