use neuralnet::{fixed_add, fixed_mul, fixed_sub, leaky_relu, leaky_relu_prime, ONE, TENTH};

#[test]
fn leaky_relu_keeps_non_negative_values() {
    assert_eq!(leaky_relu(0), 0);
    assert_eq!(leaky_relu(ONE), ONE);
    assert_eq!(leaky_relu(3 * ONE / 2), 3 * ONE / 2);
}

#[test]
fn leaky_relu_scales_negative_values_by_a_tenth() {
    assert_eq!(leaky_relu(-ONE), -TENTH);
    assert_eq!(leaky_relu(-5 * ONE), -5 * TENTH);
    // truncation toward zero keeps the result at or above a tenth
    assert_eq!(leaky_relu(-7), 0);
    assert_eq!(leaky_relu(-27), -2);
}

#[test]
fn leaky_relu_never_below_a_tenth() {
    for x in [-1_000_000_007i64, -19, -1, 0, 1, 33, 2 * ONE, i64::MIN, i64::MAX] {
        let r = leaky_relu(x) as i128;
        assert!(10 * r >= x as i128);
    }
}

#[test]
fn leaky_relu_prime_values() {
    assert_eq!(leaky_relu_prime(0), ONE);
    assert_eq!(leaky_relu_prime(ONE), ONE);
    assert_eq!(leaky_relu_prime(-1), TENTH);
    assert_eq!(leaky_relu_prime(-ONE), TENTH);
}

#[test]
fn fixed_arithmetic_values() {
    assert_eq!(fixed_add(ONE, 2 * ONE), 3 * ONE);
    assert_eq!(fixed_sub(ONE, 3 * ONE), -2 * ONE);
    assert_eq!(fixed_mul(3 * ONE / 2, 2 * ONE), 3 * ONE);
    assert_eq!(fixed_mul(-3 * ONE / 2, ONE / 2), -3 * ONE / 4);
    assert_eq!(fixed_mul(3, ONE / 2), 1);
    assert_eq!(fixed_mul(-3, ONE / 2), -1);
}

#[test]
fn fixed_arithmetic_saturates() {
    assert_eq!(fixed_add(i64::MAX, 1), i64::MAX);
    assert_eq!(fixed_sub(i64::MIN, 1), i64::MIN);
    assert_eq!(fixed_mul(i64::MAX, 2 * ONE), i64::MAX);
    assert_eq!(fixed_mul(i64::MAX, -2 * ONE), i64::MIN);
}
