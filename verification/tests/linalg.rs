use kalman_filter::inverse::{det, invert};
use kalman_filter::matrix::{mat_mul, transpose};
use kalman_filter::Rat;

fn r(n: i128) -> Rat {
    Rat::new(n, 1)
}

fn assert_rat(v: Rat, num: i128, den: i128) {
    assert!(v.den > 0);
    assert_eq!(v.num * den, num * v.den);
}

#[test]
fn determinant_exact() {
    let m = vec![vec![r(1), r(2)], vec![r(3), r(4)]];
    assert_rat(det(&m), -2, 1);

    let m3 = vec![
        vec![r(2), r(0), r(1)],
        vec![r(1), r(3), r(2)],
        vec![r(0), r(1), r(1)],
    ];
    // 2*(3-2) - 0 + 1*(1-0) = 3
    assert_rat(det(&m3), 3, 1);
}

#[test]
fn inverse_exact() {
    let m = vec![vec![r(1), r(2)], vec![r(3), r(4)]];
    let inv = invert(&m).unwrap();
    assert_rat(inv[0][0], -2, 1);
    assert_rat(inv[0][1], 1, 1);
    assert_rat(inv[1][0], 3, 2);
    assert_rat(inv[1][1], -1, 2);

    let singular = vec![vec![r(1), r(2)], vec![r(2), r(4)]];
    assert!(invert(&singular).is_none());
}

#[test]
fn product_and_transpose_exact() {
    let a = vec![vec![r(1), r(2)], vec![r(3), r(4)]];
    let b = vec![vec![r(5), r(6)], vec![r(7), r(8)]];
    let ab = mat_mul(&a, &b, 2, 2, 2);
    assert_rat(ab[0][0], 19, 1);
    assert_rat(ab[0][1], 22, 1);
    assert_rat(ab[1][0], 43, 1);
    assert_rat(ab[1][1], 50, 1);

    let at = transpose(&a, 2, 2);
    assert_rat(at[0][1], 3, 1);
    assert_rat(at[1][0], 2, 1);
}
