use raytracer::colour::Colour;
use raytracer::matrix::cofactor_of_minor;
use raytracer::matrix::Matrix;
use raytracer::scalar::Scalar;
use raytracer::tuple::Tuple;

fn s(x: f64) -> Scalar {
    Scalar::from_bits(x.to_bits())
}

fn f(x: Scalar) -> f64 {
    f64::from_bits(x.to_bits())
}

fn point(x: f64, y: f64, z: f64) -> Tuple {
    Tuple::point(s(x), s(y), s(z))
}

fn vector(x: f64, y: f64, z: f64) -> Tuple {
    Tuple::vector(s(x), s(y), s(z))
}

fn matrix(rows: Vec<Vec<f64>>) -> Matrix {
    Matrix::from_vec(rows.into_iter().map(|r| r.into_iter().map(s).collect()).collect())
}

fn entries(m: &Matrix) -> Vec<Vec<f64>> {
    (0..m.rows()).map(|r| (0..m.cols()).map(|c| f(m.at(r, c))).collect()).collect()
}

fn samples() -> Vec<f64> {
    vec![
        0.0,
        -0.0,
        1.0,
        -1.0,
        0.5,
        -0.5,
        0.9,
        0.99,
        1.01,
        -0.1,
        -1.1,
        2.0,
        -2.5,
        3.0,
        3.0000000000000004,
        2.9999999999999996,
        -3.0,
        -2.9999999999999996,
        1e-310,
        -1e-310,
        5e-324,
        -5e-324,
        f64::MIN_POSITIVE,
        -f64::MIN_POSITIVE,
        f64::EPSILON,
        1234567.75,
        -1234567.75,
        2147483647.5,
        2147483648.0,
        -2147483648.5,
        4503599627370495.5,
        4503599627370496.0,
        4503599627370497.0,
        -4503599627370495.5,
        -4503599627370497.0,
        9007199254740991.0,
        9007199254740992.0,
        9007199254740994.0,
        -9007199254740991.0,
        1e300,
        -1e300,
        f64::MAX,
        f64::MIN,
        f64::INFINITY,
        f64::NEG_INFINITY,
        f64::NAN,
        -f64::NAN,
    ]
}

#[test]
fn comparisons_agree_with_the_hardware() {
    for &a in samples().iter() {
        assert_eq!(s(a).is_nan(), a.is_nan());
        assert_eq!(s(a).is_finite(), a.is_finite());
        assert_eq!(s(a).is_zero(), a == 0.0);
        assert_eq!(s(a).is_non_negative(), a >= 0.0);
        for &b in samples().iter() {
            assert_eq!(s(a).lt(s(b)), a < b, "{} < {}", a, b);
            assert_eq!(s(a).le(s(b)), a <= b, "{} <= {}", a, b);
            assert_eq!(s(a).gt(s(b)), a > b, "{} > {}", a, b);
            assert_eq!(s(a).ge(s(b)), a >= b, "{} >= {}", a, b);
            assert_eq!(s(a) == s(b), a == b, "{} == {}", a, b);
        }
    }
}

#[test]
fn negation_and_absolute_value_agree_with_the_hardware() {
    for &a in samples().iter() {
        assert_eq!(s(a).neg().to_bits(), (-a).to_bits());
        assert_eq!(s(a).abs().to_bits(), a.abs().to_bits());
        assert_eq!(s(a).neg().neg().to_bits(), a.to_bits());
    }
}

#[test]
fn floor_parity_agrees_with_the_hardware() {
    for &a in samples().iter() {
        if a.is_finite() {
            assert_eq!(s(a).floor_is_even(), a.floor() % 2.0 == 0.0, "floor of {}", a);
        }
    }
    let mut x = -40.0;
    while x < 40.0 {
        assert_eq!(s(x).floor_is_even(), x.floor() % 2.0 == 0.0, "floor of {}", x);
        x += 0.125;
    }
}

#[test]
fn floor_parity_of_chosen_values() {
    assert!(s(0.0).floor_is_even());
    assert!(s(0.9).floor_is_even());
    assert!(!s(1.0).floor_is_even());
    assert!(!s(1.5).floor_is_even());
    assert!(s(2.0).floor_is_even());
    assert!(!s(-0.1).floor_is_even());
    assert!(!s(-1.0).floor_is_even());
    assert!(s(-1.1).floor_is_even());
    assert!(s(-0.0).floor_is_even());
    assert!(s(3000000000.0).floor_is_even());
    assert!(!s(3000000001.0).floor_is_even());
}

#[test]
fn constants_are_the_numbers_they_name() {
    assert_eq!(f(Scalar::zero()), 0.0);
    assert!(f(Scalar::zero()).is_sign_positive());
    assert_eq!(f(Scalar::one()), 1.0);
    assert_eq!(raytracer::scalar::SIGN_BIT, (-0.0f64).to_bits());
    assert_eq!(raytracer::scalar::INFINITY_BITS, f64::INFINITY.to_bits());
    assert_eq!(raytracer::scalar::ONE_BITS, 1.0f64.to_bits());
}

#[test]
fn tuple_point_is_point() {
    let tuple = Tuple::new(s(1.0), s(2.0), s(3.0), s(1.0));
    assert_eq!(tuple.is_point(), true);
    assert_eq!(tuple.is_vector(), false);
}

#[test]
fn tuple_vector_is_vector() {
    let tuple = Tuple::new(s(1.0), s(2.0), s(3.0), s(0.0));
    assert_eq!(tuple.is_point(), false);
    assert_eq!(tuple.is_vector(), true);
}

#[test]
fn point_constructor_returns_point() {
    let tuple = point(1.0, 2.0, 3.0);
    assert_eq!(tuple, Tuple::new(s(1.0), s(2.0), s(3.0), s(1.0)));
}

#[test]
fn vector_constructor_returns_vector() {
    let tuple = vector(1.0, 2.0, 3.0);
    assert_eq!(tuple, Tuple::new(s(1.0), s(2.0), s(3.0), s(0.0)));
}

#[test]
fn negate_tuple() {
    let tuple = Tuple::new(s(1.0), s(-2.0), s(3.0), s(-4.0));
    let negated = tuple.neg();
    assert_eq!(negated, Tuple::new(s(-1.0), s(2.0), s(-3.0), s(4.0)));
}

#[test]
fn a_tuple_with_negative_zero_w_is_a_vector() {
    let tuple = Tuple::new(s(1.0), s(2.0), s(3.0), s(-0.0));
    assert!(tuple.is_vector());
    assert!(!tuple.is_point());
    assert!(vector(1.0, 2.0, 3.0).neg().is_vector());
}

#[test]
fn a_tuple_with_a_nan_equals_nothing() {
    let tuple = Tuple::new(s(1.0), s(f64::NAN), s(3.0), s(0.0));
    assert!(tuple != tuple);
    assert!(vector(0.0, 1.0, 2.0) == vector(-0.0, 1.0, 2.0));
}

#[test]
fn black_and_white() {
    let black = Colour::black();
    assert_eq!((f(black.r), f(black.g), f(black.b)), (0.0, 0.0, 0.0));
    assert_eq!(black.r.to_bits(), 0);
    let white = Colour::white();
    assert_eq!((f(white.r), f(white.g), f(white.b)), (1.0, 1.0, 1.0));
    assert_eq!(Colour::new(s(0.0), s(0.0), s(0.0)), black);
    assert_ne!(Colour::new(s(0.0), s(0.5), s(0.0)), black);
}

#[test]
fn constructing_and_inspecting_4x4_matrix() {
    let matrix = matrix(vec![
        vec![1.0, 2.0, 3.0, 4.0],
        vec![5.5, 6.5, 7.5, 8.5],
        vec![9.0, 10.0, 11.0, 12.0],
        vec![13.5, 14.5, 15.5, 16.5],
    ]);

    assert_eq!(f(matrix.at(0, 0)), 1.0);
    assert_eq!(f(matrix.at(0, 3)), 4.0);
    assert_eq!(f(matrix.at(1, 0)), 5.5);
    assert_eq!(f(matrix.at(1, 2)), 7.5);
    assert_eq!(f(matrix.at(2, 2)), 11.0);
    assert_eq!(f(matrix.at(3, 0)), 13.5);
    assert_eq!(f(matrix.at(3, 2)), 15.5);
}

#[test]
fn a_2x2_matrix_ought_to_be_representable() {
    let matrix = matrix(vec![vec![-3.0, 5.0], vec![1.0, -2.0]]);

    assert_eq!(f(matrix.at(0, 0)), -3.0);
    assert_eq!(f(matrix.at(0, 1)), 5.0);
    assert_eq!(f(matrix.at(1, 0)), 1.0);
    assert_eq!(f(matrix.at(1, 1)), -2.0);
}

#[test]
fn a_3x3_matrix_ought_to_be_representable() {
    let matrix = matrix(vec![
        vec![-3.0, 5.0, 0.0],
        vec![1.0, -2.0, -7.0],
        vec![0.0, 1.0, 1.0],
    ]);

    assert_eq!(f(matrix.at(0, 0)), -3.0);
    assert_eq!(f(matrix.at(1, 1)), -2.0);
    assert_eq!(f(matrix.at(2, 2)), 1.0);
}

#[test]
fn matrix_can_be_transposed() {
    let matrix_a = matrix(vec![
        vec![0.0, 9.0, 3.0, 0.0],
        vec![9.0, 8.0, 0.0, 8.0],
        vec![1.0, 8.0, 5.0, 3.0],
        vec![0.0, 0.0, 5.0, 8.0],
    ]);

    let expected = vec![
        vec![0.0, 9.0, 1.0, 0.0],
        vec![9.0, 8.0, 8.0, 0.0],
        vec![3.0, 0.0, 5.0, 5.0],
        vec![0.0, 8.0, 3.0, 8.0],
    ];

    assert_eq!(entries(&matrix_a.transpose()), expected);
}

#[test]
fn transposing_identity_matrix_equals_identity_matrix() {
    let identity = Matrix::identity();
    let transposed_identity = identity.transpose();

    assert_eq!(entries(&transposed_identity), entries(&Matrix::identity()));
}

#[test]
fn submatrix_of_3x3_matrix_is_2x2_matrix() {
    let matrix_a = matrix(vec![
        vec![1.0, 5.0, 0.0],
        vec![-3.0, 2.0, 7.0],
        vec![0.0, 6.0, -3.0],
    ]);

    let expected = vec![vec![-3.0, 2.0], vec![0.0, 6.0]];

    assert_eq!(entries(&matrix_a.submatrix(0, 2)), expected);
}

#[test]
fn submatrix_of_4x4_matrix_is_3x3_matrix() {
    let matrix_a = matrix(vec![
        vec![-6.0, 1.0, 1.0, 6.0],
        vec![-8.0, 5.0, 8.0, 6.0],
        vec![-1.0, 0.0, 8.0, 2.0],
        vec![-7.0, 1.0, -1.0, 1.0],
    ]);

    let expected = vec![
        vec![-6.0, 1.0, 6.0],
        vec![-8.0, 8.0, 6.0],
        vec![-7.0, -1.0, 1.0],
    ];

    assert_eq!(entries(&matrix_a.submatrix(2, 1)), expected);
}

#[test]
fn a_cofactor_is_the_minor_with_the_sign_of_its_place() {
    assert_eq!(f(cofactor_of_minor(s(-12.0), 0, 0)), -12.0);
    assert_eq!(f(cofactor_of_minor(s(25.0), 1, 0)), -25.0);
    assert_eq!(f(cofactor_of_minor(s(25.0), 0, 1)), -25.0);
    assert_eq!(f(cofactor_of_minor(s(25.0), 1, 1)), 25.0);
    assert_eq!(f(cofactor_of_minor(s(7.0), usize::MAX, usize::MAX)), 7.0);
    assert_eq!(f(cofactor_of_minor(s(7.0), usize::MAX, 0)), -7.0);
}

#[test]
fn a_new_matrix_is_zero_everywhere() {
    let m = Matrix::new(2, 3);
    assert_eq!(m.rows(), 2);
    assert_eq!(m.cols(), 3);
    assert_eq!(entries(&m), vec![vec![0.0, 0.0, 0.0], vec![0.0, 0.0, 0.0]]);
    assert_eq!(m.at(1, 2).to_bits(), 0);
    let empty = Matrix::new(0, 5);
    assert_eq!((empty.rows(), empty.cols()), (0, 5));
    let t = empty.transpose();
    assert_eq!((t.rows(), t.cols()), (5, 0));
    let none = Matrix::from_vec(vec![]);
    assert_eq!((none.rows(), none.cols()), (0, 0));
}

#[test]
fn rows_of_different_lengths_make_no_matrix() {
    assert!(Matrix::try_from_vec(vec![vec![s(1.0), s(2.0)], vec![s(3.0)]]).is_none());
    assert!(Matrix::try_from_vec(vec![vec![], vec![s(3.0)]]).is_none());
    let m = Matrix::try_from_vec(vec![vec![s(1.0), s(2.0)], vec![s(3.0), s(4.0)]]).unwrap();
    assert_eq!(entries(&m), vec![vec![1.0, 2.0], vec![3.0, 4.0]]);
    let none = Matrix::try_from_vec(vec![]).unwrap();
    assert_eq!((none.rows(), none.cols()), (0, 0));
    let narrow = Matrix::try_from_vec(vec![vec![], vec![]]).unwrap();
    assert_eq!((narrow.rows(), narrow.cols()), (2, 0));
}

#[test]
fn the_identity_has_ones_on_the_diagonal() {
    assert_eq!(
        entries(&Matrix::identity()),
        vec![
            vec![1.0, 0.0, 0.0, 0.0],
            vec![0.0, 1.0, 0.0, 0.0],
            vec![0.0, 0.0, 1.0, 0.0],
            vec![0.0, 0.0, 0.0, 1.0],
        ]
    );
}

#[test]
fn setting_an_entry_changes_that_entry_only() {
    let mut m = matrix(vec![vec![1.0, 2.0], vec![3.0, 4.0], vec![5.0, 6.0]]);
    m.set(2, 0, s(9.0));
    assert_eq!(entries(&m), vec![vec![1.0, 2.0], vec![3.0, 4.0], vec![9.0, 6.0]]);
    let copy = m.clone();
    m.set(0, 1, s(-1.0));
    assert_eq!(entries(&copy), vec![vec![1.0, 2.0], vec![3.0, 4.0], vec![9.0, 6.0]]);
    assert_eq!(entries(&m), vec![vec![1.0, -1.0], vec![3.0, 4.0], vec![9.0, 6.0]]);
}

#[test]
fn transposing_twice_gives_the_matrix_back() {
    let m = matrix(vec![vec![1.0, 2.0, 3.0], vec![4.0, 5.0, 6.0]]);
    let t = m.transpose();
    assert_eq!(entries(&t), vec![vec![1.0, 4.0], vec![2.0, 5.0], vec![3.0, 6.0]]);
    assert_eq!(entries(&t.transpose()), entries(&m));
}

#[test]
fn a_submatrix_of_the_transpose_is_the_transpose_of_a_submatrix() {
    let m = matrix(vec![vec![1.0, 2.0, 3.0], vec![4.0, 5.0, 6.0], vec![7.0, 8.0, 9.0]]);
    assert_eq!(entries(&m.submatrix(0, 1).transpose()), entries(&m.transpose().submatrix(1, 0)));
    assert_eq!(entries(&m.submatrix(2, 2)), vec![vec![1.0, 2.0], vec![4.0, 5.0]]);
}

#[test]
fn translation_scaling_and_shearing_place_their_arguments() {
    assert_eq!(
        entries(&Matrix::translation(s(5.0), s(-3.0), s(2.0))),
        vec![
            vec![1.0, 0.0, 0.0, 5.0],
            vec![0.0, 1.0, 0.0, -3.0],
            vec![0.0, 0.0, 1.0, 2.0],
            vec![0.0, 0.0, 0.0, 1.0],
        ]
    );
    assert_eq!(
        entries(&Matrix::scaling(s(2.0), s(3.0), s(4.0))),
        vec![
            vec![2.0, 0.0, 0.0, 0.0],
            vec![0.0, 3.0, 0.0, 0.0],
            vec![0.0, 0.0, 4.0, 0.0],
            vec![0.0, 0.0, 0.0, 1.0],
        ]
    );
    assert_eq!(
        entries(&Matrix::shearing(s(1.0), s(2.0), s(3.0), s(4.0), s(5.0), s(6.0))),
        vec![
            vec![1.0, 1.0, 2.0, 0.0],
            vec![3.0, 1.0, 4.0, 0.0],
            vec![5.0, 6.0, 1.0, 0.0],
            vec![0.0, 0.0, 0.0, 1.0],
        ]
    );
}

#[test]
fn rotations_place_the_cosine_and_the_sine() {
    let c = 0.6;
    let n = 0.8;
    assert_eq!(
        entries(&Matrix::rotation_x(s(c), s(n))),
        vec![
            vec![1.0, 0.0, 0.0, 0.0],
            vec![0.0, c, -n, 0.0],
            vec![0.0, n, c, 0.0],
            vec![0.0, 0.0, 0.0, 1.0],
        ]
    );
    assert_eq!(
        entries(&Matrix::rotation_y(s(c), s(n))),
        vec![
            vec![c, 0.0, n, 0.0],
            vec![0.0, 1.0, 0.0, 0.0],
            vec![-n, 0.0, c, 0.0],
            vec![0.0, 0.0, 0.0, 1.0],
        ]
    );
    assert_eq!(
        entries(&Matrix::rotation_z(s(c), s(n))),
        vec![
            vec![c, -n, 0.0, 0.0],
            vec![n, c, 0.0, 0.0],
            vec![0.0, 0.0, 1.0, 0.0],
            vec![0.0, 0.0, 0.0, 1.0],
        ]
    );
}
