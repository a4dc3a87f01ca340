use matrix::{draw_pattern, Matrix, MatrixError, Operator, DRAW_HIGH, DRAW_LOW, ZERO};
use rand::rngs::mock::StepRng;
use rand::Rng;

fn ieee(op: Operator, a: u64, b: u64) -> u64 {
    let x = f64::from_bits(a);
    let y = f64::from_bits(b);
    let z = match op {
        Operator::Plus => x + y,
        Operator::Minus => x - y,
        Operator::Times => x * y,
        Operator::Over => x / y,
    };
    z.to_bits()
}

fn from_rows(rows: Vec<Vec<f64>>) -> Matrix {
    let cols = if rows.is_empty() { 0 } else { rows[0].len() };
    Matrix {
        rows: rows.len(),
        cols,
        data: rows
            .iter()
            .map(|row| row.iter().map(|x| x.to_bits()).collect())
            .collect(),
    }
}

fn to_rows(m: &Matrix) -> Vec<Vec<f64>> {
    m.data
        .iter()
        .map(|row| row.iter().map(|b| f64::from_bits(*b)).collect())
        .collect()
}

#[test]
fn patterns_of_zero_one_and_five() {
    assert_eq!(ZERO, 0.0f64.to_bits());
    assert_eq!(DRAW_LOW, 1.0f64.to_bits());
    assert_eq!(DRAW_HIGH, 5.0f64.to_bits());
}

#[test]
fn new_has_the_shape_asked_for_and_zero_cells() {
    let m = Matrix::new(3, 4);
    assert_eq!(m.rows, 3);
    assert_eq!(m.cols, 4);
    assert_eq!(m.data.len(), 3);
    for row in &m.data {
        assert_eq!(row.len(), 4);
        for b in row {
            assert_eq!(f64::from_bits(*b), 0.0);
            assert_eq!(*b, ZERO);
        }
    }
    assert!(m.is_well_formed());
}

#[test]
fn new_with_a_zero_dimension() {
    let no_rows = Matrix::new(0, 5);
    assert_eq!(no_rows.rows, 0);
    assert_eq!(no_rows.cols, 5);
    assert!(no_rows.data.is_empty());
    assert!(no_rows.is_well_formed());

    let no_cols = Matrix::new(2, 0);
    assert_eq!(no_cols.rows, 2);
    assert_eq!(no_cols.cols, 0);
    assert_eq!(no_cols.data, vec![Vec::<u64>::new(), Vec::<u64>::new()]);
    assert!(no_cols.is_well_formed());
}

#[test]
fn is_well_formed_tells_a_broken_matrix() {
    let short = Matrix { rows: 2, cols: 2, data: vec![vec![0, 0]] };
    assert!(!short.is_well_formed());
    let ragged = Matrix { rows: 2, cols: 2, data: vec![vec![0, 0], vec![0]] };
    assert!(!ragged.is_well_formed());
    let good = Matrix { rows: 2, cols: 1, data: vec![vec![7], vec![9]] };
    assert!(good.is_well_formed());
}

#[test]
fn random_keeps_every_cell_in_the_interval() {
    let mut m = Matrix::new(6, 7);
    m.random();
    assert_eq!(m.rows, 6);
    assert_eq!(m.cols, 7);
    assert!(m.is_well_formed());
    let mut some_nonzero = false;
    for row in to_rows(&m) {
        for x in row {
            assert!(x >= 1.0 && x < 5.0);
            if x != 0.0 {
                some_nonzero = true;
            }
        }
    }
    assert!(some_nonzero);
    for row in &m.data {
        for b in row {
            assert!(DRAW_LOW <= *b && *b < DRAW_HIGH);
        }
    }
}

#[test]
fn random_does_not_repeat_one_number() {
    let mut m = Matrix::new(8, 8);
    m.random();
    let first = m.data[0][0];
    assert!(m.data.iter().any(|row| row.iter().any(|b| *b != first)));
}

#[test]
fn draw_pattern_at_the_ends_and_the_whole_numbers() {
    let step = 1u64 << 12;
    let unit = 1u64 << 50;
    assert_eq!(f64::from_bits(draw_pattern(0)), 1.0);
    assert_eq!(f64::from_bits(draw_pattern(step - 1)), 1.0);
    assert_eq!(f64::from_bits(draw_pattern(step)), 1.0 + 2f64.powi(-50));
    assert_eq!(f64::from_bits(draw_pattern(unit / 2 * step)), 1.5);
    assert_eq!(f64::from_bits(draw_pattern(unit * step - 1)), 2.0 - 2f64.powi(-50));
    assert_eq!(f64::from_bits(draw_pattern(unit * step)), 2.0);
    assert_eq!(f64::from_bits(draw_pattern(unit * step + step)), 2.0 + 2f64.powi(-50));
    assert_eq!(f64::from_bits(draw_pattern(2 * unit * step)), 3.0);
    assert_eq!(f64::from_bits(draw_pattern(3 * unit * step - 1)), 4.0 - 2f64.powi(-50));
    assert_eq!(f64::from_bits(draw_pattern(3 * unit * step)), 4.0);
    assert_eq!(f64::from_bits(draw_pattern(3 * unit * step + 5 * step)), 4.0 + 5.0 * 2f64.powi(-50));
    assert_eq!(f64::from_bits(draw_pattern(u64::MAX)), 5.0 - 2f64.powi(-50));
    assert_eq!(draw_pattern(u64::MAX), DRAW_HIGH - 1);
}

#[test]
fn draw_pattern_is_one_plus_the_step_over_two_to_the_fiftieth() {
    let words = [
        0u64,
        1,
        4095,
        4096,
        0x0123_4567_89AB_CDEF,
        0x3FFF_FFFF_FFFF_FFFF,
        0x4000_0000_0000_0000,
        0x7FFF_FFFF_FFFF_FFFF,
        0x8000_0000_0000_0000,
        0xBFFF_FFFF_FFFF_FFFF,
        0xC000_0000_0000_0000,
        0xDEAD_BEEF_CAFE_F00D,
        u64::MAX,
    ];
    for word in words {
        let step = (word >> 12) as f64;
        let want = 1.0 + step / 2f64.powi(50);
        assert_eq!(f64::from_bits(draw_pattern(word)), want);
    }
}

#[test]
fn draw_pattern_agrees_with_the_generator_on_its_own_range() {
    let words = [
        0u64,
        4096,
        0x0123_4567_89AB_CDEF,
        0x4000_0000_0000_0000,
        0x7FFF_FFFF_FFFF_FFFF,
        0x8000_0000_0000_0000,
        0xC000_0000_0000_0000,
        0xDEAD_BEEF_CAFE_F00D,
        u64::MAX,
    ];
    for word in words {
        let mut fixed = StepRng::new(word, 0);
        let theirs: f64 = fixed.gen_range(1f64..5.0f64);
        assert_eq!(draw_pattern(word), theirs.to_bits());
    }
}

#[test]
fn random_with_holds_the_draw_of_each_word() {
    let mut m = Matrix::new(2, 3);
    m.random_with(|| 0x8000_0000_0000_0000);
    assert_eq!(to_rows(&m), vec![vec![3.0, 3.0, 3.0], vec![3.0, 3.0, 3.0]]);
}

#[test]
fn random_with_asks_once_for_each_cell_row_by_row() {
    let calls = std::cell::Cell::new(0u64);
    let mut m = Matrix::new(3, 4);
    m.random_with(|| {
        let word = calls.get() << 58;
        calls.set(calls.get() + 1);
        word
    });
    assert_eq!(calls.get(), 12);
    assert_eq!(
        to_rows(&m),
        vec![
            vec![1.0, 1.0625, 1.125, 1.1875],
            vec![1.25, 1.3125, 1.375, 1.4375],
            vec![1.5, 1.5625, 1.625, 1.6875],
        ]
    );
}

#[test]
fn random_with_on_an_empty_matrix_draws_nothing() {
    let calls = std::cell::Cell::new(0u64);
    let mut m = Matrix::new(0, 3);
    m.random_with(|| {
        calls.set(calls.get() + 1);
        0
    });
    assert_eq!(calls.get(), 0);
    assert_eq!(m, Matrix::new(0, 3));
}

#[test]
fn add_works_cell_by_cell() {
    let mut a = from_rows(vec![vec![1.0, 2.0, 3.0], vec![4.0, 5.0, 6.0]]);
    let b = from_rows(vec![vec![10.0, 20.0, 30.0], vec![40.0, 50.0, 60.5]]);
    let kept = b.clone();
    assert_eq!(a.add(&b, ieee), Ok(true));
    assert_eq!(to_rows(&a), vec![vec![11.0, 22.0, 33.0], vec![44.0, 55.0, 66.5]]);
    assert_eq!(b, kept);
}

#[test]
fn sub_works_cell_by_cell_left_less_right() {
    let mut a = from_rows(vec![vec![1.0, 2.0], vec![4.0, 5.0]]);
    let b = from_rows(vec![vec![10.0, 20.0], vec![40.0, 0.5]]);
    assert_eq!(a.sub(&b, ieee), Ok(true));
    assert_eq!(to_rows(&a), vec![vec![-9.0, -18.0], vec![-36.0, 4.5]]);
}

#[test]
fn mismatched_shapes_leave_both_operands_untouched() {
    let mut a = from_rows(vec![vec![1.0, 2.0], vec![3.0, 4.0], vec![5.0, 6.0]]);
    let b = from_rows(vec![vec![1.0, 2.0, 3.0], vec![4.0, 5.0, 6.0]]);
    let a_before = a.clone();
    let b_before = b.clone();
    assert_eq!(a.add(&b, ieee), Err(MatrixError::InvalidDimension));
    assert_eq!(a, a_before);
    assert_eq!(b, b_before);
    assert_eq!(a.sub(&b, ieee), Err(MatrixError::InvalidDimension));
    assert_eq!(a, a_before);
    assert_eq!(b, b_before);
}

#[test]
fn same_rows_but_other_columns_is_a_mismatch() {
    let mut a = Matrix::new(2, 2);
    let b = Matrix::new(2, 3);
    assert!(!a.same_shape(&b));
    assert!(a.same_shape(&Matrix::new(2, 2)));
    assert_eq!(a.add(&b, ieee), Err(MatrixError::InvalidDimension));
    assert_eq!(a.sub(&b, ieee), Err(MatrixError::InvalidDimension));
}

#[test]
fn the_two_errors_differ() {
    assert_ne!(MatrixError::InvalidDimension, MatrixError::NotImplemented);
}

#[test]
fn scalars_are_the_right_operand() {
    let mut m = from_rows(vec![vec![8.0, 2.0]]);
    m.sub_assign(3.0f64.to_bits(), ieee);
    assert_eq!(to_rows(&m), vec![vec![5.0, -1.0]]);
    m.div_assign(2.0f64.to_bits(), ieee);
    assert_eq!(to_rows(&m), vec![vec![2.5, -0.5]]);
    m.mul_assign(4.0f64.to_bits(), ieee);
    assert_eq!(to_rows(&m), vec![vec![10.0, -2.0]]);
    m.add_assign(0.25f64.to_bits(), ieee);
    assert_eq!(to_rows(&m), vec![vec![10.25, -1.75]]);
}

#[test]
fn adding_then_subtracting_a_scalar_restores() {
    let start = from_rows(vec![vec![1.0, 2.5], vec![-3.0, 4.0]]);
    let mut m = start.clone();
    m.add_assign(2.0f64.to_bits(), ieee);
    assert_ne!(m, start);
    m.sub_assign(2.0f64.to_bits(), ieee);
    assert_eq!(m, start);
}

#[test]
fn multiplying_then_dividing_by_a_scalar_restores_within_tolerance() {
    let start = from_rows(vec![vec![1.0, 2.5], vec![-3.0, 0.1]]);
    let mut m = start.clone();
    m.mul_assign(3.0f64.to_bits(), ieee);
    m.div_assign(3.0f64.to_bits(), ieee);
    let got = to_rows(&m);
    let want = to_rows(&start);
    for r in 0..2 {
        for c in 0..2 {
            assert!((got[r][c] - want[r][c]).abs() <= 1e-12);
        }
    }
}

#[test]
fn dividing_by_zero_is_not_refused() {
    let mut m = from_rows(vec![vec![1.0, -1.0, 0.0]]);
    m.div_assign(0.0f64.to_bits(), ieee);
    let got = to_rows(&m);
    assert_eq!(got[0][0], f64::INFINITY);
    assert_eq!(got[0][1], f64::NEG_INFINITY);
    assert!(got[0][2].is_nan());
    assert!(m.is_well_formed());
}

#[test]
fn scalar_operations_on_an_empty_matrix() {
    let mut m = Matrix::new(0, 0);
    m.add_assign(1.0f64.to_bits(), ieee);
    m.mul_assign(2.0f64.to_bits(), ieee);
    assert_eq!(m, Matrix::new(0, 0));
}

#[test]
fn product_holds_the_last_term_only() {
    let a = from_rows(vec![vec![1.0, 2.0], vec![3.0, 4.0]]);
    let b = from_rows(vec![vec![5.0, 6.0], vec![7.0, 8.0]]);
    let c = Matrix::mul(&a, &b, ieee).unwrap();
    // The sums would be 19, 22, 43 and 50.
    assert_eq!(to_rows(&c), vec![vec![14.0, 16.0], vec![28.0, 32.0]]);
}

#[test]
fn product_with_a_single_column_is_the_true_product() {
    let a = from_rows(vec![vec![2.0], vec![3.0]]);
    let b = from_rows(vec![vec![5.0, 7.0, 11.0]]);
    let c = Matrix::mul(&a, &b, ieee).unwrap();
    assert_eq!(c.rows, 2);
    assert_eq!(c.cols, 3);
    assert_eq!(to_rows(&c), vec![vec![10.0, 14.0, 22.0], vec![15.0, 21.0, 33.0]]);
}

#[test]
fn product_takes_rows_of_the_left_and_columns_of_the_right() {
    let a = from_rows(vec![vec![1.0, 2.0, 3.0], vec![4.0, 5.0, 6.0]]);
    let b = from_rows(vec![vec![1.0], vec![2.0], vec![10.0]]);
    let a_before = a.clone();
    let b_before = b.clone();
    let c = Matrix::mul(&a, &b, ieee).unwrap();
    assert_eq!(c.rows, 2);
    assert_eq!(c.cols, 1);
    assert_eq!(to_rows(&c), vec![vec![30.0], vec![60.0]]);
    assert_eq!(a, a_before);
    assert_eq!(b, b_before);
    assert!(c.is_well_formed());
}

#[test]
fn product_of_unfitting_shapes_is_refused() {
    let a = Matrix::new(2, 3);
    let b = Matrix::new(2, 3);
    assert_eq!(Matrix::mul(&a, &b, ieee), Err(MatrixError::InvalidDimension));
    let c = Matrix::new(3, 2);
    assert!(Matrix::mul(&a, &c, ieee).is_ok());
    assert!(Matrix::mul(&c, &a, ieee).is_ok());
}

#[test]
fn product_over_no_column_is_all_zero() {
    let a = Matrix::new(2, 0);
    let b = Matrix::new(0, 3);
    let c = Matrix::mul(&a, &b, ieee).unwrap();
    assert_eq!(c, Matrix::new(2, 3));
}

#[test]
fn transpose_moves_each_cell_across_the_diagonal() {
    let mut m = from_rows(vec![vec![1.0, 2.0, 3.0], vec![4.0, 5.0, 6.0]]);
    m.t();
    assert_eq!(m.rows, 3);
    assert_eq!(m.cols, 2);
    assert_eq!(to_rows(&m), vec![vec![1.0, 4.0], vec![2.0, 5.0], vec![3.0, 6.0]]);
    assert!(m.is_well_formed());
}

#[test]
fn transpose_twice_restores_shape_and_cells() {
    let start = from_rows(vec![vec![1.0, 2.0, 3.0], vec![4.0, 5.0, 6.0]]);
    let mut m = start.clone();
    m.t();
    assert_ne!(m, start);
    m.t();
    assert_eq!(m, start);
}

#[test]
fn transpose_of_an_empty_matrix() {
    let mut m = Matrix::new(0, 4);
    m.t();
    assert_eq!(m, Matrix::new(4, 0));
    m.t();
    assert_eq!(m, Matrix::new(0, 4));
}

#[test]
fn a_clone_is_independent() {
    let a = from_rows(vec![vec![1.0, 2.0], vec![3.0, 4.0]]);
    let mut b = a.clone();
    assert_eq!(a, b);
    b.add_assign(1.0f64.to_bits(), ieee);
    assert_eq!(to_rows(&a), vec![vec![1.0, 2.0], vec![3.0, 4.0]]);
    assert_eq!(to_rows(&b), vec![vec![2.0, 3.0], vec![4.0, 5.0]]);
}

#[test]
fn render_puts_the_title_first_and_a_line_for_each_row() {
    let m = from_rows(vec![vec![1.0, 2.5], vec![-3.0, 4.0]]);
    let text = m.render("A", |b: u64| format!("{:?}", f64::from_bits(b)));
    assert_eq!(text, "A\n| 1.0 | | 2.5 | \n| -3.0 | | 4.0 | \n");
    assert_eq!(text.lines().count(), 1 + m.rows);
}

#[test]
fn render_of_a_matrix_without_cells() {
    let show = |b: u64| format!("{:?}", f64::from_bits(b));
    assert_eq!(Matrix::new(0, 3).render("empty", show), "empty\n");
    assert_eq!(Matrix::new(2, 0).render("", show), "\n\n\n");
}
