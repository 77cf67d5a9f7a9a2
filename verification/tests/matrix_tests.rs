use matrix::complex::Complex;
use matrix::decimal::decimal_text;
use matrix::element::{One, Render, Zero};
use matrix::matrix::Matrix;

#[test]
fn create_usize() {
    let m: Matrix<usize> = Matrix::new_zeros(5, 6);
    println!("M: {}", m.to_text());
}

#[test]
fn create_complex() {
    let m: Matrix<Complex> = Matrix::new_zeros(7, 8);
    println!("M: {}", m.to_text());
}

#[test]
fn add() {
    let mut m1: Matrix<usize> = Matrix::new_zeros(6, 6);
    let mut m2: Matrix<usize> = Matrix::new_zeros(6, 6);
    m1.data[5][2] = 66;
    m2.data[5][2] = 21;
    let result = m1 + m2;
    println!("M: {}", result.to_text());
}

#[test]
fn add_takes_the_right_operand_only() {
    let mut m1: Matrix<usize> = Matrix::new_zeros(6, 6);
    let mut m2: Matrix<usize> = Matrix::new_zeros(6, 6);
    m1.data[5][2] = 66;
    m2.data[5][2] = 21;
    let result = m1 + m2;
    assert_eq!(result.rows, 6);
    assert_eq!(result.cols, 6);
    assert_eq!(result.data.len(), 6);
    for i in 0..6 {
        assert_eq!(result.data[i].len(), 6);
        for j in 0..6 {
            let expected = if i == 5 && j == 2 { 21 } else { 0 };
            assert_eq!(result.data[i][j], expected);
        }
    }
}

#[test]
fn add_equals_right_operand_everywhere() {
    let mut lhs: Matrix<usize> = Matrix::new_zeros(3, 4);
    let mut rhs: Matrix<usize> = Matrix::new_zeros(3, 4);
    for i in 0..3 {
        for j in 0..4 {
            lhs.data[i][j] = 100 + i * 4 + j;
            rhs.data[i][j] = i * 10 + j;
        }
    }
    let expected = rhs.data.clone();
    let sum = lhs + rhs;
    assert_eq!(sum.data, expected);
}

#[test]
fn add_reads_no_cell_of_the_left_operand() {
    let lhs: Matrix<usize> = Matrix::new(2, 2);
    let mut rhs: Matrix<usize> = Matrix::new_zeros(2, 2);
    rhs.data[0][1] = 7;
    rhs.data[1][0] = usize::MAX;
    let sum = lhs + rhs;
    assert_eq!(sum.data, vec![vec![0, 7], vec![usize::MAX, 0]]);
}

#[test]
fn new_zeros_is_all_zero_with_exact_shape() {
    let m: Matrix<usize> = Matrix::new_zeros(4, 3);
    assert_eq!(m.rows, 4);
    assert_eq!(m.cols, 3);
    assert_eq!(m.data.len(), 4);
    for row in &m.data {
        assert_eq!(row.len(), 3);
        for cell in row {
            assert_eq!(*cell, <usize as Zero>::zero());
        }
    }
    let c: Matrix<Complex> = Matrix::new_zeros(2, 5);
    assert_eq!(c.data, vec![vec![Complex { real: 0, img: 0 }; 5]; 2]);
}

#[test]
fn zero_is_the_same_on_every_call() {
    assert_eq!(<usize as Zero>::zero(), <usize as Zero>::zero());
    assert_eq!(<usize as Zero>::zero(), 0);
    assert_eq!(<Complex as Zero>::zero(), <Complex as Zero>::zero());
    assert_eq!(<Complex as Zero>::zero(), Complex { real: 0, img: 0 });
}

#[test]
fn one_values() {
    assert_eq!(<usize as One>::one(), 1);
    assert_eq!(<Complex as One>::one(), Complex { real: 1, img: 0 });
}

#[test]
fn zeros_5_by_6_text() {
    let m: Matrix<usize> = Matrix::new_zeros(5, 6);
    let mut expected = String::from("rows: 5, cols: 6\n");
    for _ in 0..5 {
        expected.push_str("0 0 0 0 0 0 \n");
    }
    assert_eq!(m.to_text(), expected);
}

#[test]
fn complex_2_by_2_text() {
    let m: Matrix<Complex> = Matrix::new_zeros(2, 2);
    assert_eq!(m.to_text(), "rows: 2, cols: 2\n(0, 0) (0, 0) \n(0, 0) (0, 0) \n");
}

#[test]
fn empty_matrix_text_is_header_only() {
    let m: Matrix<usize> = Matrix::new_zeros(0, 0);
    assert_eq!(m.rows, 0);
    assert_eq!(m.cols, 0);
    assert!(m.data.is_empty());
    assert_eq!(m.to_text(), "rows: 0, cols: 0\n");
}

#[test]
fn zero_columns_gives_empty_lines() {
    let m: Matrix<usize> = Matrix::new_zeros(2, 0);
    assert_eq!(m.data, vec![Vec::<usize>::new(), Vec::new()]);
    assert_eq!(m.to_text(), "rows: 2, cols: 0\n\n\n");
}

#[test]
fn text_of_mixed_values() {
    let mut m: Matrix<usize> = Matrix::new_zeros(2, 3);
    m.data[0][0] = 7;
    m.data[0][2] = 120;
    m.data[1][1] = 4096;
    assert_eq!(m.to_text(), "rows: 2, cols: 3\n7 0 120 \n0 4096 0 \n");
}

#[test]
fn header_line_gives_back_the_dimensions() {
    for (rows, cols) in [(0usize, 0usize), (5, 6), (10, 1), (1, 123), (12, 0)] {
        let m: Matrix<usize> = Matrix::new_zeros(rows, cols);
        let text = m.to_text();
        let line = text.lines().next().unwrap();
        let rest = line.strip_prefix("rows: ").unwrap();
        let (r, c) = rest.split_once(", cols: ").unwrap();
        assert_eq!(r.parse::<usize>().unwrap(), rows);
        assert_eq!(c.parse::<usize>().unwrap(), cols);
    }
}

#[test]
fn bare_matrix_holds_nothing() {
    let m: Matrix<usize> = Matrix::new(3, 3);
    assert_eq!(m.rows, 3);
    assert_eq!(m.cols, 3);
    assert!(m.data.is_empty());
    for i in 0..4 {
        for j in 0..4 {
            assert!(m.get(i, j).is_none());
        }
    }
}

#[test]
fn new_square_is_bare() {
    let m: Matrix<Complex> = Matrix::new_square(4);
    assert_eq!(m.rows, 4);
    assert_eq!(m.cols, 4);
    assert!(m.data.is_empty());
    assert!(m.get(0, 0).is_none());
}

#[test]
fn get_finds_what_is_stored() {
    let mut m: Matrix<usize> = Matrix::new_zeros(2, 3);
    m.data[1][2] = 9;
    assert_eq!(m.get(1, 2), Some(&9));
    assert_eq!(m.get(0, 0), Some(&0));
    assert_eq!(m.get(2, 0), None);
    assert_eq!(m.get(0, 3), None);
}

#[test]
fn identity_of_usize() {
    let m: Matrix<usize> = Matrix::new_ident(3);
    assert_eq!(m.rows, 3);
    assert_eq!(m.cols, 3);
    assert_eq!(m.data, vec![vec![1, 0, 0], vec![0, 1, 0], vec![0, 0, 1]]);
    let empty: Matrix<usize> = Matrix::new_ident(0);
    assert!(empty.data.is_empty());
}

#[test]
fn identity_of_complex() {
    let m: Matrix<Complex> = Matrix::new_ident(2);
    assert_eq!(m.to_text(), "rows: 2, cols: 2\n(1, 0) (0, 0) \n(0, 0) (1, 0) \n");
}

#[test]
fn decimal_text_values() {
    assert_eq!(decimal_text(0), "0");
    assert_eq!(decimal_text(9), "9");
    assert_eq!(decimal_text(10), "10");
    assert_eq!(decimal_text(1234567890), "1234567890");
    assert_eq!(decimal_text(usize::MAX), usize::MAX.to_string());
}

#[test]
fn render_of_elements() {
    assert_eq!(42usize.render(), "42");
    assert_eq!(Complex { real: 3, img: 14 }.render(), "(3, 14)");
}
