use cteepbd::vecops::{veckmul, veclistsum, vecsum, vecvecdif, vecvecmin, vecvecmul, vecvecsum};

#[test]
fn vecops_veclistsum() {
    let myvec = vec![vec![1, 1, 1], vec![2, 2, 2], vec![3, 3, 3]];
    assert_eq!(vec![6, 6, 6], veclistsum(&myvec));
}

#[test]
fn vecops_vecvecmin() {
    assert_eq!(vec![2, 1, 2], vecvecmin(&[2, 2, 2], &[4, 1, 2]));
}

#[test]
fn vecops_vecvecsum() {
    assert_eq!(vec![4, 4, 4], vecvecsum(&[2, 1, 3], &[2, 3, 1]));
}

#[test]
fn vecops_vecvecdif() {
    assert_eq!(vec![1, 1, 1], vecvecdif(&[2, 3, 4], &[1, 2, 3]));
}

#[test]
fn vecops_vecvecmul() {
    assert_eq!(vec![1, 6, 4], vecvecmul(&[1, 3, 2], &[1, 2, 2]));
}

#[test]
fn vecops_veckmul() {
    assert_eq!(vec![2, 4, 6], veckmul(&[1, 2, 3], 2));
}

#[test]
fn vecops_vecsum() {
    assert_eq!(9, vecsum(&[2, 3, 4]));
}

#[test]
fn vecops_list_sum_is_as_long_as_the_longest() {
    let ragged = vec![vec![1], vec![2, 2, 2], vec![3, 3]];
    assert_eq!(vec![6, 5, 2], veclistsum(&ragged));
    let first_longest = vec![vec![1, 1, 1, 1], vec![2]];
    assert_eq!(vec![3, 1, 1, 1], veclistsum(&first_longest));
}

#[test]
fn vecops_list_sum_of_nothing_is_empty() {
    let none: Vec<Vec<i64>> = Vec::new();
    assert_eq!(Vec::<i64>::new(), veclistsum(&none));
}

#[test]
fn vecops_shorter_operand_counts_as_zero() {
    assert_eq!(vec![3, 2, 3], vecvecsum(&[1], &[2, 2, 3]));
    assert_eq!(vec![3, 2, 3], vecvecsum(&[2, 2, 3], &[1]));
    assert_eq!(vec![-1, -2, -3], vecvecdif(&[1], &[2, 2, 3]));
    assert_eq!(vec![1, 2, 3], vecvecdif(&[2, 2, 3], &[1]));
    assert_eq!(vec![2, 0, 0], vecvecmul(&[1], &[2, 2, 3]));
    assert_eq!(vec![1, 0, 0], vecvecmin(&[1], &[2, 2, 3]));
    assert_eq!(vec![1, -5, 0], vecvecmin(&[1, -5], &[2, 2, 3]));
}

#[test]
fn vecops_sum_of_nothing_is_zero() {
    assert_eq!(0, vecsum(&[]));
    assert_eq!(Vec::<i64>::new(), veckmul(&[], 7));
}

#[test]
fn vecops_sum_passes_through_large_partial_sums() {
    assert_eq!(5, vecsum(&[i64::MAX, i64::MAX, -i64::MAX, -i64::MAX, 5]));
}
