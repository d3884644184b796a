use timesync::stats::{median, sort_ascending};

#[test]
fn sort_ascending_orders_values() {
    let v = vec![5i128, -3, 9, 0, -3, i128::MAX, i128::MIN];
    assert_eq!(sort_ascending(&v), vec![i128::MIN, -3, -3, 0, 5, 9, i128::MAX]);
    assert_eq!(sort_ascending(&Vec::new()), Vec::<i128>::new());
}

#[test]
fn median_of_odd_sample_is_middle() {
    assert_eq!(median(&vec![7, 1, 3]), 3);
    assert_eq!(median(&vec![42]), 42);
}

#[test]
fn median_of_even_sample_is_mean_of_middles() {
    assert_eq!(median(&vec![4, 1, 3, 2]), 2);
    assert_eq!(median(&vec![10, 20]), 15);
}

#[test]
fn median_rounds_toward_zero() {
    assert_eq!(median(&vec![-2, -1]), -1);
    assert_eq!(median(&vec![1, 2]), 1);
    assert_eq!(median(&vec![-5, 0, 0, -4]), -2);
}

#[test]
fn median_is_order_independent() {
    let a = vec![9i128, -4, 17, 3, 3, -10];
    let mut b = a.clone();
    b.reverse();
    assert_eq!(median(&a), median(&b));
    assert_eq!(median(&a), 3);
}

#[test]
fn median_lies_within_sample() {
    let v = vec![100i128, -50, 7, 8];
    let m = median(&v);
    assert!(*v.iter().min().unwrap() <= m && m <= *v.iter().max().unwrap());
}

#[test]
fn negating_values_negates_median() {
    for v in [vec![7i128, 1, 3], vec![4, 1, -8, 2], vec![3, -4], vec![-5]] {
        let neg: Vec<i128> = v.iter().map(|x| -x).collect();
        assert_eq!(median(&neg), -median(&v));
    }
    // The mean of two middle values rounds toward zero on both sides.
    assert_eq!(median(&vec![1, 2]), 1);
    assert_eq!(median(&vec![-1, -2]), -1);
}
