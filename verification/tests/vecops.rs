use deet::vecops::{add_n, add_n_inplace, dedup};

#[test]
fn test_add_n() {
    assert_eq!(add_n(vec![1], 2), vec![3]);
}

#[test]
fn test_add_n_inplace() {
    let mut v = vec![1];
    add_n_inplace(&mut v, 2);
    assert_eq!(v, vec![3]);
}

#[test]
fn test_dedup() {
    let mut v = vec![3, 1, 0, 1, 4, 4];
    dedup(&mut v);
    assert_eq!(v, vec![3, 1, 0, 4]);
}

#[test]
fn add_n_negative_and_empty() {
    assert_eq!(add_n(vec![], 7), vec![]);
    assert_eq!(add_n(vec![-3, 0, 3], -2), vec![-5, -2, 1]);
}

#[test]
fn dedup_no_duplicates_keeps_all() {
    let mut v = vec![5, 4, 3];
    dedup(&mut v);
    assert_eq!(v, vec![5, 4, 3]);
}

#[test]
fn dedup_all_equal_keeps_one() {
    let mut v = vec![2, 2, 2, 2];
    dedup(&mut v);
    assert_eq!(v, vec![2]);
}
