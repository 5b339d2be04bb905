use deet::vectors::{add_n, add_n_inplace, dedup};

#[test]
fn test_add_n() {
    assert_eq!(add_n(vec![1], 2), vec![3]);
}

#[test]
fn test_add_n_inplace() {
    let mut v = vec![1];
    add_n_inplace(&mut v, 2);
    assert_eq!(v, vec![3]);
}

#[test]
fn test_dedup() {
    let mut v = vec![3, 1, 0, 1, 4, 4];
    dedup(&mut v);
    assert_eq!(v, vec![3, 1, 0, 4]);
}

#[test]
fn add_n_on_empty_and_negative() {
    assert_eq!(add_n(vec![], 5), Vec::<i32>::new());
    assert_eq!(add_n(vec![-3, 0, 7], -4), vec![-7, -4, 3]);
}

#[test]
fn dedup_keeps_first_occurrences() {
    let mut v: Vec<i32> = vec![];
    dedup(&mut v);
    assert_eq!(v, Vec::<i32>::new());
    let mut w = vec![5, 5, 5];
    dedup(&mut w);
    assert_eq!(w, vec![5]);
    let mut x = vec![2, 1, 2, 3, 1];
    dedup(&mut x);
    assert_eq!(x, vec![2, 1, 3]);
}
