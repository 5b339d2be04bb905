use deet::factor::{factor_list, get_num_safe, is_prime, parse_numbers};
use std::collections::VecDeque;

#[test]
fn primality_by_trial_division() {
    assert!(!is_prime(0));
    assert!(!is_prime(1));
    assert!(is_prime(2));
    assert!(is_prime(3));
    assert!(is_prime(13));
    assert!(!is_prime(12));
    assert!(!is_prime(100));
    assert!(is_prime(4294967291));
    assert!(!is_prime(4));
    assert!(!is_prime(9));
    assert!(!is_prime(25));
    assert!(!is_prime(131042));
    assert!(is_prime(65521));
}

#[test]
fn queue_hands_out_in_order() {
    let mut q: VecDeque<u32> = VecDeque::new();
    q.push_back(10);
    q.push_back(20);
    assert_eq!(get_num_safe(&mut q), Some(10));
    assert_eq!(get_num_safe(&mut q), Some(20));
    assert_eq!(get_num_safe(&mut q), None);
}

#[test]
fn factors_multiply_back() {
    assert_eq!(factor_list(1), vec![1]);
    assert_eq!(factor_list(7), vec![7]);
    assert_eq!(factor_list(12), vec![2, 2, 3]);
    assert_eq!(factor_list(360), vec![2, 2, 2, 3, 3, 5]);
    assert_eq!(factor_list(0), Vec::<u32>::new());
    assert_eq!(factor_list(4), vec![2, 2]);
    assert_eq!(factor_list(9), vec![3, 3]);
    assert_eq!(factor_list(25), vec![5, 5]);
}

#[test]
fn numbers_from_arguments() {
    let ok = vec!["12".to_string(), "+7".to_string(), "4294967295".to_string()];
    assert_eq!(parse_numbers(&ok), Ok(vec![12, 7, 4294967295]));
    let big = vec!["1".to_string(), "4294967296".to_string()];
    assert_eq!(parse_numbers(&big), Err(1));
    let bad = vec!["x".to_string(), "3".to_string()];
    assert_eq!(parse_numbers(&bad), Err(0));
    assert_eq!(parse_numbers(&vec![]), Ok(vec![]));
}
