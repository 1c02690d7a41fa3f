use sgd_network::sgd_network::{count_matching, shuffle};

#[test]
fn test_count_matching() {
    let pairs = vec![(1usize, 1usize), (2, 3), (4, 4), (0, 0), (7, 5)];
    assert_eq!(count_matching(&pairs), 3);
}

#[test]
fn test_count_matching_empty() {
    let pairs: Vec<(usize, usize)> = Vec::new();
    assert_eq!(count_matching(&pairs), 0);
}

#[test]
fn test_count_matching_all() {
    let pairs: Vec<(usize, usize)> = (0..10).map(|i| (i, i)).collect();
    assert_eq!(count_matching(&pairs), 10);
}

#[test]
fn test_shuffle_keeps_elements() {
    let mut v: Vec<i32> = (0..50).collect();
    shuffle(&mut v);
    assert_eq!(v.len(), 50);
    let mut sorted = v.clone();
    sorted.sort();
    let expected: Vec<i32> = (0..50).collect();
    assert_eq!(sorted, expected);
}

#[test]
fn test_shuffle_empty_and_single() {
    let mut empty: Vec<i32> = Vec::new();
    shuffle(&mut empty);
    assert!(empty.is_empty());
    let mut one = vec![42];
    shuffle(&mut one);
    assert_eq!(one, vec![42]);
}
