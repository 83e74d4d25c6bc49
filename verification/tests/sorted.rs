use monero_consensus::block::sorted::{insert, remove, search, sorted_copy};

#[test]
fn search_finds_first_position_not_below() {
    let v: Vec<usize> = vec![10, 20, 20, 30];
    assert_eq!(search(&v, 5), 0);
    assert_eq!(search(&v, 10), 0);
    assert_eq!(search(&v, 15), 1);
    assert_eq!(search(&v, 20), 1);
    assert_eq!(search(&v, 25), 3);
    assert_eq!(search(&v, 30), 3);
    assert_eq!(search(&v, 31), 4);
}

#[test]
fn search_in_empty_vector() {
    let v: Vec<usize> = Vec::new();
    assert_eq!(search(&v, 7), 0);
}

#[test]
fn insert_keeps_order() {
    let mut v: Vec<usize> = Vec::new();
    for x in [5usize, 1, 9, 5, 0, 7, usize::MAX, 5] {
        insert(&mut v, x);
    }
    assert_eq!(v, vec![0, 1, 5, 5, 5, 7, 9, usize::MAX]);
}

#[test]
fn remove_takes_one_occurrence() {
    let mut v: Vec<usize> = vec![1, 5, 5, 5, 9];
    remove(&mut v, 5);
    assert_eq!(v, vec![1, 5, 5, 9]);
    remove(&mut v, 1);
    assert_eq!(v, vec![5, 5, 9]);
    remove(&mut v, 9);
    assert_eq!(v, vec![5, 5]);
    remove(&mut v, 5);
    remove(&mut v, 5);
    assert!(v.is_empty());
}

#[test]
fn sorted_copy_sorts() {
    let v: Vec<usize> = vec![3, 1, 2, 3, 0, 100, 7, 7, 1];
    assert_eq!(sorted_copy(&v), vec![0, 1, 1, 2, 3, 3, 7, 7, 100]);
    assert_eq!(sorted_copy(&Vec::new()), Vec::<usize>::new());
    assert_eq!(sorted_copy(&vec![4]), vec![4]);
    assert_eq!(sorted_copy(&vec![2, 1]), vec![1, 2]);
}

#[test]
fn sorted_copy_agrees_with_std_sort() {
    let mut v: Vec<usize> = Vec::new();
    let mut x: usize = 12345;
    for _ in 0..5000 {
        x = x.wrapping_mul(6364136223846793005).wrapping_add(1442695040888963407);
        v.push(x % 1000);
    }
    let mut expected = v.clone();
    expected.sort_unstable();
    assert_eq!(sorted_copy(&v), expected);
}
