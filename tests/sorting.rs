use hsv_mb2::util::{sort3, sort3_by_key};
use hsv_mb2::{bubblesort, sort_by_key};

fn orderings() -> Vec<[u32; 3]> {
    vec![[1, 2, 3], [1, 3, 2], [2, 1, 3], [2, 3, 1], [3, 1, 2], [3, 2, 1]]
}

#[test]
fn sort3_all_orderings() {
    for mut v in orderings() {
        sort3(&mut v, |a, b| a < b);
        assert_eq!(v, [1, 2, 3]);
    }
}

#[test]
fn sort3_with_ties() {
    for input in [[2, 2, 1], [2, 1, 2], [1, 2, 2], [1, 1, 2], [1, 2, 1], [2, 1, 1], [5, 5, 5]] {
        let mut v = input;
        sort3(&mut v, |a, b| a < b);
        assert!(v[0] <= v[1] && v[1] <= v[2]);
        let mut expected = input;
        expected.sort();
        assert_eq!(v, expected);
    }
}

#[test]
fn sort3_by_key_keeps_items() {
    let mut v = [(1u8, 'a'), (0, 'b'), (1, 'c')];
    sort3_by_key(&mut v, |p| p.0 as u64);
    assert_eq!(v[0], (0, 'b'));
    assert!(v[1..].contains(&(1, 'a')) && v[1..].contains(&(1, 'c')));
}

#[test]
fn bubblesort_sorts() {
    let mut v = [5, 3, 9, 1, 1, 8, 0];
    bubblesort(&mut v, |a, b| a < b);
    assert_eq!(v, [0, 1, 1, 3, 5, 8, 9]);
    let mut one = [4];
    bubblesort(&mut one, |a, b| a < b);
    assert_eq!(one, [4]);
}

#[test]
fn sort_by_key_sorts() {
    let mut v = [(3u64, 'x'), (1, 'y'), (2, 'z'), (0, 'w')];
    sort_by_key(&mut v, |p| p.0);
    assert_eq!(v, [(0, 'w'), (1, 'y'), (2, 'z'), (3, 'x')]);
}
