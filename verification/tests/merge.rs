use ddbug::merge::{MergeIterator, MergeResult};
use std::cmp::Ordering;

fn show(list: &[MergeResult<u32>]) -> Vec<(char, u32, u32)> {
    list.iter()
        .map(|item| match *item {
            MergeResult::Left(a) => ('<', a, 0),
            MergeResult::Right(b) => ('>', 0, b),
            MergeResult::Both(a, b) => ('=', a, b),
        })
        .collect()
}

#[test]
fn merge_pairs_the_items_of_the_same_key() {
    let a = vec![1u32, 3, 5, 7];
    let b = vec![2u32, 3, 4, 7, 9];
    let list = MergeIterator::new(&a[..], &b[..], |x: u32, y: u32| x.cmp(&y)).collect();
    assert_eq!(
        show(&list),
        vec![
            ('<', 1, 0),
            ('>', 0, 2),
            ('=', 3, 3),
            ('>', 0, 4),
            ('<', 5, 0),
            ('=', 7, 7),
            ('>', 0, 9)
        ]
    );
}

#[test]
fn merge_with_an_empty_list_takes_every_item_alone() {
    let a = vec![1u32, 2];
    let b: Vec<u32> = vec![];
    let list = MergeIterator::new(&a[..], &b[..], |x: u32, y: u32| x.cmp(&y)).collect();
    assert_eq!(show(&list), vec![('<', 1, 0), ('<', 2, 0)]);
    let list = MergeIterator::new(&b[..], &a[..], |x: u32, y: u32| x.cmp(&y)).collect();
    assert_eq!(show(&list), vec![('>', 0, 1), ('>', 0, 2)]);
}

#[test]
fn next_hands_out_one_result_at_a_time() {
    let a = vec![1u32, 2];
    let b = vec![2u32];
    let mut iter = MergeIterator::new(&a[..], &b[..], |x: u32, y: u32| x.cmp(&y));
    assert!(matches!(iter.next(), Some(MergeResult::Left(1))));
    assert!(matches!(iter.next(), Some(MergeResult::Both(2, 2))));
    assert!(iter.next().is_none());
    assert!(iter.next().is_none());
}

#[test]
fn merged_keys_stand_in_order_and_once() {
    let a = vec![10u32, 20, 30, 40, 50];
    let b = vec![5u32, 20, 35, 50, 60];
    let list = MergeIterator::new(&a[..], &b[..], |x: u32, y: u32| x.cmp(&y)).collect();
    let keys: Vec<u32> = list
        .iter()
        .map(|item| match *item {
            MergeResult::Left(a) => a,
            MergeResult::Right(b) => b,
            MergeResult::Both(a, _) => a,
        })
        .collect();
    assert_eq!(keys, vec![5, 10, 20, 30, 35, 40, 50, 60]);
}

#[test]
fn results_are_compared_by_the_item_that_shows_them() {
    let by = |x: &u32, ax: u32, y: &u32, ay: u32| (x + ax).cmp(&(y + ay));
    let left = MergeResult::Left(5u32);
    let right = MergeResult::Right(5u32);
    let both = MergeResult::Both(5u32, 100u32);
    assert_eq!(MergeResult::cmp(&left, &right, 0, 10, by), Ordering::Less);
    assert_eq!(MergeResult::cmp(&right, &left, 0, 10, by), Ordering::Greater);
    assert_eq!(MergeResult::cmp(&both, &left, 0, 10, by), Ordering::Equal);
    assert_eq!(MergeResult::cmp(&both, &right, 7, 0, by), Ordering::Greater);
}
