use ddbug::path::shortest_path;
use ddbug::Direction;

fn cost(a: &(&str, &str), b: &(&str, &str)) -> usize {
    let mut cost = 0;
    if a.0 != b.0 {
        cost += 1;
    }
    if a.1 != b.1 {
        cost += 1;
    }
    cost
}

fn count(path: &[Direction], step: Direction) -> usize {
    path.iter().filter(|d| **d == step).count()
}

#[test]
fn inserted_parameter_is_one_vertical_step() {
    let a = vec![("a", "i32"), ("b", "i32")];
    let b = vec![("a", "i32"), ("c", "i32"), ("b", "i32")];
    let path = shortest_path(&a, &b, |_| 1, cost);
    assert_eq!(path, vec![Direction::Diagonal, Direction::Vertical, Direction::Diagonal]);
}

#[test]
fn removed_parameter_is_one_horizontal_step() {
    let a = vec![("a", "i32"), ("c", "i32"), ("b", "i32")];
    let b = vec![("a", "i32"), ("b", "i32")];
    let path = shortest_path(&a, &b, |_| 1, cost);
    assert_eq!(path, vec![Direction::Diagonal, Direction::Horizontal, Direction::Diagonal]);
}

#[test]
fn unrelated_items_are_never_paired() {
    let a = vec![("a", "i32"), ("b", "u8")];
    let b = vec![("x", "f64"), ("y", "char"), ("z", "bool")];
    let path = shortest_path(&a, &b, |_| 1, cost);
    assert_eq!(count(&path, Direction::Diagonal), 0);
    assert_eq!(count(&path, Direction::Horizontal), 2);
    assert_eq!(count(&path, Direction::Vertical), 3);
    assert_eq!(count(&path, Direction::Start), 0);
    assert_eq!(path.len(), 5);
}

#[test]
fn empty_first_list_is_all_vertical() {
    let a: Vec<(&str, &str)> = vec![];
    let b = vec![("x", "f64"), ("y", "char")];
    let path = shortest_path(&a, &b, |_| 1, cost);
    assert_eq!(path, vec![Direction::Vertical, Direction::Vertical]);
}

#[test]
fn empty_second_list_is_all_horizontal() {
    let a = vec![("x", "f64"), ("y", "char"), ("z", "u8")];
    let b: Vec<(&str, &str)> = vec![];
    let path = shortest_path(&a, &b, |_| 1, cost);
    assert_eq!(path, vec![Direction::Horizontal, Direction::Horizontal, Direction::Horizontal]);
}

#[test]
fn two_empty_lists_give_an_empty_script() {
    let a: Vec<(&str, &str)> = vec![];
    let path = shortest_path(&a, &a, |_| 1, cost);
    assert_eq!(path, vec![]);
}

#[test]
fn equal_items_are_all_paired() {
    let a = vec![1u32, 2, 3, 4];
    let b = vec![9u32, 8, 7, 6];
    let path = shortest_path(&a, &b, |_| 3, |_, _| 0);
    assert_eq!(path, vec![Direction::Diagonal; 4]);
}

#[test]
fn script_costs_no_more_than_taking_every_item_alone() {
    let a = vec![5usize, 1, 4, 2];
    let b = vec![1usize, 2, 3];
    let step = |x: &usize| *x;
    let pair = |x: &usize, y: &usize| if x == y { 0 } else { x + y };
    let path = shortest_path(&a, &b, step, pair);
    let mut i = 0;
    let mut j = 0;
    let mut total = 0;
    for d in &path {
        match d {
            Direction::Diagonal => {
                let larger = if a[i] > b[j] { a[i] } else { b[j] };
                assert!(pair(&a[i], &b[j]) < 2 * larger);
                total += pair(&a[i], &b[j]);
                i += 1;
                j += 1;
            }
            Direction::Horizontal => {
                total += a[i];
                i += 1;
            }
            Direction::Vertical => {
                total += b[j];
                j += 1;
            }
            Direction::Start => panic!("a script holds no start mark"),
        }
    }
    assert_eq!((i, j), (4, 3));
    assert!(total <= 12 + 6);
    // 1 and 2 are paired with themselves; 5 and 4 leave, 3 comes.
    assert_eq!(total, 5 + 4 + 3);
}

#[test]
fn a_pair_that_costs_twice_the_step_is_forbidden() {
    let a = vec![("a", "i32")];
    let b = vec![("b", "u8")];
    let path = shortest_path(&a, &b, |_| 1, cost);
    assert_eq!(count(&path, Direction::Diagonal), 0);
    assert_eq!(path.len(), 2);
    let path = shortest_path(&a, &b, |_| 2, cost);
    assert_eq!(path, vec![Direction::Diagonal]);
}
