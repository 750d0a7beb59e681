use previewer::{deletion_order, order_by_id};

#[test]
fn signatures_are_listed_by_ascending_id() {
    assert_eq!(order_by_id(&vec![30, 10, 20]), vec![1, 2, 0]);
}

#[test]
fn equal_ids_keep_the_order_they_came_in() {
    assert_eq!(order_by_id(&vec![5, 1, 5, 1, 5]), vec![1, 3, 0, 2, 4]);
}

#[test]
fn ordering_no_signatures_gives_nothing() {
    assert_eq!(order_by_id(&vec![]), Vec::<usize>::new());
}

#[test]
fn ordering_the_same_ids_twice_agrees() {
    let ids = vec![9, 3, 3, 7, u64::MAX, 0];
    assert_eq!(order_by_id(&ids), order_by_id(&ids));
    assert_eq!(order_by_id(&ids), vec![5, 1, 2, 3, 0, 4]);
}

#[test]
fn annotations_are_removed_from_the_highest_index_down() {
    assert_eq!(deletion_order(vec![0, 2, 5, 7]), vec![7, 5, 2, 0]);
    assert_eq!(deletion_order(vec![3, 9, 1]), vec![9, 3, 1]);
    assert_eq!(deletion_order(vec![]), Vec::<usize>::new());
}

#[test]
fn removing_in_deletion_order_removes_exactly_the_chosen_entries() {
    let mut list = vec!['a', 'b', 'c', 'd', 'e', 'f'];
    for i in deletion_order(vec![1, 4, 2]) {
        list.remove(i);
    }
    assert_eq!(list, vec!['a', 'd', 'f']);
}
