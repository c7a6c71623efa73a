use aggsig::order::{le, sorted_copy};

fn strings(items: &[&[u8]]) -> Vec<Vec<u8>> {
    items.iter().map(|item| item.to_vec()).collect()
}

#[test]
fn a_string_comes_before_what_it_begins() {
    assert!(le(b"", b""));
    assert!(le(b"", b"a"));
    assert!(!le(b"a", b""));
    assert!(le(b"ab", b"abc"));
    assert!(!le(b"abc", b"ab"));
    assert!(le(b"abc", b"abc"));
}

#[test]
fn the_first_differing_byte_decides() {
    assert!(le(&[1, 2, 3], &[1, 3, 0]));
    assert!(!le(&[1, 3, 0], &[1, 2, 3]));
    assert!(le(&[0, 255, 255], &[1]));
    assert!(!le(&[1], &[0, 255, 255]));
    assert!(le(&[127], &[128]));
    assert!(!le(&[255], &[0]));
}

#[test]
fn a_sorted_copy_is_in_order_and_keeps_every_item() {
    let items = strings(&[b"pear", b"", b"apple", b"pear", b"app", &[0xff], b"apple pie", &[0]]);
    let sorted = sorted_copy(&items);
    assert_eq!(
        sorted,
        strings(&[b"", &[0], b"app", b"apple", b"apple pie", b"pear", b"pear", &[0xff]])
    );
    let mut expected = items.clone();
    expected.sort();
    assert_eq!(sorted, expected);
    assert_eq!(sorted_copy(&sorted), sorted);
    assert_eq!(sorted_copy(&vec![]), Vec::<Vec<u8>>::new());
    assert_eq!(sorted_copy(&strings(&[b"x"])), strings(&[b"x"]));
}

#[test]
fn every_order_of_a_list_sorts_alike() {
    let items = strings(&[&[3, 1], &[2], &[3], &[2, 0]]);
    let expected = strings(&[&[2], &[2, 0], &[3], &[3, 1]]);
    let orders = [
        [0, 1, 2, 3], [0, 1, 3, 2], [0, 2, 1, 3], [0, 2, 3, 1], [0, 3, 1, 2], [0, 3, 2, 1],
        [1, 0, 2, 3], [1, 0, 3, 2], [1, 2, 0, 3], [1, 2, 3, 0], [1, 3, 0, 2], [1, 3, 2, 0],
        [2, 0, 1, 3], [2, 0, 3, 1], [2, 1, 0, 3], [2, 1, 3, 0], [2, 3, 0, 1], [2, 3, 1, 0],
        [3, 0, 1, 2], [3, 0, 2, 1], [3, 1, 0, 2], [3, 1, 2, 0], [3, 2, 0, 1], [3, 2, 1, 0],
    ];
    for order in orders {
        let shuffled: Vec<Vec<u8>> = order.iter().map(|i| items[*i].clone()).collect();
        assert_eq!(sorted_copy(&shuffled), expected);
    }
}
