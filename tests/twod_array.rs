use burntnail_utils::multid_array::TwoArray as FlatArray;
use burntnail_utils::twod_array::TwoArray;

#[test]
fn order_from_fn_test() {
    let array: TwoArray<(usize, usize), 3, 3> = TwoArray::from_function(|x, y| (x, y));

    let ac = |x, y| (x, y);
    assert_eq!(
        array.backing,
        vec![
            ac(0, 0),
            ac(1, 0),
            ac(2, 0),
            ac(0, 1),
            ac(1, 1),
            ac(2, 1),
            ac(0, 2),
            ac(1, 2),
            ac(2, 2)
        ]
    );
}

#[test]
fn index_of_is_row_major() {
    assert_eq!(TwoArray::<u8, 4, 2>::index_of(0, 0), Some(0));
    assert_eq!(TwoArray::<u8, 4, 2>::index_of(3, 0), Some(3));
    assert_eq!(TwoArray::<u8, 4, 2>::index_of(1, 1), Some(5));
    assert_eq!(TwoArray::<u8, 4, 2>::index_of(4, 0), None);
    assert_eq!(TwoArray::<u8, 4, 2>::index_of(0, 2), None);
}

#[test]
fn from_one_clone_fills_every_cell() {
    let a: TwoArray<String, 2, 3> = TwoArray::from_one_clone(String::from("z"));
    assert_eq!(a.backing.len(), 6);
    assert!(a.backing.iter().all(|s| s == "z"));
    let b: FlatArray<u8, 2, 3> = FlatArray::from_one_clone(7);
    assert_eq!(b.get(1, 2), Some(&7));
    assert_eq!(b.get(2, 0), None);
}

#[test]
fn get_and_get_mut_address_cells() {
    let mut a: TwoArray<usize, 3, 2> = TwoArray::from_function(|x, y| x * 10 + y);
    assert_eq!(a.get(2, 1), Some(&21));
    assert_eq!(a.get(3, 1), None);
    *a.get_mut(1, 1).expect("in the grid") = 99;
    assert_eq!(a.backing, vec![0, 10, 20, 1, 99, 21]);
    assert!(a.get_mut(0, 2).is_none());
}

#[test]
fn default_arrays_are_empty() {
    let a: TwoArray<u8, 2, 2> = TwoArray::default();
    assert!(a.backing.is_empty());
    let b: FlatArray<u8, 2, 2> = FlatArray::default();
    assert_eq!(b.get(0, 0), None);
}
