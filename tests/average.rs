use burntnail_utils::memcache::MemoryCacher;

#[test]
fn average_of_empty_is_zero() {
    assert_eq!(MemoryCacher::<u8, 4>::new(None).average_u8(), 0);
    assert_eq!(MemoryCacher::<i32, 4>::new(None).average_i32(), 0);
    assert_eq!(MemoryCacher::<u128, 4>::new(None).average_u128(), 0);
    assert_eq!(MemoryCacher::<i128, 4>::new(None).average_i128(), 0);
}

#[test]
fn average_of_single_five_is_five() {
    let mut a = MemoryCacher::<u32, 1>::new(None);
    a.push(5);
    assert_eq!(a.average_u32(), 5);
    let mut b = MemoryCacher::<i64, 8>::new(None);
    b.push(5);
    assert_eq!(b.average_i64(), 5);
    let mut c = MemoryCacher::<u16, 3>::new(None);
    c.push(5);
    assert_eq!(c.average_u16(), 5);
}

#[test]
fn average_rounds_toward_zero() {
    let mut a = MemoryCacher::<u8, 4>::new(None);
    for v in [1, 2, 2, 2] {
        a.push(v);
    }
    assert_eq!(a.average_u8(), 1);
    let mut b = MemoryCacher::<i8, 4>::new(None);
    for v in [-1, -2, -2, -2] {
        b.push(v);
    }
    assert_eq!(b.average_i8(), -1);
    let mut c = MemoryCacher::<i16, 2>::new(None);
    c.push(-3);
    c.push(4);
    assert_eq!(c.average_i16(), 0);
}

#[test]
fn average_does_not_overflow_narrow_types() {
    let mut a = MemoryCacher::<u8, 300>::new(None);
    for _ in 0..300 {
        a.push(250);
    }
    assert_eq!(a.average_u8(), 250);
    let mut b = MemoryCacher::<i64, 3>::new(None);
    b.push(i64::MAX);
    b.push(i64::MAX);
    b.push(i64::MAX - 3);
    assert_eq!(b.average_i64(), i64::MAX - 1);
    let mut c = MemoryCacher::<u64, 2>::new(None);
    c.push(u64::MAX);
    c.push(u64::MAX - 1);
    assert_eq!(c.average_u64(), u64::MAX - 1);
}

#[test]
fn average_of_wide_types() {
    let mut a = MemoryCacher::<u128, 3>::new(None);
    for v in [10, 20, 40] {
        a.push(v);
    }
    assert_eq!(a.average_u128(), 23);
    let mut b = MemoryCacher::<i128, 3>::new(None);
    for v in [-10, -20, -40] {
        b.push(v);
    }
    assert_eq!(b.average_i128(), -23);
}

#[test]
fn average_after_wrap_uses_held_values() {
    let mut a = MemoryCacher::<i32, 3>::new(None);
    for v in [100, 1, 2, 3] {
        a.push(v);
    }
    assert_eq!(a.average_i32(), 2);
    let mut b = MemoryCacher::<u64, 2>::new(None);
    for v in [7, 9, 11] {
        b.push(v);
    }
    assert_eq!(b.average_u64(), 10);
}
