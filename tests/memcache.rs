use burntnail_utils::memcache::MemoryCacher;
use burntnail_utils::time_based_structs::do_on_interval::DoOnInterval;
use std::time::Duration;

#[test]
pub fn hand_constructed_get_all() {
    let vec = vec![100_i32; 10];
    let list: MemoryCacher<_, 10> = MemoryCacher::from_parts(vec![100_i32; 10], true, 9, None)
        .expect("a full history with its cursor in range");

    assert_eq!(vec, list.get_all());
}

#[test]
pub fn no_timer_basic_push() {
    let mut full_list = MemoryCacher::<_, 10>::new(None);
    let mut half_full_list = MemoryCacher::<_, 20>::new(None);

    let base_10 = (0..10).into_iter().collect::<Vec<i32>>();
    for i in base_10.clone() {
        full_list.push(i);
        half_full_list.push(i);
    }
    assert_eq!(full_list.get_all_copy(), base_10.clone());
    assert_eq!(half_full_list.get_all_copy(), base_10.clone());
}

#[test]
fn from_parts_rejects_inconsistent_parts() {
    assert!(MemoryCacher::<i32, 10>::from_parts(vec![1, 2, 3], false, 3, None).is_some());
    assert!(MemoryCacher::<i32, 10>::from_parts(vec![1, 2, 3], false, 2, None).is_none());
    assert!(MemoryCacher::<i32, 10>::from_parts(vec![1, 2, 3], true, 3, None).is_none());
    assert!(MemoryCacher::<i32, 2>::from_parts(vec![1, 2, 3], true, 0, None).is_none());
    assert!(MemoryCacher::<i32, 3>::from_parts(vec![1, 2, 3], true, 3, None).is_none());
    assert!(MemoryCacher::<i32, 0>::from_parts(vec![], false, 0, None).is_none());
}

#[test]
fn partial_fill_keeps_arrival_order() {
    let mut h = MemoryCacher::<u32, 5>::new(None);
    assert!(h.is_empty());
    for k in 1..5u32 {
        h.push(k * 10);
        assert!(!h.is_empty());
        let expected: Vec<u32> = (1..=k).map(|i| i * 10).collect();
        assert_eq!(h.get_all_copy(), expected);
    }
}

#[test]
fn exact_fill_holds_every_value() {
    let mut h = MemoryCacher::<u32, 4>::new(None);
    for v in [7, 8, 9, 10] {
        h.push(v);
    }
    assert_eq!(h.get_all_copy(), vec![7, 8, 9, 10]);
}

#[test]
fn overflow_overwrites_in_slot_order() {
    let mut h = MemoryCacher::<i32, 10>::new(None);
    for i in 0..10 {
        h.push(i);
    }
    assert_eq!(h.get_all_copy(), vec![0, 1, 2, 3, 4, 5, 6, 7, 8, 9]);
    h.push(99);
    assert_eq!(h.get_all_copy(), vec![99, 1, 2, 3, 4, 5, 6, 7, 8, 9]);
    h.push(100);
    h.push(101);
    assert_eq!(h.get_all_copy(), vec![99, 100, 101, 3, 4, 5, 6, 7, 8, 9]);
}

#[test]
fn overflow_by_many_keeps_last_values() {
    let mut h = MemoryCacher::<usize, 3>::new(None);
    for i in 0..8 {
        h.push(i);
    }
    // value j sits in slot j % 3 for the last three values 5, 6, 7
    assert_eq!(h.get_all(), vec![6, 7, 5]);
}

#[test]
fn capacity_one_holds_latest() {
    let mut h = MemoryCacher::<u8, 1>::new(None);
    h.push(1);
    h.push(2);
    h.push(3);
    assert_eq!(h.get_all_copy(), vec![3]);
}

#[test]
fn denying_timer_keeps_history_empty() {
    let timer = DoOnInterval::new(Duration::from_secs(3600));
    let mut h = MemoryCacher::<u32, 4>::new(Some(timer));
    for i in 0..100 {
        h.push(i);
    }
    assert!(h.is_empty());
    assert_eq!(h.get_all_copy(), Vec::<u32>::new());
}

#[test]
fn permitting_timer_records_every_push() {
    let mut h = MemoryCacher::<u32, 4>::new(Some(DoOnInterval::from_nanos(0)));
    for i in 0..6 {
        h.push(i);
    }
    assert_eq!(h.get_all_copy(), vec![4, 5, 2, 3]);
}

#[test]
fn push_if_follows_the_decision() {
    let mut h = MemoryCacher::<u32, 3>::new(None);
    h.push_if(1, false);
    assert!(h.is_empty());
    h.push_if(2, true);
    h.push_if(3, false);
    h.push_if(4, true);
    assert_eq!(h.get_all_copy(), vec![2, 4]);
}

#[test]
fn stress_many_pushes_stay_bounded() {
    let mut h = MemoryCacher::<u64, 20>::new(None);
    for _ in 0..1_500_000 {
        h.push(12);
    }
    let all = h.get_all();
    assert_eq!(all.len(), 20);
    assert!(all.iter().all(|v| *v == 12));
}

#[test]
fn timer_decision_compares_with_interval() {
    let timer = DoOnInterval::from_nanos(1_000);
    assert!(!timer.is_due(999));
    assert!(timer.is_due(1_000));
    assert!(timer.is_due(5_000));
}

#[test]
fn timer_interval_from_duration() {
    let timer = DoOnInterval::new(Duration::from_millis(2));
    assert!(!timer.is_due(1_999_999));
    assert!(timer.is_due(2_000_000));
}

#[test]
fn into_iter_yields_slot_order() {
    let mut h = MemoryCacher::<i32, 3>::new(None);
    for i in 1..=4 {
        h.push(i);
    }
    let seen: Vec<i32> = h.into_iter().collect();
    assert_eq!(seen, vec![4, 2, 3]);
}

#[test]
fn default_is_an_empty_history() {
    let mut h: MemoryCacher<u16, 3> = MemoryCacher::default();
    assert!(h.is_empty());
    h.push(4);
    h.push(5);
    assert_eq!(h.get_all_copy(), vec![4, 5]);
}

#[test]
fn debug_shows_the_values() {
    let mut h = MemoryCacher::<u8, 2>::new(None);
    h.push(9);
    let text = format!("{:?}", h);
    assert!(text.starts_with("MemoryCacher"));
    assert!(text.contains("data: [9]"));
}
