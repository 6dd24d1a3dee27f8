use std::collections::VecDeque;
use netwatch::history::push_bounded;

#[test]
fn push_keeps_order_below_capacity() {
    let mut q: VecDeque<u64> = VecDeque::new();
    for v in 1..=3u64 {
        push_bounded(&mut q, 5, v);
    }
    let got: Vec<u64> = q.iter().copied().collect();
    assert_eq!(got, vec![1, 2, 3]);
}

#[test]
fn capacity_plus_one_pushes_keep_the_last_capacity_values() {
    let mut q: VecDeque<u64> = VecDeque::new();
    for v in 1..=4u64 {
        push_bounded(&mut q, 3, v);
    }
    let got: Vec<u64> = q.iter().copied().collect();
    // the oldest value is gone; the rest stand oldest-first
    assert_eq!(got, vec![2, 3, 4]);
    assert_eq!(q.len(), 3);
}

#[test]
fn length_never_exceeds_capacity() {
    let mut q: VecDeque<u64> = VecDeque::new();
    for v in 0..1000u64 {
        push_bounded(&mut q, 7, v);
        assert!(q.len() <= 7);
    }
    let got: Vec<u64> = q.iter().copied().collect();
    assert_eq!(got, vec![993, 994, 995, 996, 997, 998, 999]);
}

#[test]
fn capacity_one_keeps_only_the_newest() {
    let mut q: VecDeque<u64> = VecDeque::new();
    push_bounded(&mut q, 1, 10);
    push_bounded(&mut q, 1, 20);
    assert_eq!(q.len(), 1);
    assert_eq!(*q.front().unwrap(), 20);
}
