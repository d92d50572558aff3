use std::collections::VecDeque;

use lab_suite::monitor::{fmt_uptime, passes, push_sample, row_order, SortCol, SortState, MAX_SAMPLES};
use lab_suite::text::{contains_text, needle};

#[test]
fn uptime_reads_in_days_hours_minutes() {
    assert_eq!(fmt_uptime(0), "0d 0h 0m");
    assert_eq!(fmt_uptime(90061), "1d 1h 1m");
    assert_eq!(fmt_uptime(86399), "0d 23h 59m");
}

#[test]
fn sorting_toggles() {
    let mut s = SortState { col: SortCol::Name, desc: false };
    s.toggle_sort(SortCol::Name);
    assert!(s.desc);
    s.toggle_sort(SortCol::Name);
    assert!(!s.desc);
    s.toggle_sort(SortCol::Cpu);
    assert_eq!(s, SortState { col: SortCol::Cpu, desc: true });
    s.toggle_sort(SortCol::Name);
    assert_eq!(s, SortState { col: SortCol::Name, desc: false });
}

#[test]
fn history_is_bounded() {
    let mut h: VecDeque<u32> = VecDeque::new();
    for i in 0..(MAX_SAMPLES as u32 + 5) {
        push_sample(&mut h, i);
    }
    assert_eq!(h.len(), MAX_SAMPLES);
    assert_eq!(h[0], 5);
    assert_eq!(*h.back().unwrap(), MAX_SAMPLES as u32 + 4);
}

#[test]
fn process_filter() {
    let n = needle("  FireFox ");
    assert_eq!(n, "firefox");
    assert!(passes(&n, "Firefox-bin", 10));
    assert!(!passes(&n, "chrome", 10));
    assert!(passes("42", "x", 1423));
    assert!(passes("", "anything", 1));
    assert!(contains_text("abc", ""));
    assert!(!contains_text("ab", "abc"));
}

#[test]
fn row_order_sorts_by_column_and_reverses_when_descending() {
    let names: Vec<String> = vec!["sshd".into(), "bash".into(), "Xorg".into(), "bash".into()];
    let pids: Vec<u64> = vec![40, 7, 300, 12];
    let mems: Vec<u64> = vec![500, 100, 900, 100];
    assert_eq!(row_order(SortCol::Name, false, &names, &pids, &mems), Some(vec![2, 1, 3, 0]));
    assert_eq!(row_order(SortCol::Name, true, &names, &pids, &mems), Some(vec![0, 3, 1, 2]));
    assert_eq!(row_order(SortCol::Pid, false, &names, &pids, &mems), Some(vec![1, 3, 0, 2]));
    assert_eq!(row_order(SortCol::Mem, false, &names, &pids, &mems), Some(vec![1, 3, 0, 2]));
    assert_eq!(row_order(SortCol::Mem, true, &names, &pids, &mems), Some(vec![2, 0, 3, 1]));
    assert_eq!(row_order(SortCol::Cpu, true, &names, &pids, &mems), None);
}

#[test]
fn order_by_number_is_stable() {
    let keys: Vec<u64> = vec![3, 1, 3, 0, u64::MAX, 1];
    assert_eq!(lab_suite::order::order_by_number(&keys), vec![3, 1, 5, 0, 2, 4]);
    assert_eq!(lab_suite::order::reversed(vec![3, 1, 5]), vec![5, 1, 3]);
}
