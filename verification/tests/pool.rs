use balancer::pool::BackendPool;

fn three_backends() -> BackendPool {
    let addrs = vec![
        "10.0.0.1".to_string(),
        "10.0.0.2".to_string(),
        "10.0.0.3".to_string(),
    ];
    BackendPool::new(addrs).expect("non-empty pool")
}

#[test]
fn empty_pool_is_rejected() {
    assert!(BackendPool::new(Vec::new()).is_none());
}

#[test]
fn singleton_pool_always_selects_the_only_backend() {
    let mut pool = BackendPool::new(vec!["10.0.0.9".to_string()]).unwrap();
    for _ in 0..5 {
        assert_eq!(pool.select_backend(), 0);
    }
}

#[test]
fn pool_reports_len_and_addresses() {
    let pool = three_backends();
    assert_eq!(pool.len(), 3);
    assert_eq!(pool.address(0), "10.0.0.1");
    assert_eq!(pool.address(2), "10.0.0.3");
}

#[test]
fn round_robin_walks_the_pool_in_order() {
    let mut pool = three_backends();
    let picks: Vec<usize> = (0..7).map(|_| pool.select_backend()).collect();
    assert_eq!(picks, vec![0, 1, 2, 0, 1, 2, 0]);
}

#[test]
fn no_backend_repeats_within_one_cycle() {
    let mut pool = three_backends();
    let first = pool.select_backend();
    let second = pool.select_backend();
    let third = pool.select_backend();
    assert!(first != second && second != third && first != third);
}

#[test]
fn selection_counts_stay_within_one_of_each_other() {
    let mut pool = three_backends();
    let mut counts = [0usize; 3];
    for _ in 0..8 {
        counts[pool.select_backend()] += 1;
    }
    // 8 dispatches over 3 backends: each picked 8/3 or 8/3 + 1 times
    assert_eq!(counts.iter().sum::<usize>(), 8);
    for &c in counts.iter() {
        assert!(c == 2 || c == 3);
    }
    assert_eq!(counts[0], 3);
    assert_eq!(counts[1], 3);
    assert_eq!(counts[2], 2);
}
