use tile_server::dispatch::{Dispatcher, worker_pool_size};

#[test]
fn assignments_follow_round_robin() {
    let mut d = Dispatcher::new(3);
    let mut got = Vec::new();
    for _ in 0..7 {
        got.push(d.assign());
    }
    assert_eq!(got, vec![0, 1, 2, 0, 1, 2, 0]);
}

#[test]
fn seven_connections_over_three_workers_split_three_two_two() {
    let mut d = Dispatcher::new(3);
    let mut counts = [0usize; 3];
    for _ in 0..7 {
        counts[d.assign()] += 1;
    }
    assert_eq!(counts, [3, 2, 2]);
}

#[test]
fn even_load_splits_exactly() {
    let mut d = Dispatcher::new(4);
    let mut counts = [0usize; 4];
    for _ in 0..12 {
        counts[d.assign()] += 1;
    }
    assert_eq!(counts, [3, 3, 3, 3]);
}

#[test]
fn single_worker_takes_everything() {
    let mut d = Dispatcher::new(1);
    for _ in 0..5 {
        assert_eq!(d.assign(), 0);
    }
}

#[test]
fn pool_size_is_at_least_one() {
    assert!(worker_pool_size() >= 1);
}
