use keyhunt::bignum::Key;
use keyhunt::partition::Partition;
use keyhunt::worker::{Lane, SearchMode, Worker, WorkerConfig};

fn part(start: u64, end: u64) -> Partition {
    Partition { id: 0, start: Key::from_u64(start), stop: Key::from_u64(end + 1) }
}

fn config(mode: SearchMode) -> WorkerConfig {
    WorkerConfig {
        mode,
        lane: Lane::Direct,
        batch_size: 4,
        switch_interval: 3,
        subinterval_ppm: 100_000,
        stop_on_find: true,
        checkpoint_interval: 2,
        smart_jump: true,
        wrap_around: true,
    }
}

fn val(k: &Key) -> u64 {
    k.to_u64().unwrap()
}

#[test]
fn sequential_walks_and_wraps() {
    let mut w = Worker::new(part(10, 12), config(SearchMode::Sequential), Key::from_u64(11), 7);
    let mut seen = Vec::new();
    for _ in 0..4 {
        let c = w.next_candidates();
        assert_eq!(c.len(), 1);
        seen.push(val(&c[0]));
        w.advance(1);
    }
    assert_eq!(seen, vec![11, 12, 10, 11]);
}

#[test]
fn sequential_without_wrap_finishes() {
    let mut cfg = config(SearchMode::Sequential);
    cfg.wrap_around = false;
    let mut w = Worker::new(part(10, 11), cfg, Key::from_u64(10), 7);
    assert!(!w.is_finished(false));
    w.next_candidates();
    w.advance(1);
    assert!(!w.is_finished(false));
    w.next_candidates();
    w.advance(1);
    assert!(w.is_finished(false));
    assert_eq!(val(&w.cursor), 12);
}

#[test]
fn resume_outside_partition_starts_over() {
    let w = Worker::new(part(10, 20), config(SearchMode::Sequential), Key::from_u64(21), 1);
    assert_eq!(val(&w.cursor), 10);
    let w = Worker::new(part(10, 20), config(SearchMode::Sequential), Key::from_u64(20), 1);
    assert_eq!(val(&w.cursor), 20);
}

#[test]
fn found_flag_stops_worker() {
    let w = Worker::new(part(0, 100), config(SearchMode::Random), Key::from_u64(0), 1);
    assert!(w.is_finished(true));
    assert!(!w.is_finished(false));
    let mut cfg = config(SearchMode::Random);
    cfg.stop_on_find = false;
    let w = Worker::new(part(0, 100), cfg, Key::from_u64(0), 1);
    assert!(!w.is_finished(true));
}

#[test]
fn checkpoint_due_after_interval() {
    let mut w = Worker::new(part(0, 100), config(SearchMode::Sequential), Key::from_u64(0), 1);
    assert!(!w.advance(1));
    assert!(w.advance(1));
    assert_eq!(w.since_checkpoint, 0);
    assert_eq!(val(&w.cursor), 2);
}

#[test]
fn kangaroo_strides_by_a_thousandth() {
    let mut w = Worker::new(part(0, 9999), config(SearchMode::Kangaroo), Key::from_u64(0), 1);
    w.advance(1);
    assert_eq!(val(&w.cursor), 10);
    let mut w = Worker::new(part(0, 9999), config(SearchMode::Kangaroo), Key::from_u64(9995), 1);
    w.advance(1);
    assert_eq!(val(&w.cursor), 0);
    let mut w = Worker::new(part(5, 14), config(SearchMode::Kangaroo), Key::from_u64(5), 1);
    w.advance(1);
    assert_eq!(val(&w.cursor), 6);
}

#[test]
fn random_stays_in_sub_interval() {
    let mut w = Worker::new(part(1000, 1999), config(SearchMode::Random), Key::from_u64(1000), 42);
    assert_eq!(val(&w.sub_width), 100);
    for _ in 0..50 {
        let lo = val(&w.sub_start);
        let c = w.next_candidates();
        assert_eq!(c.len(), 1);
        let x = val(&c[0]);
        assert!(lo <= x && x < lo + 100);
        w.advance(1);
        assert!(val(&w.sub_start) >= 1000 && val(&w.sub_start) + 100 <= 2000);
    }
}

#[test]
fn smart_batch_stays_below_end() {
    let mut w = Worker::new(part(100, 150), config(SearchMode::Smart), Key::from_u64(120), 9);
    for _ in 0..10 {
        let c = w.next_candidates();
        assert!(!c.is_empty());
        assert!(c.len() <= 31);
        for k in c.iter() {
            assert!(val(k) <= 150);
        }
        w.advance(c.len() as u64);
        let cur = val(&w.cursor);
        assert!((100..=150).contains(&cur));
    }
}

#[test]
fn smart_alternates_random_and_cursor_base() {
    let mut w = Worker::new(part(100, 10_000), config(SearchMode::Smart), Key::from_u64(500), 9);
    assert!(w.random_turn);
    w.next_candidates();
    assert!(!w.random_turn);
    let c = w.next_candidates();
    let vals: Vec<u64> = c.iter().map(val).collect();
    assert!(vals.contains(&500) && vals.contains(&501) && vals.contains(&1000));
}

#[test]
fn batched_lane_draws_a_full_batch() {
    let mut cfg = config(SearchMode::Sequential);
    cfg.lane = Lane::Batched;
    let mut w = Worker::new(part(50, 60), cfg, Key::from_u64(50), 3);
    let c = w.next_candidates();
    assert_eq!(c.len(), 4);
    for k in c.iter() {
        assert!((50..=60).contains(&val(k)));
    }
    w.advance(4);
    assert_eq!(val(&w.cursor), 50);
}
