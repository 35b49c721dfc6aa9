use keyhunt::bignum::Key;
use keyhunt::partition::{partition_range, ConfigError};

fn val(k: &Key) -> u64 {
    k.to_u64().unwrap()
}

fn bounds(start: u64, end: u64, k: usize) -> Vec<(u64, u64)> {
    let parts = partition_range(&Key::from_u64(start), &Key::from_u64(end), k).unwrap();
    parts.iter().map(|p| (val(&p.start), val(&p.stop) - 1)).collect()
}

#[test]
fn four_even_partitions() {
    assert_eq!(bounds(1, 100, 4), vec![(1, 25), (26, 50), (51, 75), (76, 100)]);
}

#[test]
fn last_partition_takes_remainder() {
    assert_eq!(bounds(1, 10, 4), vec![(1, 2), (3, 4), (5, 6), (7, 10)]);
}

#[test]
fn single_partition_is_whole_range() {
    assert_eq!(bounds(7, 7, 1), vec![(7, 7)]);
}

#[test]
fn partition_ids_count_up() {
    let parts = partition_range(&Key::from_u64(0), &Key::from_u64(99), 3).unwrap();
    let ids: Vec<usize> = parts.iter().map(|p| p.id).collect();
    assert_eq!(ids, vec![0, 1, 2]);
}

#[test]
fn more_partitions_than_keys_leaves_empty_ones() {
    let parts = partition_range(&Key::from_u64(0), &Key::from_u64(1), 3).unwrap();
    let spans: Vec<(u64, u64)> = parts.iter().map(|p| (val(&p.start), val(&p.stop))).collect();
    assert_eq!(spans, vec![(0, 0), (0, 0), (0, 2)]);
}

#[test]
fn partitions_cover_range_without_overlap() {
    let parts = partition_range(&Key::from_u64(1000), &Key::from_u64(2356), 7).unwrap();
    assert_eq!(val(&parts[0].start), 1000);
    for w in parts.windows(2) {
        assert_eq!(val(&w[0].stop), val(&w[1].start));
    }
    assert_eq!(val(&parts[6].stop), 2357);
}

#[test]
fn zero_partitions_is_an_error() {
    let r = partition_range(&Key::from_u64(1), &Key::from_u64(10), 0);
    assert!(matches!(r, Err(ConfigError::ZeroPartitions)));
}

#[test]
fn inverted_range_is_an_error() {
    let r = partition_range(&Key::from_u64(11), &Key::from_u64(10), 2);
    assert!(matches!(r, Err(ConfigError::InvertedRange)));
}

#[test]
fn wide_range_beyond_sixty_four_bits() {
    let start = keyhunt::supervisor::parse_big_int("0x20000000000000000").unwrap();
    let end = keyhunt::supervisor::parse_big_int("0x3ffffffffffffffff").unwrap();
    let parts = partition_range(&start, &end, 2).unwrap();
    let mid = keyhunt::supervisor::parse_big_int("0x30000000000000000").unwrap();
    assert!(parts[0].stop.le(&mid) && mid.le(&parts[0].stop));
    assert!(parts[1].start.le(&mid) && mid.le(&parts[1].start));
    assert_eq!(keyhunt::checkpoint::checkpoint_text(&parts[1].stop), "73786976294838206464");
}
