use keyhunt::bignum::Key;
use keyhunt::checkpoint::{checkpoint_text, restore_cursor, CheckpointStore};
use keyhunt::partition::Partition;

fn part(id: usize, start: u64, end: u64) -> Partition {
    Partition { id, start: Key::from_u64(start), stop: Key::from_u64(end + 1) }
}

#[test]
fn text_is_decimal() {
    assert_eq!(checkpoint_text(&Key::from_u64(12345)), "12345");
    assert_eq!(checkpoint_text(&Key::from_u64(0)), "0");
}

#[test]
fn save_then_load_round_trips() {
    let mut store = CheckpointStore::new();
    let p = part(2, 100, 200);
    store.save(2, &Key::from_u64(150));
    assert_eq!(store.load(&p).to_u64(), Some(150));
}

#[test]
fn last_save_wins() {
    let mut store = CheckpointStore::new();
    let p = part(0, 100, 200);
    store.save(0, &Key::from_u64(150));
    store.save(0, &Key::from_u64(160));
    assert_eq!(store.load(&p).to_u64(), Some(160));
}

#[test]
fn never_saved_loads_start() {
    let mut store = CheckpointStore::new();
    store.save(1, &Key::from_u64(150));
    let p = part(3, 100, 200);
    assert_eq!(store.load(&p).to_u64(), Some(100));
}

#[test]
fn out_of_bounds_record_loads_start() {
    let mut store = CheckpointStore::new();
    let p = part(0, 100, 200);
    store.save(0, &Key::from_u64(201));
    assert_eq!(store.load(&p).to_u64(), Some(100));
    store.save(0, &Key::from_u64(99));
    assert_eq!(store.load(&p).to_u64(), Some(100));
    store.save(0, &Key::from_u64(200));
    assert_eq!(store.load(&p).to_u64(), Some(200));
}

#[test]
fn unreadable_record_loads_start() {
    let p = part(0, 100, 200);
    assert_eq!(restore_cursor(Some("12x"), &p).to_u64(), Some(100));
    assert_eq!(restore_cursor(Some(""), &p).to_u64(), Some(100));
    assert_eq!(restore_cursor(None, &p).to_u64(), Some(100));
    assert_eq!(restore_cursor(Some("150"), &p).to_u64(), Some(150));
    assert_eq!(restore_cursor(Some("+150"), &p).to_u64(), Some(150));
}
