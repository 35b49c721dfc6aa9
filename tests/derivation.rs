use keyhunt::bignum::Key;
use keyhunt::derive::derive_addresses;
use keyhunt::supervisor::parse_big_int;

#[test]
fn key_one_addresses() {
    let a = derive_addresses(&Key::from_u64(1));
    assert_eq!(a, vec!["1BgGZ9tcN4rm9KBzDn7KprQz87SZ26SAMH".to_string(), "1EHNa6Q4Jz2uvNExL497mE43ikXhwF6kZm".to_string()]);
}

#[test]
fn zero_has_no_addresses() {
    assert!(derive_addresses(&Key::from_u64(0)).is_empty());
}

#[test]
fn group_order_and_beyond_have_no_addresses() {
    let n = parse_big_int("0xFFFFFFFFFFFFFFFFFFFFFFFFFFFFFFFEBAAEDCE6AF48A03BBFD25E8CD0364141").unwrap();
    assert!(derive_addresses(&n).is_empty());
    let below = parse_big_int("0xFFFFFFFFFFFFFFFFFFFFFFFFFFFFFFFEBAAEDCE6AF48A03BBFD25E8CD0364140").unwrap();
    assert_eq!(derive_addresses(&below).len(), 2);
    let huge = parse_big_int("0x1000000000000000000000000000000000000000000000000000000000000000000").unwrap();
    assert!(derive_addresses(&huge).is_empty());
}

#[test]
fn fast_rng_sequence() {
    let mut r = keyhunt::rng::FastRng::new(0);
    assert_eq!(r.next(), 1);
    assert_eq!(r.next(), 6364136223846793006);
    let mut r = keyhunt::rng::FastRng::new(0);
    assert_eq!(r.gen_range(5, 5), 5);
    assert_eq!(r.state, 0);
    assert_eq!(r.gen_range(10, 13), 11);
}
