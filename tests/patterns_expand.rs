use keyhunt::bignum::Key;
use keyhunt::patterns::generate_key_patterns;

fn values(base: u64) -> Vec<u64> {
    generate_key_patterns(&Key::from_u64(base)).iter().map(|k| k.to_u64().unwrap()).collect()
}

const DETERMINISTIC_100: [u64; 27] = [
    1, 11, 45, 66, 79, 87, 92, 95, 97, 98, 99, 100, 101, 102, 103, 105, 108, 113, 121, 134, 155,
    189, 200, 300, 500, 700, 1100,
];

#[test]
fn base_hundred_holds_its_deterministic_patterns() {
    let v = values(100);
    for x in DETERMINISTIC_100.iter() {
        assert!(v.contains(x), "missing {}", x);
    }
    assert!(v.contains(&1300));
}

#[test]
fn deterministic_part_repeats() {
    let det = |v: &Vec<u64>| -> Vec<u64> {
        v.iter().copied().filter(|x| DETERMINISTIC_100.contains(x) || *x == 1300).collect()
    };
    let a = values(100);
    let b = values(100);
    assert_eq!(det(&a), det(&b));
}

#[test]
fn patterns_sorted_without_duplicates() {
    for base in [0u64, 1, 9, 10, 100, 12345, 98765432] {
        let v = values(base);
        for w in v.windows(2) {
            assert!(w[0] < w[1]);
        }
    }
}

#[test]
fn subtraction_stops_at_zero() {
    let v = values(3);
    assert!(v.contains(&0));
    assert!(v.contains(&1));
    assert!(v.contains(&2));
    assert!(v.contains(&92));
    assert!(v.contains(&39));
}

#[test]
fn zero_base_patterns() {
    let v = values(0);
    assert_eq!(v, vec![0, 1, 2, 3, 5, 8, 13, 21, 34, 55, 89]);
}

#[test]
fn shuffles_are_digit_rearrangements() {
    let v = values(1234567);
    let mut digits: Vec<char> = "1234567".chars().collect();
    digits.sort();
    let mut extra = 0;
    for x in v.iter() {
        let mut d: Vec<char> = x.to_string().chars().collect();
        d.sort();
        if d == digits && *x != 1234567 && *x != 7654321 {
            extra += 1;
        }
    }
    assert!(extra <= 3);
    assert!(v.len() <= 31);
}

#[test]
fn reversal_drops_leading_zeros() {
    let v = values(1200);
    assert!(v.contains(&21));
}
