//! Expansion of one base key into a sorted set of nearby candidate keys.
use crate::bignum::{
    all_digits, decimal_of, decimal_val, is_digit, key_add, key_decimal_chars, key_le,
    key_mul_u64, key_of_u64, key_parse_decimal, key_sub, lemma_decimal_of_digits,
    string_of_chars, unsigned_body, Key,
};
use crate::rng::shuffle_chars;
use vstd::prelude::*;

verus! {

/// Small offsets added to and taken from the base.
pub open spec fn pattern_offsets() -> Seq<u64> {
    seq![1, 2, 3, 5, 8, 13, 21, 34, 55, 89]
}

/// Prime factors the base is multiplied by.
pub open spec fn pattern_factors() -> Seq<u64> {
    seq![2, 3, 5, 7, 11, 13]
}

/// The number read from the decimal digits of `b` in reverse order.
pub open spec fn digit_reversal(b: nat) -> nat {
    decimal_val(decimal_of(b).reverse())
}

/// The candidates that depend on the base alone: the base, its digit
/// reversal, the base plus and minus each offset (when not negative), and the
/// base times each factor.
pub open spec fn is_deterministic_pattern(b: nat, x: nat) -> bool {
    ||| x == b
    ||| x == digit_reversal(b)
    ||| exists|i: int| 0 <= i < 10 && x == b + #[trigger] pattern_offsets()[i]
    ||| exists|i: int|
        0 <= i < 10 && #[trigger] pattern_offsets()[i] <= b && x == b - pattern_offsets()[i]
    ||| exists|i: int| 0 <= i < 6 && x == b * #[trigger] pattern_factors()[i]
}

/// Whether `x` is read from some rearrangement of the decimal digits of `b`.
pub open spec fn is_digit_shuffle(b: nat, x: nat) -> bool {
    exists|p: Seq<char>| p.to_multiset() == decimal_of(b).to_multiset() && #[trigger] decimal_val(p) == x
}

/// Keys in strictly increasing order: sorted, with no value twice.
pub open spec fn strictly_ascending(s: Seq<Key>) -> bool {
    forall|i: int, j: int| 0 <= i < j < s.len() ==> s[i]@ < s[j]@
}

/// Whether one of the keys has the value `x`.
pub open spec fn holds_value(s: Seq<Key>, x: nat) -> bool {
    exists|i: int| 0 <= i < s.len() && s[i]@ == x
}

/// Adds `k` to a strictly ascending list unless its value is there already.
fn insert_sorted(out: &mut Vec<Key>, k: Key)
    requires
        strictly_ascending(old(out)@),
    ensures
        strictly_ascending(final(out)@),
        forall|x: nat| #[trigger]
            holds_value(final(out)@, x) <==> holds_value(old(out)@, x) || x == k@,
        final(out)@.len() <= old(out)@.len() + 1,
{
    let mut i: usize = 0;
    while i < out.len() && !key_le(&k, &out[i])
        invariant
            i <= out@.len(),
            out@ == old(out)@,
            strictly_ascending(out@),
            forall|j: int| 0 <= j < i ==> out@[j]@ < k@,
        decreases out@.len() - i,
    {
        i = i + 1;
    }
    if i < out.len() && key_le(&out[i], &k) {
        assert forall|x: nat| #[trigger]
            holds_value(out@, x) <==> holds_value(old(out)@, x) || x == k@ by {
            if x == k@ {
                assert(out@[i as int]@ == x);
            }
        }
        return;
    }
    let ghost before = out@;
    let ghost kv = k@;
    out.insert(i, k);
    assert(out@ == before.insert(i as int, k));
    assert forall|a: int, b: int| 0 <= a < b < out@.len() implies out@[a]@ < out@[b]@ by {
        if b < i {
        } else if b == i {
        } else if a < i {
            assert(before[a]@ < kv);
            assert(kv < before[i as int]@);
            assert(before[i as int]@ <= before[b - 1]@);
        } else if a == i {
            assert(kv < before[i as int]@);
            assert(before[i as int]@ <= before[b - 1]@);
        } else {
        }
    }
    assert forall|x: nat| #[trigger]
        holds_value(out@, x) <==> holds_value(before, x) || x == kv by {
        if holds_value(before, x) {
            let j = choose|j: int| 0 <= j < before.len() && before[j]@ == x;
            if j < i {
                assert(out@[j]@ == x);
            } else {
                assert(out@[j + 1]@ == x);
            }
        }
        if x == kv {
            assert(out@[i as int]@ == x);
        }
        if holds_value(out@, x) {
            let j = choose|j: int| 0 <= j < out@.len() && out@[j]@ == x;
            if j < i {
                assert(before[j]@ == x);
            } else if j > i {
                assert(before[j - 1]@ == x);
            }
        }
    }
}

/// The digits of `d`, in reverse order.
fn reversed_chars(d: &Vec<char>) -> (r: Vec<char>)
    ensures
        r@ == d@.reverse(),
{
    let mut r: Vec<char> = Vec::new();
    let mut i: usize = d.len();
    while i > 0
        invariant
            i <= d@.len(),
            r@ =~= Seq::new((d@.len() - i) as nat, |j: int| d@[d@.len() - 1 - j]),
        decreases i,
    {
        r.push(d[i - 1]);
        i = i - 1;
    }
    assert(r@ =~= d@.reverse());
    r
}

/// Reads a string of decimal digits as a key.
fn key_of_digits(d: &Vec<char>) -> (r: Key)
    requires
        d@.len() > 0,
        all_digits(d@),
    ensures
        r@ == decimal_val(d@),
{
    let text = string_of_chars(d);
    assert(is_digit(d@[0]));
    assert(unsigned_body(text@) == d@);
    match key_parse_decimal(text.as_str()) {
        Some(k) => k,
        None => {
            assert(false);
            key_of_u64(0)
        },
    }
}

/// Adds the base plus and minus each offset.
fn add_offset_patterns(base_key: &Key, out: &mut Vec<Key>)
    requires
        strictly_ascending(old(out)@),
        old(out)@.len() <= 2,
        forall|x: nat| #[trigger]
            holds_value(old(out)@, x) ==> is_deterministic_pattern(base_key@, x),
    ensures
        strictly_ascending(final(out)@),
        final(out)@.len() <= 22,
        forall|x: nat| #[trigger]
            holds_value(final(out)@, x) ==> is_deterministic_pattern(base_key@, x),
        forall|x: nat| holds_value(old(out)@, x) ==> #[trigger] holds_value(final(out)@, x),
        forall|j: int|
            0 <= j < 10 ==> holds_value(final(out)@, (base_key@ + #[trigger] pattern_offsets()[j]) as nat),
        forall|j: int|
            0 <= j < 10 && #[trigger] pattern_offsets()[j] <= base_key@ ==> holds_value(
                final(out)@,
                (base_key@ - pattern_offsets()[j]) as nat,
            ),
{
    let ghost b = base_key@;
    let offsets: [u64; 10] = [1, 2, 3, 5, 8, 13, 21, 34, 55, 89];
    assert(offsets@ =~= pattern_offsets());
    let mut i: usize = 0;
    while i < 10
        invariant
            i <= 10,
            out@.len() <= 2 + 2 * i,
            b == base_key@,
            offsets@ == pattern_offsets(),
            strictly_ascending(out@),
            forall|x: nat| #[trigger] holds_value(out@, x) ==> is_deterministic_pattern(b, x),
            forall|x: nat| holds_value(old(out)@, x) ==> #[trigger] holds_value(out@, x),
            forall|j: int|
                0 <= j < i ==> holds_value(out@, (b + #[trigger] pattern_offsets()[j]) as nat),
            forall|j: int|
                0 <= j < i && #[trigger] pattern_offsets()[j] <= b ==> holds_value(
                    out@,
                    (b - pattern_offsets()[j]) as nat,
                ),
        decreases 10 - i,
    {
        let ov = offsets[i];
        assert(ov == pattern_offsets()[i as int]);
        let o = key_of_u64(ov);
        let up = key_add(base_key, &o);
        assert(up@ == b + pattern_offsets()[i as int]);
        insert_sorted(out, up);
        if key_le(&o, base_key) {
            let down = key_sub(base_key, &o);
            assert(pattern_offsets()[i as int] <= b && down@ == b - pattern_offsets()[i as int]);
            insert_sorted(out, down);
        }
        i = i + 1;
    }
}

/// Adds the base times each factor.
fn add_factor_patterns(base_key: &Key, out: &mut Vec<Key>)
    requires
        strictly_ascending(old(out)@),
        old(out)@.len() <= 22,
        forall|x: nat| #[trigger]
            holds_value(old(out)@, x) ==> is_deterministic_pattern(base_key@, x),
    ensures
        strictly_ascending(final(out)@),
        final(out)@.len() <= 28,
        forall|x: nat| #[trigger]
            holds_value(final(out)@, x) ==> is_deterministic_pattern(base_key@, x),
        forall|x: nat| holds_value(old(out)@, x) ==> #[trigger] holds_value(final(out)@, x),
        forall|j: int|
            0 <= j < 6 ==> holds_value(final(out)@, (base_key@ * #[trigger] pattern_factors()[j]) as nat),
{
    let ghost b = base_key@;
    let factors: [u64; 6] = [2, 3, 5, 7, 11, 13];
    assert(factors@ =~= pattern_factors());
    let mut i: usize = 0;
    while i < 6
        invariant
            i <= 6,
            out@.len() <= 22 + i,
            b == base_key@,
            factors@ == pattern_factors(),
            strictly_ascending(out@),
            forall|x: nat| #[trigger] holds_value(out@, x) ==> is_deterministic_pattern(b, x),
            forall|x: nat| holds_value(old(out)@, x) ==> #[trigger] holds_value(out@, x),
            forall|j: int|
                0 <= j < i ==> holds_value(out@, (b * #[trigger] pattern_factors()[j]) as nat),
        decreases 6 - i,
    {
        let fv = factors[i];
        assert(fv == pattern_factors()[i as int]);
        let m = key_mul_u64(base_key, fv);
        assert(m@ == b * (fv as nat));
        assert(m@ == b * pattern_factors()[i as int]);
        insert_sorted(out, m);
        i = i + 1;
    }
}

/// Expands a base key into nearby candidates, returned in strictly ascending
/// order: every deterministic pattern of the base, and the values read from a
/// few random rearrangements of its decimal digits.
pub fn generate_key_patterns(base_key: &Key) -> (r: Vec<Key>)
    ensures
        is_pattern_expansion(base_key@, r@),
        r@.len() <= 31,
{
    let ghost b = base_key@;
    let mut out: Vec<Key> = Vec::new();
    insert_sorted(&mut out, base_key.clone());
    let mut digits = key_decimal_chars(base_key);
    proof {
        lemma_decimal_of_digits(b);
    }
    let rev = reversed_chars(&digits);
    assert forall|i: int| 0 <= i < rev@.len() implies is_digit(#[trigger] rev@[i]) by {
        assert(rev@[i] == digits@[digits@.len() - 1 - i]);
    }
    insert_sorted(&mut out, key_of_digits(&rev));
    assert(holds_value(out@, b));
    add_offset_patterns(base_key, &mut out);
    add_factor_patterns(base_key, &mut out);
    assert forall|x: nat| is_deterministic_pattern(b, x) implies #[trigger] holds_value(
        out@,
        x,
    ) by {
        if exists|i: int| 0 <= i < 10 && x == b + #[trigger] pattern_offsets()[i] {
            let i = choose|i: int| 0 <= i < 10 && x == b + #[trigger] pattern_offsets()[i];
            assert(holds_value(out@, (b + pattern_offsets()[i]) as nat));
        } else if exists|i: int|
            0 <= i < 10 && #[trigger] pattern_offsets()[i] <= b && x == b - pattern_offsets()[i] {
            let i = choose|i: int|
                0 <= i < 10 && #[trigger] pattern_offsets()[i] <= b && x == b
                    - pattern_offsets()[i];
            assert(holds_value(out@, (b - pattern_offsets()[i]) as nat));
        } else if exists|i: int| 0 <= i < 6 && x == b * #[trigger] pattern_factors()[i] {
            let i = choose|i: int| 0 <= i < 6 && x == b * #[trigger] pattern_factors()[i];
            assert(holds_value(out@, (b * pattern_factors()[i]) as nat));
        }
    }
    let shuffles: usize = if digits.len() - 1 < 3 {
        digits.len() - 1
    } else {
        3
    };
    let mut n: usize = 0;
    while n < shuffles
        invariant
            n <= shuffles,
            shuffles <= 3,
            out@.len() <= 28 + n,
            b == base_key@,
            digits@.to_multiset() == decimal_of(b).to_multiset(),
            digits@.len() == decimal_of(b).len(),
            all_digits(decimal_of(b)),
            strictly_ascending(out@),
            forall|x: nat| #[trigger]
                holds_value(out@, x) ==> is_deterministic_pattern(b, x) || is_digit_shuffle(b, x),
            forall|x: nat| is_deterministic_pattern(b, x) ==> #[trigger] holds_value(out@, x),
        decreases shuffles - n,
    {
        shuffle_chars(&mut digits);
        assert forall|i: int| 0 <= i < digits@.len() implies is_digit(#[trigger] digits@[i]) by {
            broadcast use vstd::seq_lib::group_to_multiset_ensures;

            assert(digits@.contains(digits@[i]));
            assert(decimal_of(b).to_multiset().count(digits@[i]) > 0);
            assert(decimal_of(b).contains(digits@[i]));
        }
        let k = key_of_digits(&digits);
        assert(is_digit_shuffle(b, k@));
        insert_sorted(&mut out, k);
        n = n + 1;
    }
    assert forall|i: int| 0 <= i < out@.len() implies is_deterministic_pattern(
        b,
        (#[trigger] out@[i])@,
    ) || is_digit_shuffle(b, out@[i]@) by {
        assert(holds_value(out@, out@[i]@));
    }
    out
}

/// What `generate_key_patterns` promises of its result for a base `b`.
pub open spec fn is_pattern_expansion(b: nat, r: Seq<Key>) -> bool {
    &&& strictly_ascending(r)
    &&& forall|x: nat| is_deterministic_pattern(b, x) ==> #[trigger] holds_value(r, x)
    &&& forall|i: int|
        0 <= i < r.len() ==> is_deterministic_pattern(b, (#[trigger] r[i])@)
            || is_digit_shuffle(b, r[i]@)
}

/// Two expansions of the same base agree on their deterministic part: each
/// holds exactly the deterministic patterns of the base among its values.
pub proof fn lemma_deterministic_part_repeatable(b: nat, r1: Seq<Key>, r2: Seq<Key>)
    requires
        is_pattern_expansion(b, r1),
        is_pattern_expansion(b, r2),
    ensures
        forall|x: nat|
            is_deterministic_pattern(b, x) ==> (#[trigger] holds_value(r1, x) && holds_value(
                r2,
                x,
            )),
        forall|x: nat|
            (#[trigger] holds_value(r1, x) && is_deterministic_pattern(b, x)) <==> (holds_value(
                r2,
                x,
            ) && is_deterministic_pattern(b, x)),
{
}

/// An expansion holds no value twice.
pub proof fn lemma_patterns_distinct(b: nat, r: Seq<Key>)
    requires
        is_pattern_expansion(b, r),
    ensures
        forall|i: int, j: int| 0 <= i < r.len() && 0 <= j < r.len() && i != j ==> r[i]@ != r[j]@,
{
}

} // verus!
