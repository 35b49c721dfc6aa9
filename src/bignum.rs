//! Arbitrary-precision unsigned keys, held as little-endian bytes, with their
//! arithmetic carried out by `ibig`.
use ibig::UBig;
use vstd::prelude::*;

verus! {

/// Value of a little-endian byte sequence.
pub open spec fn le_val(s: Seq<u8>) -> nat
    decreases s.len(),
{
    if s.len() == 0 {
        0
    } else {
        s[0] as nat + 256 * le_val(s.drop_first())
    }
}

/// A candidate key: an unsigned integer of any size.
pub struct Key {
    pub bytes: Vec<u8>,
}

impl View for Key {
    type V = nat;

    open spec fn view(&self) -> nat {
        le_val(self.bytes@)
    }
}

/// Value of a decimal digit character.
pub open spec fn digit_val(c: char) -> nat {
    ((c as u32) - ('0' as u32)) as nat
}

/// The character of a decimal digit `d < 10`.
pub open spec fn digit_char(d: nat) -> char {
    seq!['0', '1', '2', '3', '4', '5', '6', '7', '8', '9'][d as int]
}

pub open spec fn is_digit(c: char) -> bool {
    '0' <= c && c <= '9'
}

pub open spec fn all_digits(s: Seq<char>) -> bool {
    forall|i: int| 0 <= i < s.len() ==> is_digit(#[trigger] s[i])
}

/// Value of a string of decimal digits, most significant first.
pub open spec fn decimal_val(s: Seq<char>) -> nat
    decreases s.len(),
{
    if s.len() == 0 {
        0
    } else {
        decimal_val(s.drop_last()) * 10 + digit_val(s.last())
    }
}

/// Canonical decimal text of `n`: no leading zero, and "0" for zero.
pub open spec fn decimal_of(n: nat) -> Seq<char>
    decreases n,
{
    if n < 10 {
        seq![digit_char(n)]
    } else {
        decimal_of(n / 10).push(digit_char(n % 10))
    }
}

/// The digits that `UBig::from_str` reads: the text without one leading `+`.
pub open spec fn unsigned_body(s: Seq<char>) -> Seq<char> {
    if s.len() > 0 && s[0] == '+' {
        s.drop_first()
    } else {
        s
    }
}

/// Whether `UBig::from_str` accepts the text.
pub open spec fn parses_decimal(s: Seq<char>) -> bool {
    unsigned_body(s).len() > 0 && all_digits(unsigned_body(s))
}

pub open spec fn is_hex_digit(c: char) -> bool {
    ('0' <= c && c <= '9') || ('a' <= c && c <= 'f') || ('A' <= c && c <= 'F')
}

pub open spec fn hex_digit_val(c: char) -> nat {
    if '0' <= c && c <= '9' {
        ((c as u32) - ('0' as u32)) as nat
    } else if 'a' <= c && c <= 'f' {
        ((c as u32) - ('a' as u32) + 10) as nat
    } else {
        ((c as u32) - ('A' as u32) + 10) as nat
    }
}

/// Value of a string of hexadecimal digits, most significant first.
pub open spec fn hex_val(s: Seq<char>) -> nat
    decreases s.len(),
{
    if s.len() == 0 {
        0
    } else {
        hex_val(s.drop_last()) * 16 + hex_digit_val(s.last())
    }
}

/// Whether `UBig::from_str_radix(_, 16)` accepts the text.
pub open spec fn parses_hex(s: Seq<char>) -> bool {
    unsigned_body(s).len() > 0 && forall|i: int|
        0 <= i < unsigned_body(s).len() ==> is_hex_digit(#[trigger] unsigned_body(s)[i])
}

impl Key {
    pub fn from_u64(x: u64) -> (r: Key)
        ensures
            r@ == x as nat,
    {
        key_of_u64(x)
    }

    /// The value, when it fits in 64 bits.
    pub fn to_u64(&self) -> (r: Option<u64>)
        ensures
            r.is_some() <==> self@ <= u64::MAX,
            r.is_some() ==> r.unwrap() as nat == self@,
    {
        key_to_u64(self)
    }

    /// Numeric order of two keys.
    pub fn le(&self, other: &Key) -> (r: bool)
        ensures
            r == (self@ <= other@),
    {
        key_le(self, other)
    }
}

impl Clone for Key {
    fn clone(&self) -> (r: Self)
        ensures
            r@ == self@,
    {
        let bytes = self.bytes.clone();
        proof {
            broadcast use vstd::std_specs::vec::vec_clone_deep_view_proof;
            assert(bytes@ =~= self.bytes@);
        }
        Key { bytes }
    }
}

/// The decimal text of a number is one or more digits.
pub proof fn lemma_decimal_of_digits(n: nat)
    ensures
        decimal_of(n).len() > 0,
        all_digits(decimal_of(n)),
    decreases n,
{
    if n >= 10 {
        lemma_decimal_of_digits(n / 10);
        let s = decimal_of(n / 10).push(digit_char(n % 10));
        assert forall|i: int| 0 <= i < s.len() implies is_digit(#[trigger] s[i]) by {
            if i < s.len() - 1 {
                assert(s[i] == decimal_of(n / 10)[i]);
            }
        }
    }
}

/// Reading the decimal text of a number gives the number back.
pub proof fn lemma_decimal_round_trip(n: nat)
    ensures
        decimal_val(decimal_of(n)) == n,
        parses_decimal(decimal_of(n)),
        unsigned_body(decimal_of(n)) == decimal_of(n),
    decreases n,
{
    lemma_decimal_of_digits(n);
    assert(is_digit(decimal_of(n)[0]));
    if n < 10 {
        assert(decimal_of(n).drop_last() =~= Seq::<char>::empty());
        assert(digit_val(digit_char(n)) == n) by {
            assert(seq!['0', '1', '2', '3', '4', '5', '6', '7', '8', '9'][n as int] == digit_char(n));
            if n == 0 {} else if n == 1 {} else if n == 2 {} else if n == 3 {} else if n == 4 {}
            else if n == 5 {} else if n == 6 {} else if n == 7 {} else if n == 8 {} else {}
        }
        assert(decimal_of(n).last() == digit_char(n));
        assert(decimal_val(decimal_of(n)) == decimal_val(Seq::<char>::empty()) * 10 + digit_val(
            digit_char(n),
        ));
    } else {
        lemma_decimal_round_trip(n / 10);
        let d = n % 10;
        assert(decimal_of(n).drop_last() =~= decimal_of(n / 10));
        assert(decimal_of(n).last() == digit_char(d));
        vstd::arithmetic::div_mod::lemma_fundamental_div_mod(n as int, 10);
        assert(decimal_val(decimal_of(n)) == decimal_val(decimal_of(n / 10)) * 10 + digit_val(
            digit_char(d),
        ));
        assert(digit_val(digit_char(d)) == d) by {
            if d == 0 {} else if d == 1 {} else if d == 2 {} else if d == 3 {} else if d == 4 {}
            else if d == 5 {} else if d == 6 {} else if d == 7 {} else if d == 8 {} else {}
        }
    }
}

/// Relies on `Iterator::collect` into a `String`: the same characters.
#[verifier::external_body]
pub(crate) fn string_of_chars(v: &Vec<char>) -> (r: String)
    ensures
        r@ == v@,
{
    v.iter().collect()
}

/// Relies on `UBig::from_le_bytes`, `UBig + UBig` and `UBig::to_le_bytes`: exact addition.
#[verifier::external_body]
pub(crate) fn key_add(a: &Key, b: &Key) -> (r: Key)
    ensures
        r@ == a@ + b@,
{
    let x = UBig::from_le_bytes(&a.bytes) + UBig::from_le_bytes(&b.bytes);
    Key { bytes: x.to_le_bytes() }
}

/// Relies on `UBig - UBig`, exact when the result is not negative (it panics otherwise).
#[verifier::external_body]
pub(crate) fn key_sub(a: &Key, b: &Key) -> (r: Key)
    requires
        b@ <= a@,
    ensures
        r@ == a@ - b@,
{
    let x = UBig::from_le_bytes(&a.bytes) - UBig::from_le_bytes(&b.bytes);
    Key { bytes: x.to_le_bytes() }
}

/// Relies on `UBig * u64`: exact multiplication.
#[verifier::external_body]
pub(crate) fn key_mul_u64(a: &Key, m: u64) -> (r: Key)
    ensures
        r@ == a@ * m,
{
    let x = UBig::from_le_bytes(&a.bytes) * m;
    Key { bytes: x.to_le_bytes() }
}

/// Relies on `UBig / u64`: division rounding down, panicking on a zero divisor.
#[verifier::external_body]
pub(crate) fn key_div_u64(a: &Key, d: u64) -> (r: Key)
    requires
        d > 0,
    ensures
        r@ == a@ / (d as nat),
{
    let x = UBig::from_le_bytes(&a.bytes) / d;
    Key { bytes: x.to_le_bytes() }
}

/// Relies on `UBig <= UBig`: numeric comparison.
#[verifier::external_body]
pub(crate) fn key_le(a: &Key, b: &Key) -> (r: bool)
    ensures
        r == (a@ <= b@),
{
    UBig::from_le_bytes(&a.bytes) <= UBig::from_le_bytes(&b.bytes)
}

/// Relies on `UBig::to_be_bytes`: the value's bytes, most significant first,
/// with no leading zero byte (none at all for zero).
#[verifier::external_body]
pub(crate) fn key_be_bytes(a: &Key) -> (r: Vec<u8>)
    ensures
        crate::derive::be_val(r@) == a@,
        r@.len() > 0 ==> r@[0] != 0,
{
    UBig::from_le_bytes(&a.bytes).to_be_bytes()
}

/// Relies on `UBig::from(u64)`: the same value.
#[verifier::external_body]
pub(crate) fn key_of_u64(x: u64) -> (r: Key)
    ensures
        r@ == x as nat,
{
    Key { bytes: UBig::from(x).to_le_bytes() }
}

/// Relies on `u64::try_from(&UBig)`: the value when it fits in 64 bits, an error otherwise.
#[verifier::external_body]
pub(crate) fn key_to_u64(a: &Key) -> (r: Option<u64>)
    ensures
        r.is_some() <==> a@ <= u64::MAX,
        r.is_some() ==> r.unwrap() as nat == a@,
{
    u64::try_from(&UBig::from_le_bytes(&a.bytes)).ok()
}

/// Relies on `UBig`'s `Display`: canonical decimal text.
#[verifier::external_body]
pub(crate) fn key_decimal_chars(a: &Key) -> (r: Vec<char>)
    ensures
        r@ == decimal_of(a@),
{
    UBig::from_le_bytes(&a.bytes).to_string().chars().collect()
}

/// Relies on `UBig::from_str`: an optional `+`, then one or more decimal digits.
#[verifier::external_body]
pub(crate) fn key_parse_decimal(s: &str) -> (r: Option<Key>)
    ensures
        r.is_some() <==> parses_decimal(s@),
        r.is_some() ==> r.unwrap()@ == decimal_val(unsigned_body(s@)),
{
    match s.parse::<UBig>() {
        Ok(x) => Some(Key { bytes: x.to_le_bytes() }),
        Err(_) => None,
    }
}

/// Relies on `UBig::from_str_radix(_, 16)`: an optional `+`, then one or more hex digits.
#[verifier::external_body]
pub(crate) fn key_parse_hex(s: &str) -> (r: Option<Key>)
    ensures
        r.is_some() <==> parses_hex(s@),
        r.is_some() ==> r.unwrap()@ == hex_val(unsigned_body(s@)),
{
    match UBig::from_str_radix(s, 16) {
        Ok(x) => Some(Key { bytes: x.to_le_bytes() }),
        Err(_) => None,
    }
}

} // verus!
