//! Derivation of a candidate key into its pay-to-public-key-hash addresses,
//! carried out by `bitcoin`.
use crate::bignum::{key_be_bytes, Key};
use bitcoin::secp256k1::{Secp256k1, SecretKey};
use bitcoin::{Address, Network, NetworkKind, PrivateKey};
use vstd::prelude::*;

verus! {

/// Value of a big-endian byte sequence.
pub open spec fn be_val(s: Seq<u8>) -> nat
    decreases s.len(),
{
    if s.len() == 0 {
        0
    } else {
        be_val(s.drop_last()) * 256 + s.last() as nat
    }
}

pub open spec fn pow256(n: nat) -> nat
    decreases n,
{
    if n == 0 {
        1
    } else {
        256 * pow256((n - 1) as nat)
    }
}

/// The order of the secp256k1 group.
pub open spec fn curve_order() -> nat {
    0xFFFFFFFFFFFFFFFFFFFFFFFFFFFFFFFEu128 as nat * 0x1_0000_0000_0000_0000_0000_0000_0000_0000
        + 0xBAAEDCE6AF48A03BBFD25E8CD0364141u128 as nat
}

/// A secret key of secp256k1: neither zero nor past the group order.
pub open spec fn is_valid_secret(n: nat) -> bool {
    0 < n < curve_order()
}

/// The address string of the P2PKH address on the main network whose key
/// has the secret `secret`, with the public key compressed or not.
pub uninterp spec fn p2pkh_of(secret: nat, compressed: bool) -> Seq<char>;

/// Relies on `SecretKey::from_slice`, which accepts 32 bytes that are neither
/// zero nor past the group order, then on `PrivateKey::public_key`,
/// `Address::p2pkh` on the main network and the address's `Display`.
#[verifier::external_body]
fn p2pkh_address(secret: &Vec<u8>, compressed: bool) -> (r: Option<String>)
    requires
        secret@.len() == 32,
    ensures
        r.is_some() <==> is_valid_secret(be_val(secret@)),
        r.is_some() ==> r.unwrap()@ == p2pkh_of(be_val(secret@), compressed),
{
    let inner = match SecretKey::from_slice(secret) {
        Ok(k) => k,
        Err(_) => return None,
    };
    let key = PrivateKey { compressed, network: NetworkKind::Main, inner };
    let public = key.public_key(&Secp256k1::new());
    Some(Address::p2pkh(public, Network::Bitcoin).to_string())
}

proof fn lemma_be_leading_zeros(s: Seq<u8>, m: nat)
    ensures
        be_val(Seq::new(m, |i: int| 0u8) + s) == be_val(s),
    decreases s.len(), m,
{
    let z = Seq::new(m, |i: int| 0u8);
    if s.len() == 0 {
        assert(z + s =~= z);
        if m > 0 {
            assert(z.drop_last() =~= Seq::new((m - 1) as nat, |i: int| 0u8));
            lemma_be_leading_zeros(s, (m - 1) as nat);
            assert(Seq::new((m - 1) as nat, |i: int| 0u8) + s =~= Seq::new(
                (m - 1) as nat,
                |i: int| 0u8,
            ));
        }
    } else {
        assert((z + s).drop_last() =~= z + s.drop_last());
        lemma_be_leading_zeros(s.drop_last(), m);
    }
}

proof fn lemma_be_lower_bound(s: Seq<u8>)
    requires
        s.len() > 0,
        s[0] != 0,
    ensures
        be_val(s) >= pow256((s.len() - 1) as nat),
    decreases s.len(),
{
    if s.len() > 1 {
        lemma_be_lower_bound(s.drop_last());
    }
}

proof fn lemma_pow256_monotonic(a: nat, b: nat)
    requires
        a <= b,
    ensures
        pow256(a) <= pow256(b),
    decreases b,
{
    if a < b {
        lemma_pow256_monotonic(a, (b - 1) as nat);
    }
}

proof fn lemma_order_below_pow256_32()
    ensures
        curve_order() < pow256(32),
{
    reveal_with_fuel(pow256, 33);
}

/// The P2PKH addresses of a key, compressed first: none when the key is not
/// a valid secret.
pub fn derive_addresses(k: &Key) -> (r: Vec<String>)
    ensures
        is_valid_secret(k@) ==> r@.len() == 2 && r@[0]@ == p2pkh_of(k@, true) && r@[1]@
            == p2pkh_of(k@, false),
        !is_valid_secret(k@) ==> r@.len() == 0,
{
    let be = key_be_bytes(k);
    let mut out: Vec<String> = Vec::new();
    if be.len() > 32 {
        proof {
            lemma_be_lower_bound(be@);
            lemma_pow256_monotonic(32, (be@.len() - 1) as nat);
            lemma_order_below_pow256_32();
        }
        return out;
    }
    let mut secret: Vec<u8> = Vec::new();
    let pad: usize = 32 - be.len();
    let mut i: usize = 0;
    while i < pad
        invariant
            i <= pad,
            secret@ =~= Seq::new(i as nat, |j: int| 0u8),
        decreases pad - i,
    {
        secret.push(0);
        i = i + 1;
    }
    let mut j: usize = 0;
    while j < be.len()
        invariant
            pad + be@.len() == 32,
            j <= be@.len(),
            secret@ =~= Seq::new(pad as nat, |x: int| 0u8) + be@.subrange(0, j as int),
        decreases be@.len() - j,
    {
        secret.push(be[j]);
        j = j + 1;
    }
    proof {
        assert(be@.subrange(0, be@.len() as int) =~= be@);
        lemma_be_leading_zeros(be@, pad as nat);
    }
    match p2pkh_address(&secret, true) {
        Some(a) => out.push(a),
        None => return out,
    }
    match p2pkh_address(&secret, false) {
        Some(a) => out.push(a),
        None => {},
    }
    out
}

} // verus!
