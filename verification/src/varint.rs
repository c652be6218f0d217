//! Unsigned variable-length integers.

use vstd::prelude::*;

verus! {

/// The shortest little-endian base-128 representation of `n`: seven bits a byte, the top bit set
/// on every byte but the last.
pub open spec fn varint(n: nat) -> Seq<u8>
    decreases n,
{
    if n < 128 {
        seq![n as u8]
    } else {
        seq![(n % 128 + 128) as u8] + varint(n / 128)
    }
}

/// The number of bytes up to and including the first one whose top bit is clear.
pub open spec fn group_len(s: Seq<u8>) -> Option<nat>
    decreases s.len(),
{
    if s.len() == 0 {
        None
    } else if s[0] < 128 {
        Some(1nat)
    } else {
        match group_len(s.skip(1)) {
            Some(n) => Some(n + 1),
            None => None,
        }
    }
}

/// The number that the low seven bits of the first `len` bytes make, the first byte lowest.
pub open spec fn group_value(s: Seq<u8>, len: nat) -> nat
    decreases len,
{
    if len == 0 {
        0
    } else {
        (s[0] % 128) as nat + 128 * group_value(s.skip(1), (len - 1) as nat)
    }
}

/// What is read from the front of `s`, and what follows it.
///
/// A number ends at the first byte whose top bit is clear and is read modulo `2^64`. It takes at
/// most ten bytes, and the last byte is not zero unless it is the only one.
pub open spec fn varint_decoded(s: Seq<u8>) -> Option<(u64, Seq<u8>)> {
    match group_len(s) {
        Some(n) => if n <= 10 && (n == 1 || s[n - 1] != 0) {
            Some(((group_value(s, n) % 0x1_0000_0000_0000_0000) as u64, s.skip(n as int)))
        } else {
            None
        },
        None => None,
    }
}

/// `unsigned_varint::encode::u64` writes the shortest representation.
#[verifier::external_body]
pub(crate) fn encode_u64(n: u64) -> (r: Vec<u8>)
    ensures
        r@ == varint(n as nat),
{
    let mut buffer = unsigned_varint::encode::u64_buffer();
    unsigned_varint::encode::u64(n, &mut buffer).to_vec()
}

/// `unsigned_varint::decode::u64` reads one number from the front of `bytes` and returns it with
/// what follows. It fails where the bytes end before the number does, where the number does not
/// end within ten bytes, and where the last of several bytes is zero; bits above the 64th are
/// dropped.
#[verifier::external_body]
pub(crate) fn decode_u64(bytes: &[u8]) -> (r: Option<(u64, &[u8])>)
    ensures
        match r {
            Some((n, rest)) => varint_decoded(bytes@) == Some((n, rest@)),
            None => varint_decoded(bytes@) is None,
        },
{
    unsigned_varint::decode::u64(bytes).ok()
}

proof fn lemma_group(n: nat, k: nat, rest: Seq<u8>)
    requires
        n < vstd::arithmetic::power::pow(128, k),
        k > 0,
    ensures
        group_len(varint(n) + rest) == Some(varint(n).len()),
        0 < varint(n).len() <= k,
        group_value(varint(n) + rest, varint(n).len()) == n,
        (varint(n) + rest).skip(varint(n).len() as int) == rest,
        varint(n).len() == 1 || (varint(n) + rest)[varint(n).len() - 1] != 0,
    decreases n,
{
    let s = varint(n) + rest;
    if n < 128 {
        assert(s[0] == n as u8);
        assert(s.skip(1) =~= rest);
        assert(group_value(s.skip(1), 0) == 0);
        assert(group_value(s, 1) == n) by {
            reveal_with_fuel(group_value, 2);
        }
    } else {
        let m = n / 128;
        vstd::arithmetic::power::lemma_pow1(128);
        assert(k > 1) by {
            if k == 1 {
                assert(n < 128);
            }
        }
        assert(m < vstd::arithmetic::power::pow(128, (k - 1) as nat)) by {
            reveal(vstd::arithmetic::power::pow);
            let p = vstd::arithmetic::power::pow(128, (k - 1) as nat);
            assert(vstd::arithmetic::power::pow(128, k) == 128 * p);
            assert(n < 128 * p);
        }
        lemma_group(m, (k - 1) as nat, rest);
        let t = varint(m) + rest;
        assert(s.skip(1) =~= t);
        assert(s[0] == (n % 128 + 128) as u8);
        assert(s[0] >= 128 && s[0] % 128 == n % 128);
        assert(varint(n).len() == varint(m).len() + 1);
        assert(group_len(s) == Some(varint(m).len() + 1));
        assert(group_value(s, varint(n).len()) == (s[0] % 128) as nat + 128 * group_value(
            t,
            varint(m).len(),
        ));
        assert(s.skip(varint(n).len() as int) =~= t.skip(varint(m).len() as int));
        assert(s[varint(n).len() - 1] == t[varint(m).len() - 1]);
        if varint(m).len() == 1 {
            assert(varint(m / 128).len() >= 1);
            assert(m < 128);
            assert(t[0] == m as u8);
            assert(m != 0);
        }
    }
}

/// Reading what was written gives the number back, with whatever follows it untouched.
pub proof fn law_varint_round_trip(n: u64, rest: Seq<u8>)
    ensures
        varint_decoded(varint(n as nat) + rest) == Some((n, rest)),
{
    assert(n < vstd::arithmetic::power::pow(128, 10)) by {
        reveal(vstd::arithmetic::power::pow);
        reveal_with_fuel(vstd::arithmetic::power::pow, 11);
        assert(vstd::arithmetic::power::pow(128, 10) == 128 * 128 * 128 * 128 * 128 * 128 * 128
            * 128 * 128 * 128);
    }
    lemma_group(n as nat, 10, rest);
    let s = varint(n as nat) + rest;
    assert(group_value(s, varint(n as nat).len()) == n);
    assert(n as nat % 0x1_0000_0000_0000_0000 == n as nat);
}

} // verus!
