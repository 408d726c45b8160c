//! Base-128 varints as protobuf writes them, read and written through prost.

use vstd::prelude::*;
use vstd::utf8::{decode_utf8, valid_utf8};

verus! {

/// The bytes of `v` in protobuf's base-128 varint form: seven bits per byte,
/// least significant group first, every byte but the last with its high bit set.
pub open spec fn varint_bytes(v: nat) -> Seq<u8>
    decreases v,
{
    if v < 128 {
        seq![v as u8]
    } else {
        seq![(v % 128 + 128) as u8] + varint_bytes(v / 128)
    }
}

/// The number that the low seven bits of the first `n` bytes of `b` spell,
/// least significant group first.
pub open spec fn varint_groups(b: Seq<u8>, n: nat) -> nat
    decreases n,
{
    if n == 0 || b.len() == 0 {
        0
    } else {
        (b[0] % 128) as nat + 128 * varint_groups(b.drop_first(), (n - 1) as nat)
    }
}

/// Position of the first byte below 0x80 among the first `budget` bytes of `b`.
pub open spec fn varint_stop(b: Seq<u8>, budget: nat) -> Option<nat>
    decreases budget,
{
    if budget == 0 || b.len() == 0 {
        None
    } else if b[0] < 128 {
        Some(0)
    } else {
        match varint_stop(b.drop_first(), (budget - 1) as nat) {
            Some(k) => Some(k + 1),
            None => None,
        }
    }
}

/// What prost's `decode_varint` reads from the front of `b`: the value and the
/// number of bytes it takes. It fails when none of the first ten bytes ends the
/// varint, or when the tenth one does but would overflow 64 bits.
pub open spec fn varint_read(b: Seq<u8>) -> Option<(nat, nat)> {
    match varint_stop(b, 10) {
        None => None,
        Some(k) => if k == 9 && b[9] >= 2 {
            None
        } else {
            Some((varint_groups(b, k + 1), k + 1))
        },
    }
}

/// `128` to the power `k`.
pub open spec fn pow128(k: nat) -> nat
    decreases k,
{
    if k == 0 {
        1
    } else {
        128 * pow128((k - 1) as nat)
    }
}

/// Every byte of an encoding but the last carries the continuation bit.
pub proof fn lemma_varint_bytes_shape(v: nat)
    ensures
        varint_bytes(v).len() >= 1,
        varint_bytes(v).last() < 128,
        forall|i: int| 0 <= i < varint_bytes(v).len() - 1 ==> varint_bytes(v)[i] >= 128,
    decreases v,
{
    if v >= 128 {
        lemma_varint_bytes_shape(v / 128);
        let t = varint_bytes(v / 128);
        assert(varint_bytes(v) == seq![(v % 128 + 128) as u8] + t);
        assert forall|i: int| 0 <= i < varint_bytes(v).len() - 1 implies varint_bytes(v)[i] >= 128 by {
            if i > 0 {
                assert(varint_bytes(v)[i] == t[i - 1]);
            }
        }
    }
}

/// Below `2 * 128^k` a value takes at most `k + 1` bytes, and when it takes all
/// of them the last one is below 2.
pub proof fn lemma_varint_bytes_bound(v: nat, k: nat)
    requires
        v < 2 * pow128(k),
    ensures
        varint_bytes(v).len() <= k + 1,
        varint_bytes(v).len() == k + 1 ==> varint_bytes(v).last() < 2,
    decreases v,
{
    if v >= 128 {
        assert(k >= 1) by {
            if k == 0 {
                assert(pow128(0) == 1);
            }
        }
        let k1 = (k - 1) as nat;
        assert(pow128(k) == 128 * pow128(k1));
        assert(v / 128 < 2 * pow128(k1)) by (nonlinear_arith)
            requires
                v < 2 * (128 * pow128(k1)),
        ;
        lemma_varint_bytes_bound(v / 128, k1);
        let t = varint_bytes(v / 128);
        assert(varint_bytes(v) == seq![(v % 128 + 128) as u8] + t);
        assert(varint_bytes(v).last() == t.last());
    } else {
        if k == 0 {
            assert(pow128(0) == 1);
        }
    }
}

/// The ten-byte limit of `decode_varint` is exactly the 64-bit range.
pub proof fn lemma_pow128_nine()
    ensures
        2 * pow128(9) == 0x1_0000_0000_0000_0000,
{
    reveal_with_fuel(pow128, 10);
}

/// Reading the encoding of `v` back, with anything after it, stops at its last
/// byte and gives `v`.
proof fn lemma_varint_prefix(v: nat, rest: Seq<u8>, budget: nat)
    requires
        varint_bytes(v).len() <= budget,
    ensures
        varint_stop(varint_bytes(v) + rest, budget) == Some((varint_bytes(v).len() - 1) as nat),
        varint_groups(varint_bytes(v) + rest, varint_bytes(v).len()) == v,
    decreases v,
{
    let b = varint_bytes(v) + rest;
    lemma_varint_bytes_shape(v);
    if v < 128 {
        assert(b[0] == v as u8);
        assert(varint_groups(b.drop_first(), 0) == 0);
    } else {
        let t = varint_bytes(v / 128);
        assert(varint_bytes(v) == seq![(v % 128 + 128) as u8] + t);
        assert(b.drop_first() == t + rest);
        lemma_varint_prefix(v / 128, rest, (budget - 1) as nat);
        assert(b[0] == (v % 128 + 128) as u8);
        assert((b[0] % 128) as nat == v % 128);
        assert(v == v % 128 + 128 * (v / 128)) by (nonlinear_arith);
    }
}

/// What `encode_varint` writes, `decode_varint` reads back, whatever follows.
pub proof fn lemma_varint_roundtrip(v: u64, rest: Seq<u8>)
    ensures
        varint_read(varint_bytes(v as nat) + rest) == Some((v as nat, varint_bytes(v as nat).len())),
        1 <= varint_bytes(v as nat).len() <= 10,
{
    lemma_pow128_nine();
    lemma_varint_bytes_bound(v as nat, 9);
    lemma_varint_bytes_shape(v as nat);
    lemma_varint_prefix(v as nat, rest, 10);
    let e = varint_bytes(v as nat);
    let b = e + rest;
    if e.len() == 10 {
        assert(b[9] == e.last());
    }
}

/// Seven-bit groups of `n` bytes spell a number below `128^n`.
proof fn lemma_varint_groups_bound(b: Seq<u8>, n: nat)
    ensures
        varint_groups(b, n) < pow128(n),
    decreases n,
{
    if n > 0 && b.len() > 0 {
        let n1 = (n - 1) as nat;
        lemma_varint_groups_bound(b.drop_first(), n1);
        let g = varint_groups(b.drop_first(), n1);
        let d = (b[0] % 128) as nat;
        assert(d + 128 * g < 128 * pow128(n1)) by (nonlinear_arith)
            requires
                d < 128,
                g < pow128(n1),
        ;
    } else if n > 0 {
        assert(pow128(n) == 128 * pow128((n - 1) as nat));
        lemma_pow128_positive((n - 1) as nat);
    }
}

proof fn lemma_pow128_positive(k: nat)
    ensures
        pow128(k) >= 1,
    decreases k,
{
    if k > 0 {
        lemma_pow128_positive((k - 1) as nat);
    }
}

proof fn lemma_pow128_monotonic(i: nat, j: nat)
    requires
        i <= j,
    ensures
        pow128(i) <= pow128(j),
    decreases j,
{
    if i < j {
        lemma_pow128_monotonic(i, (j - 1) as nat);
        lemma_pow128_positive((j - 1) as nat);
    }
}

/// When the `n`-th byte is below 2, the groups spell a number below `2 * 128^(n-1)`.
proof fn lemma_varint_groups_top(b: Seq<u8>, n: nat)
    requires
        1 <= n <= b.len(),
        b[n - 1] < 2,
    ensures
        varint_groups(b, n) < 2 * pow128((n - 1) as nat),
    decreases n,
{
    let n1 = (n - 1) as nat;
    if n == 1 {
        assert(varint_groups(b.drop_first(), 0) == 0);
    } else {
        let t = b.drop_first();
        assert(t[n1 - 1] == b[n - 1]);
        lemma_varint_groups_top(t, n1);
        let g = varint_groups(t, n1);
        let d = (b[0] % 128) as nat;
        let p = pow128((n1 - 1) as nat);
        assert(pow128(n1) == 128 * p);
        assert(d + 128 * g < 2 * (128 * p)) by (nonlinear_arith)
            requires
                d < 128,
                g < 2 * p,
        ;
    }
}

/// Where `varint_stop` stops: a byte below 0x80, inside the budget and the buffer.
proof fn lemma_varint_stop(b: Seq<u8>, budget: nat)
    ensures
        varint_stop(b, budget) matches Some(k) ==> k < budget && k < b.len() && b[k as int]
            < 128,
    decreases budget,
{
    if budget > 0 && b.len() > 0 && b[0] >= 128 {
        lemma_varint_stop(b.drop_first(), (budget - 1) as nat);
    }
}

/// A value read from at most ten bytes fits in 64 bits, and it never takes
/// more bytes than there are.
pub proof fn lemma_varint_read_bounds(b: Seq<u8>)
    ensures
        varint_read(b) matches Some((v, n)) ==> v < 0x1_0000_0000_0000_0000 && 1 <= n <= 10
            && n <= b.len(),
{
    lemma_varint_stop(b, 10);
    lemma_pow128_nine();
    if let Some(k) = varint_stop(b, 10) {
        if k == 9 {
            if b[9] < 2 {
                lemma_varint_groups_top(b, 10);
            }
        } else {
            lemma_varint_groups_bound(b, k + 1);
            lemma_pow128_monotonic(k + 1, 9);
        }
    }
}


/// prost's decoding error, carried through unread.
#[verifier::external_type_specification]
#[verifier::external_body]
pub struct ExDecodeError(prost::DecodeError);

/// Calls prost's `encoding::encode_varint`, which appends `v` to `buf` in the
/// form `varint_bytes` spells.
#[verifier::external_body]
pub(crate) fn put_varint(v: u64, buf: &mut Vec<u8>)
    ensures
        final(buf)@ == old(buf)@ + varint_bytes(v as nat),
{
    prost::encoding::encode_varint(v, buf)
}

/// Calls prost's `encoding::decode_varint` on `bytes`: it reads one varint
/// from the front as `varint_read` says, and hands back the bytes after it; it
/// fails exactly when `varint_read` finds no varint.
#[verifier::external_body]
pub(crate) fn take_varint<'a>(bytes: &'a [u8]) -> (r: Result<(u64, &'a [u8]), prost::DecodeError>)
    ensures
        r is Ok <==> varint_read(bytes@) is Some,
        r matches Ok((v, rest)) ==> varint_read(bytes@) matches Some((w, n)) && w == v
            && rest@ == bytes@.skip(n as int),
{
    let mut rest = bytes;
    match prost::encoding::decode_varint(&mut rest) {
        Ok(v) => Ok((v, rest)),
        Err(e) => Err(e),
    }
}

/// Calls prost's `decode_length_delimiter` on `bytes`: the varint at their
/// front, when there is one and it fits in `usize`.
#[verifier::external_body]
pub(crate) fn length_delimiter(bytes: &[u8]) -> (r: Result<usize, prost::DecodeError>)
    ensures
        r is Ok <==> (varint_read(bytes@) matches Some((v, _)) && v <= usize::MAX),
        r matches Ok(len) ==> varint_read(bytes@) matches Some((v, _)) && v == len,
{
    prost::decode_length_delimiter(bytes)
}

/// Calls `std::str::from_utf8`: `bytes` as a string exactly when they are UTF-8.
#[verifier::external_body]
pub(crate) fn utf8_str(bytes: &[u8]) -> (r: Option<&str>)
    ensures
        r is Some <==> valid_utf8(bytes@),
        r matches Some(s) ==> s@ == decode_utf8(bytes@),
{
    match std::str::from_utf8(bytes) {
        Ok(s) => Some(s),
        Err(_) => None,
    }
}

} // verus!
