//! Canonical byte serialization of the protocol's values.
//!
//! Every stored record is the concatenation of its fields' encodings
//! in declaration order; tagged unions carry a one-byte discriminant
//! before the payload.  Unsigned big integers are encoded as one
//! length byte followed by the minimal little-endian bytes of the
//! value; 64-bit and 32-bit integers as fixed-width little-endian
//! bytes; strings as a 32-bit byte length followed by UTF-8.

use vstd::prelude::*;
use vstd::arithmetic::div_mod::lemma_div_decreases;
use vstd::bytes::{
    lemma_auto_spec_u64_to_from_le_bytes,
    spec_u64_to_le_bytes,
    spec_u64_to_le_bytes_open,
    spec_u64_to_le_bytes_to_open,
    u64_from_le_bytes,
    u64_to_le_bytes,
};
use vstd::bytes::{
    lemma_auto_spec_u32_to_from_le_bytes,
    spec_u32_to_le_bytes,
    u32_from_le_bytes,
    u32_to_le_bytes,
};
use vstd::slice::slice_subrange;
use vstd::utf8::{decode_utf8, encode_utf8, valid_utf8};
use crate::amount::{limbs_val, Amount, Percent};
use crate::custodial::{RoyaltyPaymentState, RoyaltyPaymentStateView};
use crate::ids::{Addr32, Key};
use crate::marketplace::{OrderbookEntry, OrderbookEntryView};
use crate::royalty::{RoyaltyStep, RoyaltyStepView};
use crate::token::{TokenIdentifier, TokenIdentifierView};

verus! {

/// Decoding failures, as the ledger's serialization reports them.
#[derive(Clone, Copy, Debug, PartialEq, Eq, Structural)]
pub enum CodecError {
    /// The input ended before the value was complete.
    EarlyEndOfStream,
    /// The input does not denote a value (bad discriminant, oversized
    /// length, or malformed payload).
    Formatting,
    /// The value cannot be encoded (a string longer than a 32-bit
    /// length can carry).
    NotRepresentable,
}

/// The number denoted by a little-endian byte sequence.
pub open spec fn le_bytes_val(s: Seq<u8>) -> nat
    decreases s.len(),
{
    if s.len() == 0 {
        0
    } else {
        s[0] as nat + le_bytes_val(s.drop_first()) * 256
    }
}

/// The minimal little-endian byte sequence denoting a number: no
/// trailing zero byte.
pub open spec fn min_le_bytes(n: nat) -> Seq<u8>
    decreases n,
    via min_le_bytes_decreases
{
    if n == 0 {
        Seq::empty()
    } else {
        seq![(n % 256) as u8] + min_le_bytes(n / 256)
    }
}

#[via_fn]
proof fn min_le_bytes_decreases(n: nat) {
    if n > 0 {
        lemma_div_decreases(n as int, 256);
    }
}

/// Concatenation splits the value positionally.
pub proof fn lemma_le_bytes_val_concat(a: Seq<u8>, b: Seq<u8>)
    ensures
        le_bytes_val(a + b) == le_bytes_val(a) + le_bytes_val(b)
            * vstd::arithmetic::power::pow(256, a.len()),
    decreases a.len(),
{
    vstd::arithmetic::power::lemma_pow_positive(256, a.len());
    if a.len() == 0 {
        assert(a + b =~= b);
        vstd::arithmetic::power::lemma_pow0(256);
    } else {
        assert((a + b).drop_first() =~= a.drop_first() + b);
        lemma_le_bytes_val_concat(a.drop_first(), b);
        let pw: int = vstd::arithmetic::power::pow(256, (a.len() - 1) as nat);
        vstd::arithmetic::power::lemma_pow1(256);
        vstd::arithmetic::power::lemma_pow_adds(256, 1, (a.len() - 1) as nat);
        let va: nat = le_bytes_val(a.drop_first());
        let vb: nat = le_bytes_val(b);
        assert((va + vb * pw) * 256 == va * 256 + vb * (pw * 256)) by (nonlinear_arith);
    }
}

/// Trailing zero bytes do not change the value.
pub proof fn lemma_le_bytes_val_zero_extend(a: Seq<u8>, z: Seq<u8>)
    requires
        forall|i: int| 0 <= i < z.len() ==> z[i] == 0,
    ensures
        le_bytes_val(a + z) == le_bytes_val(a),
{
    lemma_le_bytes_val_concat(a, z);
    lemma_le_bytes_val_zeros(z);
    let vz: nat = le_bytes_val(z);
    let pw: int = vstd::arithmetic::power::pow(256, a.len());
    assert(vz * pw == 0) by (nonlinear_arith)
        requires
            vz == 0,
    ;
}

/// A sequence of zero bytes denotes zero.
pub proof fn lemma_le_bytes_val_zeros(z: Seq<u8>)
    requires
        forall|i: int| 0 <= i < z.len() ==> z[i] == 0,
    ensures
        le_bytes_val(z) == 0,
    decreases z.len(),
{
    if z.len() > 0 {
        assert(z[0] == 0);
        lemma_le_bytes_val_zeros(z.drop_first());
    }
}

/// The value of a number's eight little-endian bytes is the number.
pub proof fn lemma_le_bytes_val_u64(x: u64)
    ensures
        le_bytes_val(spec_u64_to_le_bytes(x)) == x,
{
    spec_u64_to_le_bytes_to_open(x);
    let s = spec_u64_to_le_bytes_open(x);
    assert(x == (x & 0xff) + 0x100 * ((x >> 8) & 0xff) + 0x10000 * ((x >> 16) & 0xff) + 0x1000000
        * ((x >> 24) & 0xff) + 0x100000000 * ((x >> 32) & 0xff) + 0x10000000000 * ((x >> 40)
        & 0xff) + 0x1000000000000 * ((x >> 48) & 0xff) + 0x100000000000000 * ((x >> 56) & 0xff))
        by (bit_vector);
    assert((x & 0xff) < 0x100 && ((x >> 8) & 0xff) < 0x100 && ((x >> 16) & 0xff) < 0x100 && ((x
        >> 24) & 0xff) < 0x100 && ((x >> 32) & 0xff) < 0x100 && ((x >> 40) & 0xff) < 0x100 && ((x
        >> 48) & 0xff) < 0x100 && ((x >> 56) & 0xff) < 0x100) by (bit_vector);
    assert(s.drop_first().drop_first().drop_first().drop_first().drop_first().drop_first().drop_first().drop_first()
        =~= Seq::<u8>::empty());
    reveal_with_fuel(le_bytes_val, 9);
}

/// A byte sequence without a trailing zero is the minimal encoding of
/// its value.
pub proof fn lemma_min_le_bytes_exact(s: Seq<u8>)
    requires
        s.len() == 0 || s[s.len() - 1] != 0,
    ensures
        min_le_bytes(le_bytes_val(s)) =~= s,
    decreases s.len(),
{
    if s.len() > 0 {
        let rest = s.drop_first();
        let v = le_bytes_val(s);
        if rest.len() == 0 {
            assert(s[0] != 0);
            assert(le_bytes_val(rest) == 0);
            assert(v == s[0] as nat + 0 * 256);
            assert(v % 256 == s[0] as nat && v / 256 == 0) by (nonlinear_arith)
                requires
                    v == s[0] as nat,
                    0 < s[0] < 256,
            ;
            assert(min_le_bytes(v) =~= seq![(v % 256) as u8] + min_le_bytes(v / 256));
            assert(min_le_bytes(v) =~= s);
        } else {
            assert(rest[rest.len() - 1] == s[s.len() - 1]);
            lemma_min_le_bytes_exact(rest);
            let vr = le_bytes_val(rest);
            assert(v == s[0] as nat + vr * 256);
            assert(v % 256 == s[0] as nat && v / 256 == vr) by (nonlinear_arith)
                requires
                    v == s[0] as nat + vr * 256,
                    0 <= s[0] < 256,
            ;
            // The remainder is non-zero somewhere, so the value is
            // positive and the recursion reproduces the bytes.
            lemma_le_bytes_val_last_nonzero(rest);
            assert(min_le_bytes(v) =~= seq![(v % 256) as u8] + min_le_bytes(v / 256));
        }
    }
}

/// A byte sequence whose last byte is non-zero denotes a positive
/// number.
pub proof fn lemma_le_bytes_val_last_nonzero(s: Seq<u8>)
    requires
        s.len() > 0,
        s[s.len() - 1] != 0,
    ensures
        le_bytes_val(s) > 0,
    decreases s.len(),
{
    if s.len() == 1 {
    } else {
        let rest = s.drop_first();
        lemma_le_bytes_val_last_nonzero(rest);
        let vr = le_bytes_val(rest);
        assert(vr * 256 >= 256) by (nonlinear_arith)
            requires
                vr >= 1,
        ;
    }
}

/// The canonical encoding of an unsigned big integer: one length byte
/// and the minimal little-endian bytes of the value.
pub open spec fn big_uint_bytes(v: nat) -> Seq<u8> {
    seq![min_le_bytes(v).len() as u8] + min_le_bytes(v)
}

/// The little-endian bytes of a sequence of 64-bit limbs.
pub open spec fn limbs_le_bytes(limbs: Seq<u64>) -> Seq<u8>
    decreases limbs.len(),
{
    if limbs.len() == 0 {
        Seq::empty()
    } else {
        spec_u64_to_le_bytes(limbs[0]) + limbs_le_bytes(limbs.drop_first())
    }
}

/// The limb bytes denote the limb value.
pub proof fn lemma_limbs_le_bytes_val(limbs: Seq<u64>)
    ensures
        limbs_le_bytes(limbs).len() == 8 * limbs.len(),
        le_bytes_val(limbs_le_bytes(limbs)) == limbs_val(limbs),
    decreases limbs.len(),
{
    lemma_auto_spec_u64_to_from_le_bytes();
    vstd::arithmetic::power2::lemma2_to64();
    if limbs.len() > 0 {
        lemma_limbs_le_bytes_val(limbs.drop_first());
        let head = spec_u64_to_le_bytes(limbs[0]);
        let tail = limbs_le_bytes(limbs.drop_first());
        lemma_le_bytes_val_concat(head, tail);
        lemma_le_bytes_val_u64(limbs[0]);
        assert(vstd::arithmetic::power::pow(256, 8) == 0x10000000000000000) by {
            lemma_pow2_pow256(8);
            vstd::arithmetic::power2::lemma2_to64();
        }
        let vt: nat = le_bytes_val(tail);
        assert(le_bytes_val(head + tail) == limbs[0] as nat + vt * 0x10000000000000000);
    }
}

/// The little-endian bytes of a vector of limbs.
fn limbs_to_le_bytes(limbs: &Vec<u64>) -> (r: Vec<u8>)
    ensures
        r@ =~= limbs_le_bytes(limbs@),
{
    let mut r: Vec<u8> = Vec::new();
    let mut i: usize = 0;
    while i < limbs.len()
        invariant
            i <= limbs@.len(),
            r@ =~= limbs_le_bytes(limbs@.take(i as int)),
        decreases limbs@.len() - i,
    {
        let mut word = u64_to_le_bytes(limbs[i]);
        r.append(&mut word);
        proof {
            lemma_limbs_le_bytes_take_push(limbs@, i as int);
        }
        i = i + 1;
    }
    proof {
        assert(limbs@.take(limbs@.len() as int) =~= limbs@);
    }
    r
}

/// Taking one more limb appends its bytes.
proof fn lemma_limbs_le_bytes_take_push(limbs: Seq<u64>, i: int)
    requires
        0 <= i < limbs.len(),
    ensures
        limbs_le_bytes(limbs.take(i + 1)) =~= limbs_le_bytes(limbs.take(i)) + spec_u64_to_le_bytes(
            limbs[i],
        ),
    decreases i,
{
    reveal_with_fuel(limbs_le_bytes, 3);
    assert(limbs_le_bytes(Seq::<u64>::empty()) =~= Seq::<u8>::empty());
    if i == 0 {
        assert(limbs.take(1).drop_first() =~= Seq::<u64>::empty());
        assert(limbs.take(1)[0] == limbs[0]);
        assert(limbs_le_bytes(limbs.take(0)) =~= Seq::<u8>::empty());
    } else {
        assert(limbs.take(i + 1).drop_first() =~= limbs.drop_first().take(i));
        assert(limbs.take(i).drop_first() =~= limbs.drop_first().take(i - 1));
        lemma_limbs_le_bytes_take_push(limbs.drop_first(), i - 1);
        assert(limbs.take(i + 1)[0] == limbs[0]);
        assert(limbs.take(i)[0] == limbs[0]);
        assert(limbs.drop_first()[i - 1] == limbs[i]);
        assert(limbs_le_bytes(limbs.take(i + 1)) =~= spec_u64_to_le_bytes(limbs[0])
            + limbs_le_bytes(limbs.drop_first().take(i)));
        assert(limbs_le_bytes(limbs.take(i)) + spec_u64_to_le_bytes(limbs[i])
            =~= spec_u64_to_le_bytes(limbs[0]) + (limbs_le_bytes(limbs.drop_first().take(i - 1))
            + spec_u64_to_le_bytes(limbs[i])));
    }
}

/// Drop trailing zero bytes, leaving the minimal encoding of the same
/// value.
fn trim_trailing_zeros(bytes: &mut Vec<u8>)
    ensures
        min_le_bytes(le_bytes_val(old(bytes)@)) =~= final(bytes)@,
        le_bytes_val(final(bytes)@) == le_bytes_val(old(bytes)@),
{
    let ghost orig = bytes@;
    let mut len: usize = bytes.len();
    while len > 0 && *vstd::slice::slice_index_get(bytes.as_slice(), len - 1) == 0
        invariant
            len <= bytes@.len(),
            bytes@ == orig,
            forall|j: int| len <= j < orig.len() ==> orig[j] == 0,
        decreases len,
    {
        len = len - 1;
    }
    bytes.truncate(len);
    proof {
        assert(bytes@ =~= orig.take(len as int));
        assert(orig =~= orig.take(len as int) + orig.skip(len as int));
        lemma_le_bytes_val_zero_extend(orig.take(len as int), orig.skip(len as int));
        if len > 0 {
            assert(bytes@[len - 1] != 0);
        }
        lemma_min_le_bytes_exact(bytes@);
    }
}

impl Amount {
    /// Encode: one length byte and the minimal little-endian bytes of
    /// the value.
    pub fn to_bytes(&self) -> (r: Vec<u8>)
        ensures
            r@ =~= big_uint_bytes(self@),
            r@.len() <= 65,
    {
        let mut limbs: Vec<u64> = Vec::new();
        let mut i: usize = 0;
        while i < 8
            invariant
                i <= 8,
                limbs@ =~= self.limbs@.take(i as int),
            decreases 8 - i,
        {
            limbs.push(self.limbs[i]);
            proof {
                assert(self.limbs@.take(i + 1) =~= self.limbs@.take(i as int).push(
                    self.limbs@[i as int],
                ));
            }
            i = i + 1;
        }
        proof {
            assert(self.limbs@.take(8) =~= self.limbs@);
        }
        let mut data = limbs_to_le_bytes(&limbs);
        proof {
            lemma_limbs_le_bytes_val(self.limbs@);
        }
        trim_trailing_zeros(&mut data);
        proof {
            crate::amount::lemma_amount_in_range(*self);
            lemma_min_le_bytes_len(self@);
        }
        let n = data.len() as u8;
        let mut r: Vec<u8> = Vec::new();
        r.push(n);
        r.append(&mut data);
        r
    }

    /// Decode a length-prefixed little-endian integer of at most 64
    /// bytes, returning the value and the bytes consumed.  Trailing
    /// zero bytes inside the declared length are accepted.
    pub fn from_bytes(bytes: &[u8]) -> (r: Result<(Amount, usize), CodecError>)
        ensures
            match r {
                Ok((a, used)) => {
                    &&& bytes@.len() >= 1
                    &&& bytes@[0] <= 64
                    &&& used == 1 + bytes@[0]
                    &&& used <= bytes@.len()
                    &&& a@ == le_bytes_val(bytes@.subrange(1, 1 + bytes@[0] as int))
                },
                Err(CodecError::EarlyEndOfStream) => bytes@.len() < 1 || (bytes@[0] <= 64 && bytes@.len()
                    < 1 + bytes@[0]),
                Err(CodecError::Formatting) => bytes@.len() >= 1 && bytes@[0] > 64,
                Err(CodecError::NotRepresentable) => false,
            },
    {
        if bytes.len() < 1 {
            return Err(CodecError::EarlyEndOfStream);
        }
        let n = *vstd::slice::slice_index_get(bytes, 0) as usize;
        if n > 64 {
            return Err(CodecError::Formatting);
        }
        if bytes.len() < 1 + n {
            return Err(CodecError::EarlyEndOfStream);
        }
        let data = slice_subrange(bytes, 1, 1 + n);
        let mut padded: Vec<u8> = Vec::new();
        let mut i: usize = 0;
        while i < n
            invariant
                i <= n,
                n <= data@.len(),
                padded@ =~= data@.take(i as int),
            decreases n - i,
        {
            padded.push(*vstd::slice::slice_index_get(data, i));
            i = i + 1;
        }
        while padded.len() < 64
            invariant
                padded@.len() >= n ==> padded@.take(n as int) =~= data@.take(n as int),
                n <= padded@.len() <= 64,
                forall|j: int| n <= j < padded@.len() ==> padded@[j] == 0,
            decreases 64 - padded@.len(),
    {
            padded.push(0);
        }
        proof {
            assert(data@.take(n as int) =~= data@);
            assert(padded@ =~= data@ + padded@.skip(n as int));
            lemma_le_bytes_val_zero_extend(data@, padded@.skip(n as int));
        }
        let mut limbs: [u64; 8] = [0, 0, 0, 0, 0, 0, 0, 0];
        let mut k: usize = 0;
        while k < 8
            invariant
                k <= 8,
                padded@.len() == 64,
                forall|j: int|
                    0 <= j < k ==> limbs@[j] == vstd::bytes::spec_u64_from_le_bytes(
                        padded@.subrange(8 * j, 8 * j + 8),
                    ),
            decreases 8 - k,
        {
            let word = slice_subrange(padded.as_slice(), 8 * k, 8 * k + 8);
            let x = u64_from_le_bytes(word);
            limbs[k] = x;
            k = k + 1;
        }
        let a = Amount { limbs };
        proof {
            lemma_auto_spec_u64_to_from_le_bytes();
            lemma_decompose_64_bytes(padded@, a.limbs@);
            lemma_limbs_le_bytes_val(a.limbs@);
        }
        Ok((a, 1 + n))
    }
}

/// Sixty-four bytes split into eight limbs reassemble to the same
/// bytes.
proof fn lemma_decompose_64_bytes(padded: Seq<u8>, limbs: Seq<u64>)
    requires
        padded.len() == 64,
        limbs.len() == 8,
        forall|j: int|
            0 <= j < 8 ==> limbs[j] == vstd::bytes::spec_u64_from_le_bytes(
                padded.subrange(8 * j, 8 * j + 8),
            ),
    ensures
        limbs_le_bytes(limbs) =~= padded,
{
    lemma_auto_spec_u64_to_from_le_bytes();
    assert forall|j: int| 0 <= j < 8 implies spec_u64_to_le_bytes(limbs[j]) =~= padded.subrange(
        8 * j,
        8 * j + 8,
    ) by {
        assert(padded.subrange(8 * j, 8 * j + 8).len() == 8);
    }
    lemma_limbs_le_bytes_unfold(limbs);
    assert(limbs_le_bytes(limbs) =~= spec_u64_to_le_bytes(limbs[0]) + spec_u64_to_le_bytes(
        limbs[1],
    ) + spec_u64_to_le_bytes(limbs[2]) + spec_u64_to_le_bytes(limbs[3]) + spec_u64_to_le_bytes(
        limbs[4],
    ) + spec_u64_to_le_bytes(limbs[5]) + spec_u64_to_le_bytes(limbs[6]) + spec_u64_to_le_bytes(
        limbs[7],
    ));
}

/// Eight limbs' bytes written out.
proof fn lemma_limbs_le_bytes_unfold(limbs: Seq<u64>)
    requires
        limbs.len() == 8,
    ensures
        limbs_le_bytes(limbs) =~= spec_u64_to_le_bytes(limbs[0]) + spec_u64_to_le_bytes(limbs[1])
            + spec_u64_to_le_bytes(limbs[2]) + spec_u64_to_le_bytes(limbs[3])
            + spec_u64_to_le_bytes(limbs[4]) + spec_u64_to_le_bytes(limbs[5])
            + spec_u64_to_le_bytes(limbs[6]) + spec_u64_to_le_bytes(limbs[7]),
{
    reveal_with_fuel(limbs_le_bytes, 9);
    assert(limbs.drop_first().drop_first().drop_first().drop_first().drop_first().drop_first().drop_first().drop_first()
        =~= Seq::<u64>::empty());
}

/// The minimal encoding of a 512-bit value fits in 64 bytes.
pub proof fn lemma_min_le_bytes_len(v: nat)
    ensures
        v < crate::amount::amount_limit() ==> min_le_bytes(v).len() <= 64,
        v < crate::amount::percent_limit() ==> min_le_bytes(v).len() <= 32,
{
    lemma_min_le_bytes_len_rec(v, 64);
    lemma_min_le_bytes_len_rec(v, 32);
    vstd::arithmetic::power2::lemma_pow2_adds(512, 0);
    assert(vstd::arithmetic::power2::pow2(512) == vstd::arithmetic::power::pow(256, 64)) by {
        lemma_pow2_pow256(64);
    }
    assert(vstd::arithmetic::power2::pow2(256) == vstd::arithmetic::power::pow(256, 32)) by {
        lemma_pow2_pow256(32);
    }
}

/// `pow2(8 k) == pow(256, k)`.
proof fn lemma_pow2_pow256(k: nat)
    ensures
        vstd::arithmetic::power2::pow2(8 * k) == vstd::arithmetic::power::pow(256, k),
    decreases k,
{
    vstd::arithmetic::power2::lemma_pow2(8 * k);
    vstd::arithmetic::power::lemma_pow0(2);
    if k == 0 {
        vstd::arithmetic::power::lemma_pow0(256);
    } else {
        lemma_pow2_pow256((k - 1) as nat);
        vstd::arithmetic::power2::lemma_pow2((8 * (k - 1)) as nat);
        vstd::arithmetic::power2::lemma_pow2_adds(8, (8 * (k - 1)) as nat);
        vstd::arithmetic::power2::lemma2_to64();
        vstd::arithmetic::power::lemma_pow1(256);
        vstd::arithmetic::power::lemma_pow_adds(256, 1, (k - 1) as nat);
        assert(vstd::arithmetic::power::pow(256, k) == 256 * vstd::arithmetic::power::pow(
            256,
            (k - 1) as nat,
        ));
    }
}

/// A value below `pow(256, cap)` has at most `cap` minimal bytes.
proof fn lemma_min_le_bytes_len_rec(v: nat, cap: nat)
    ensures
        v < vstd::arithmetic::power::pow(256, cap) ==> min_le_bytes(v).len() <= cap,
    decreases cap,
{
    if v == 0 {
    } else if v < vstd::arithmetic::power::pow(256, cap) {
        if cap == 0 {
            vstd::arithmetic::power::lemma_pow0(256);
        } else {
            vstd::arithmetic::power::lemma_pow_adds(256, 1, (cap - 1) as nat);
            vstd::arithmetic::power::lemma_pow1(256);
            let p1: int = vstd::arithmetic::power::pow(256, (cap - 1) as nat);
            assert(v / 256 < p1) by (nonlinear_arith)
                requires
                    v < 256 * p1,
                    p1 > 0,
            ;
            lemma_min_le_bytes_len_rec(v / 256, (cap - 1) as nat);
        }
    }
}

/// The minimal bytes denote the value they encode.
pub proof fn lemma_min_le_bytes_val(v: nat)
    ensures
        le_bytes_val(min_le_bytes(v)) == v,
    decreases v,
{
    if v > 0 {
        lemma_div_decreases(v as int, 256);
        lemma_min_le_bytes_val(v / 256);
        let s = min_le_bytes(v);
        assert(s.drop_first() =~= min_le_bytes(v / 256));
        assert(v == (v % 256) + (v / 256) * 256) by (nonlinear_arith);
    }
}

impl Percent {
    /// Encode: one length byte and the minimal little-endian bytes of
    /// the value.
    pub fn to_bytes(&self) -> (r: Vec<u8>)
        ensures
            r@ =~= big_uint_bytes(self@),
            r@.len() <= 33,
    {
        let mut limbs: Vec<u64> = Vec::new();
        let mut i: usize = 0;
        while i < 4
            invariant
                i <= 4,
                limbs@ =~= self.limbs@.take(i as int),
            decreases 4 - i,
        {
            limbs.push(self.limbs[i]);
            proof {
                assert(self.limbs@.take(i + 1) =~= self.limbs@.take(i as int).push(
                    self.limbs@[i as int],
                ));
            }
            i = i + 1;
        }
        proof {
            assert(self.limbs@.take(4) =~= self.limbs@);
        }
        let mut data = limbs_to_le_bytes(&limbs);
        proof {
            lemma_limbs_le_bytes_val(self.limbs@);
        }
        trim_trailing_zeros(&mut data);
        proof {
            crate::amount::lemma_percent_in_range(*self);
            lemma_min_le_bytes_len(self@);
        }
        let n = data.len() as u8;
        let mut r: Vec<u8> = Vec::new();
        r.push(n);
        r.append(&mut data);
        r
    }

    /// Decode a length-prefixed little-endian integer of at most 32
    /// bytes, returning the value and the bytes consumed.
    pub fn from_bytes(bytes: &[u8]) -> (r: Result<(Percent, usize), CodecError>)
        ensures
            match r {
                Ok((p, used)) => {
                    &&& bytes@.len() >= 1
                    &&& bytes@[0] <= 32
                    &&& used == 1 + bytes@[0]
                    &&& used <= bytes@.len()
                    &&& p@ == le_bytes_val(bytes@.subrange(1, 1 + bytes@[0] as int))
                },
                Err(CodecError::EarlyEndOfStream) => bytes@.len() < 1 || (bytes@[0] <= 32 && bytes@.len()
                    < 1 + bytes@[0]),
                Err(CodecError::Formatting) => bytes@.len() >= 1 && bytes@[0] > 32,
                Err(CodecError::NotRepresentable) => false,
            },
    {
        if bytes.len() < 1 {
            return Err(CodecError::EarlyEndOfStream);
        }
        let n = *vstd::slice::slice_index_get(bytes, 0) as usize;
        if n > 32 {
            return Err(CodecError::Formatting);
        }
        if bytes.len() < 1 + n {
            return Err(CodecError::EarlyEndOfStream);
        }
        let data = slice_subrange(bytes, 1, 1 + n);
        let mut padded: Vec<u8> = Vec::new();
        let mut i: usize = 0;
        while i < n
            invariant
                i <= n,
                n <= data@.len(),
                padded@ =~= data@.take(i as int),
            decreases n - i,
        {
            padded.push(*vstd::slice::slice_index_get(data, i));
            i = i + 1;
        }
        while padded.len() < 32
            invariant
                padded@.len() >= n ==> padded@.take(n as int) =~= data@.take(n as int),
                n <= padded@.len() <= 32,
                forall|j: int| n <= j < padded@.len() ==> padded@[j] == 0,
            decreases 32 - padded@.len(),
        {
            padded.push(0);
        }
        proof {
            assert(data@.take(n as int) =~= data@);
            assert(padded@ =~= data@ + padded@.skip(n as int));
            lemma_le_bytes_val_zero_extend(data@, padded@.skip(n as int));
        }
        let mut limbs: [u64; 4] = [0, 0, 0, 0];
        let mut k: usize = 0;
        while k < 4
            invariant
                k <= 4,
                padded@.len() == 32,
                forall|j: int|
                    0 <= j < k ==> limbs@[j] == vstd::bytes::spec_u64_from_le_bytes(
                        padded@.subrange(8 * j, 8 * j + 8),
                    ),
            decreases 4 - k,
        {
            let word = slice_subrange(padded.as_slice(), 8 * k, 8 * k + 8);
            let x = u64_from_le_bytes(word);
            limbs[k] = x;
            k = k + 1;
        }
        let p = Percent { limbs };
        proof {
            lemma_auto_spec_u64_to_from_le_bytes();
            lemma_decompose_32_bytes(padded@, p.limbs@);
            lemma_limbs_le_bytes_val(p.limbs@);
        }
        Ok((p, 1 + n))
    }
}

/// The fixed-width little-endian encoding of a 64-bit integer.
pub open spec fn u64_bytes(x: u64) -> Seq<u8> {
    spec_u64_to_le_bytes(x)
}

/// The fixed-width little-endian encoding of a 32-bit integer.
pub open spec fn u32_bytes(x: u32) -> Seq<u8> {
    spec_u32_to_le_bytes(x)
}

/// The 32 bytes of an address: its four words, little-endian.
pub open spec fn addr_bytes(a: Addr32) -> Seq<u8> {
    u64_bytes(a.w0) + u64_bytes(a.w1) + u64_bytes(a.w2) + u64_bytes(a.w3)
}

/// A key: a tag byte (0 account, 1 contract) and the address.
pub open spec fn key_bytes(k: Key) -> Seq<u8> {
    match k {
        Key::Account(a) => seq![0u8] + addr_bytes(a),
        Key::Hash(a) => seq![1u8] + addr_bytes(a),
    }
}

/// A string: its UTF-8 byte length as 32-bit little-endian, then the
/// UTF-8 bytes.  Meaningful only when the length fits 32 bits; the
/// encoder rejects anything longer.
pub open spec fn string_bytes(s: Seq<char>) -> Seq<u8> {
    u32_bytes(encode_utf8(s).len() as u32) + encode_utf8(s)
}

/// A token identifier: tag 0 and the ordinal, or tag 1 and the hash
/// string.
pub open spec fn token_id_bytes(t: TokenIdentifierView) -> Seq<u8> {
    match t {
        TokenIdentifierView::Index(i) => seq![0u8] + u64_bytes(i),
        TokenIdentifierView::Hash(h) => seq![1u8] + string_bytes(h),
    }
}

/// A royalty step: a tag byte and the step's quantity.
pub open spec fn step_bytes(st: RoyaltyStepView) -> Seq<u8> {
    match st {
        RoyaltyStepView::Minimum(m) => seq![0u8] + big_uint_bytes(m),
        RoyaltyStepView::Flat(f) => seq![1u8] + big_uint_bytes(f),
        RoyaltyStepView::Percentage(p) => seq![2u8] + big_uint_bytes(p),
    }
}

/// A royalty payment record: tag 0 for unpaid; tag 1, payer, source
/// and amount for paid.
pub open spec fn payment_state_bytes(p: RoyaltyPaymentStateView) -> Seq<u8> {
    match p {
        RoyaltyPaymentStateView::Unpaid => seq![0u8],
        RoyaltyPaymentStateView::Paid { payer, source_key, amount } => seq![1u8] + key_bytes(payer)
            + key_bytes(source_key) + big_uint_bytes(amount),
    }
}

/// A listing record: its fields' encodings in declaration order, with
/// no padding and no length prefix.
pub open spec fn entry_bytes(e: OrderbookEntryView) -> Seq<u8> {
    u64_bytes(e.nft_contract_id) + key_bytes(e.owner) + token_id_bytes(e.token_id) + big_uint_bytes(
        e.price,
    )
}

/// Decoding a 64-bit integer: eight little-endian bytes.
pub open spec fn dec_u64(bytes: Seq<u8>) -> Result<(u64, int), CodecError> {
    if bytes.len() < 8 {
        Err(CodecError::EarlyEndOfStream)
    } else {
        Ok((vstd::bytes::spec_u64_from_le_bytes(bytes.take(8)), 8))
    }
}

/// Decoding a 32-bit integer: four little-endian bytes.
pub open spec fn dec_u32(bytes: Seq<u8>) -> Result<(u32, int), CodecError> {
    if bytes.len() < 4 {
        Err(CodecError::EarlyEndOfStream)
    } else {
        Ok((vstd::bytes::spec_u32_from_le_bytes(bytes.take(4)), 4))
    }
}

/// Decoding a length-prefixed big integer of at most `cap` bytes.
pub open spec fn dec_big(bytes: Seq<u8>, cap: int) -> Result<(nat, int), CodecError> {
    if bytes.len() < 1 {
        Err(CodecError::EarlyEndOfStream)
    } else if bytes[0] > cap {
        Err(CodecError::Formatting)
    } else if bytes.len() < 1 + bytes[0] {
        Err(CodecError::EarlyEndOfStream)
    } else {
        Ok((le_bytes_val(bytes.subrange(1, 1 + bytes[0] as int)), 1 + bytes[0] as int))
    }
}

/// Decoding an address: 32 bytes as four little-endian words.
pub open spec fn dec_addr(bytes: Seq<u8>) -> Result<(Addr32, int), CodecError> {
    if bytes.len() < 32 {
        Err(CodecError::EarlyEndOfStream)
    } else {
        Ok(
            (
                Addr32 {
                    w0: vstd::bytes::spec_u64_from_le_bytes(bytes.subrange(0, 8)),
                    w1: vstd::bytes::spec_u64_from_le_bytes(bytes.subrange(8, 16)),
                    w2: vstd::bytes::spec_u64_from_le_bytes(bytes.subrange(16, 24)),
                    w3: vstd::bytes::spec_u64_from_le_bytes(bytes.subrange(24, 32)),
                },
                32,
            ),
        )
    }
}

/// Decoding a key: a tag byte and an address.
pub open spec fn dec_key(bytes: Seq<u8>) -> Result<(Key, int), CodecError> {
    if bytes.len() < 1 {
        Err(CodecError::EarlyEndOfStream)
    } else if bytes[0] == 0 {
        match dec_addr(bytes.skip(1)) {
            Ok((a, n)) => Ok((Key::Account(a), 1 + n)),
            Err(e) => Err(e),
        }
    } else if bytes[0] == 1 {
        match dec_addr(bytes.skip(1)) {
            Ok((a, n)) => Ok((Key::Hash(a), 1 + n)),
            Err(e) => Err(e),
        }
    } else {
        Err(CodecError::Formatting)
    }
}

/// Decoding a string: a 32-bit byte length and that many UTF-8 bytes.
pub open spec fn dec_string(bytes: Seq<u8>) -> Result<(Seq<char>, int), CodecError> {
    match dec_u32(bytes) {
        Err(e) => Err(e),
        Ok((n, _)) => if bytes.len() < 4 + n {
            Err(CodecError::EarlyEndOfStream)
        } else if !valid_utf8(bytes.subrange(4, 4 + n as int)) {
            Err(CodecError::Formatting)
        } else {
            Ok((decode_utf8(bytes.subrange(4, 4 + n as int)), 4 + n as int))
        },
    }
}

/// Decoding a token identifier.
pub open spec fn dec_token(bytes: Seq<u8>) -> Result<(TokenIdentifierView, int), CodecError> {
    if bytes.len() < 1 {
        Err(CodecError::EarlyEndOfStream)
    } else if bytes[0] == 0 {
        match dec_u64(bytes.skip(1)) {
            Ok((i, n)) => Ok((TokenIdentifierView::Index(i), 1 + n)),
            Err(e) => Err(e),
        }
    } else if bytes[0] == 1 {
        match dec_string(bytes.skip(1)) {
            Ok((h, n)) => Ok((TokenIdentifierView::Hash(h), 1 + n)),
            Err(e) => Err(e),
        }
    } else {
        Err(CodecError::Formatting)
    }
}

/// Decoding a royalty step.
pub open spec fn dec_step(bytes: Seq<u8>) -> Result<(RoyaltyStepView, int), CodecError> {
    if bytes.len() < 1 {
        Err(CodecError::EarlyEndOfStream)
    } else if bytes[0] == 0 {
        match dec_big(bytes.skip(1), 64) {
            Ok((v, n)) => Ok((RoyaltyStepView::Minimum(v), 1 + n)),
            Err(e) => Err(e),
        }
    } else if bytes[0] == 1 {
        match dec_big(bytes.skip(1), 64) {
            Ok((v, n)) => Ok((RoyaltyStepView::Flat(v), 1 + n)),
            Err(e) => Err(e),
        }
    } else if bytes[0] == 2 {
        match dec_big(bytes.skip(1), 32) {
            Ok((v, n)) => Ok((RoyaltyStepView::Percentage(v), 1 + n)),
            Err(e) => Err(e),
        }
    } else {
        Err(CodecError::Formatting)
    }
}

/// Decoding a royalty payment record.
pub open spec fn dec_payment(bytes: Seq<u8>) -> Result<(RoyaltyPaymentStateView, int), CodecError> {
    if bytes.len() < 1 {
        Err(CodecError::EarlyEndOfStream)
    } else if bytes[0] == 0 {
        Ok((RoyaltyPaymentStateView::Unpaid, 1))
    } else if bytes[0] == 1 {
        match dec_key(bytes.skip(1)) {
            Err(e) => Err(e),
            Ok((payer, n1)) => match dec_key(bytes.skip(1 + n1)) {
                Err(e) => Err(e),
                Ok((source_key, n2)) => match dec_big(bytes.skip(1 + n1 + n2), 64) {
                    Err(e) => Err(e),
                    Ok((amount, n3)) => Ok(
                        (
                            RoyaltyPaymentStateView::Paid { payer, source_key, amount },
                            1 + n1 + n2 + n3,
                        ),
                    ),
                },
            },
        }
    } else {
        Err(CodecError::Formatting)
    }
}

/// Decoding a listing record.
pub open spec fn dec_entry(bytes: Seq<u8>) -> Result<(OrderbookEntryView, int), CodecError> {
    match dec_u64(bytes) {
        Err(e) => Err(e),
        Ok((id, n0)) => match dec_key(bytes.skip(n0)) {
            Err(e) => Err(e),
            Ok((owner, n1)) => match dec_token(bytes.skip(n0 + n1)) {
                Err(e) => Err(e),
                Ok((token_id, n2)) => match dec_big(bytes.skip(n0 + n1 + n2), 64) {
                    Err(e) => Err(e),
                    Ok((price, n3)) => Ok(
                        (
                            OrderbookEntryView { nft_contract_id: id, owner, token_id, price },
                            n0 + n1 + n2 + n3,
                        ),
                    ),
                },
            },
        },
    }
}

/// Thirty-two bytes split into four limbs reassemble to the same
/// bytes.
proof fn lemma_decompose_32_bytes(padded: Seq<u8>, limbs: Seq<u64>)
    requires
        padded.len() == 32,
        limbs.len() == 4,
        forall|j: int|
            0 <= j < 4 ==> limbs[j] == vstd::bytes::spec_u64_from_le_bytes(
                padded.subrange(8 * j, 8 * j + 8),
            ),
    ensures
        limbs_le_bytes(limbs) =~= padded,
{
    lemma_auto_spec_u64_to_from_le_bytes();
    assert forall|j: int| 0 <= j < 4 implies spec_u64_to_le_bytes(limbs[j]) =~= padded.subrange(
        8 * j,
        8 * j + 8,
    ) by {
        assert(padded.subrange(8 * j, 8 * j + 8).len() == 8);
    }
    reveal_with_fuel(limbs_le_bytes, 5);
    assert(limbs.drop_first().drop_first().drop_first().drop_first() =~= Seq::<u64>::empty());
    assert(limbs_le_bytes(limbs) =~= spec_u64_to_le_bytes(limbs[0]) + spec_u64_to_le_bytes(
        limbs[1],
    ) + spec_u64_to_le_bytes(limbs[2]) + spec_u64_to_le_bytes(limbs[3]));
}

/// Relies on `String::from_utf8` (std): it succeeds exactly on valid
/// UTF-8 input, and the returned string's UTF-8 bytes are the input.
#[verifier::external_body]
fn utf8_to_string(bytes: Vec<u8>) -> (r: Option<String>)
    ensures
        match r {
            Some(s) => encode_utf8(s@) == bytes@,
            None => !valid_utf8(bytes@),
        },
{
    String::from_utf8(bytes).ok()
}

fn write_u64(out: &mut Vec<u8>, x: u64)
    ensures
        final(out)@ =~= old(out)@ + u64_bytes(x),
{
    let mut b = u64_to_le_bytes(x);
    out.append(&mut b);
}

fn write_u32(out: &mut Vec<u8>, x: u32)
    ensures
        final(out)@ =~= old(out)@ + u32_bytes(x),
{
    let mut b = u32_to_le_bytes(x);
    out.append(&mut b);
}

fn write_addr(out: &mut Vec<u8>, a: Addr32)
    ensures
        final(out)@ =~= old(out)@ + addr_bytes(a),
{
    write_u64(out, a.w0);
    write_u64(out, a.w1);
    write_u64(out, a.w2);
    write_u64(out, a.w3);
    proof {
        assert(out@ =~= old(out)@ + (u64_bytes(a.w0) + u64_bytes(a.w1) + u64_bytes(a.w2)
            + u64_bytes(a.w3)));
    }
}

fn write_key(out: &mut Vec<u8>, k: Key)
    ensures
        final(out)@ =~= old(out)@ + key_bytes(k),
{
    match k {
        Key::Account(a) => {
            out.push(0);
            write_addr(out, a);
            proof {
                assert(out@ =~= old(out)@ + (seq![0u8] + addr_bytes(a)));
            }
        },
        Key::Hash(a) => {
            out.push(1);
            write_addr(out, a);
            proof {
                assert(out@ =~= old(out)@ + (seq![1u8] + addr_bytes(a)));
            }
        },
    }
}

fn write_big(out: &mut Vec<u8>, a: &Amount)
    ensures
        final(out)@ =~= old(out)@ + big_uint_bytes(a@),
{
    let mut b = a.to_bytes();
    out.append(&mut b);
}

fn write_string(out: &mut Vec<u8>, s: &String) -> (r: Result<(), CodecError>)
    ensures
        match r {
            Ok(()) => encode_utf8(s@).len() <= u32::MAX && final(out)@ =~= old(out)@
                + string_bytes(s@),
            Err(e) => e == CodecError::NotRepresentable && encode_utf8(s@).len() > u32::MAX
                && final(out)@ == old(out)@,
        },
{
    let mut b = s.as_str().as_bytes_vec();
    if b.len() > u32::MAX as usize {
        return Err(CodecError::NotRepresentable);
    }
    let n = b.len() as u32;
    write_u32(out, n);
    out.append(&mut b);
    proof {
        assert(out@ =~= old(out)@ + (u32_bytes(n) + encode_utf8(s@)));
    }
    Ok(())
}

fn read_u64(bytes: &[u8]) -> (r: Result<(u64, usize), CodecError>)
    ensures
        match r {
            Ok((x, used)) => dec_u64(bytes@) == Ok::<(u64, int), CodecError>((x, used as int)),
            Err(e) => dec_u64(bytes@) == Err::<(u64, int), CodecError>(e),
        },
{
    if bytes.len() < 8 {
        return Err(CodecError::EarlyEndOfStream);
    }
    let s = slice_subrange(bytes, 0, 8);
    let x = u64_from_le_bytes(s);
    proof {
        assert(s@ =~= bytes@.take(8));
    }
    Ok((x, 8))
}

fn read_u32(bytes: &[u8]) -> (r: Result<(u32, usize), CodecError>)
    ensures
        match r {
            Ok((x, used)) => dec_u32(bytes@) == Ok::<(u32, int), CodecError>((x, used as int)),
            Err(e) => dec_u32(bytes@) == Err::<(u32, int), CodecError>(e),
        },
{
    if bytes.len() < 4 {
        return Err(CodecError::EarlyEndOfStream);
    }
    let s = slice_subrange(bytes, 0, 4);
    let x = u32_from_le_bytes(s);
    proof {
        assert(s@ =~= bytes@.take(4));
    }
    Ok((x, 4))
}

fn read_addr(bytes: &[u8]) -> (r: Result<(Addr32, usize), CodecError>)
    ensures
        match r {
            Ok((a, used)) => dec_addr(bytes@) == Ok::<(Addr32, int), CodecError>((a, used as int)),
            Err(e) => dec_addr(bytes@) == Err::<(Addr32, int), CodecError>(e),
        },
{
    if bytes.len() < 32 {
        return Err(CodecError::EarlyEndOfStream);
    }
    let w0 = u64_from_le_bytes(slice_subrange(bytes, 0, 8));
    let w1 = u64_from_le_bytes(slice_subrange(bytes, 8, 16));
    let w2 = u64_from_le_bytes(slice_subrange(bytes, 16, 24));
    let w3 = u64_from_le_bytes(slice_subrange(bytes, 24, 32));
    Ok((Addr32 { w0, w1, w2, w3 }, 32))
}

fn read_key(bytes: &[u8]) -> (r: Result<(Key, usize), CodecError>)
    ensures
        match r {
            Ok((k, used)) => dec_key(bytes@) == Ok::<(Key, int), CodecError>((k, used as int)),
            Err(e) => dec_key(bytes@) == Err::<(Key, int), CodecError>(e),
        },
{
    if bytes.len() < 1 {
        return Err(CodecError::EarlyEndOfStream);
    }
    let tag = *vstd::slice::slice_index_get(bytes, 0);
    if tag > 1 {
        return Err(CodecError::Formatting);
    }
    let tail = slice_subrange(bytes, 1, bytes.len());
    proof {
        assert(tail@ =~= bytes@.skip(1));
    }
    match read_addr(tail) {
        Err(e) => Err(e),
        Ok((a, n)) => if tag == 0 {
            Ok((Key::Account(a), 1 + n))
        } else {
            Ok((Key::Hash(a), 1 + n))
        },
    }
}

fn read_string(bytes: &[u8]) -> (r: Result<(String, usize), CodecError>)
    ensures
        match r {
            Ok((s, used)) => dec_string(bytes@) == Ok::<(Seq<char>, int), CodecError>(
                (s@, used as int),
            ),
            Err(e) => dec_string(bytes@) == Err::<(Seq<char>, int), CodecError>(e),
        },
{
    let n = match read_u32(bytes) {
        Ok((n, _)) => n as usize,
        Err(e) => {
            return Err(e);
        },
    };
    if bytes.len() - 4 < n {
        return Err(CodecError::EarlyEndOfStream);
    }
    let data = slice_subrange(bytes, 4, 4 + n);
    proof {
        assert(data@ =~= bytes@.subrange(4, 4 + n as int));
    }
    match utf8_to_string(vstd::slice::slice_to_vec(data)) {
        Some(s) => {
            proof {
                vstd::utf8::encode_utf8_valid_utf8(s@);
                vstd::utf8::encode_utf8_decode_utf8(s@);
            }
            Ok((s, 4 + n))
        },
        None => Err(CodecError::Formatting),
    }
}

impl TokenIdentifier {
    /// Encode: a one-byte discriminant (0 ordinal, 1 hash) and the
    /// identifier's native encoding.
    pub fn to_bytes(&self) -> (r: Result<Vec<u8>, CodecError>)
        ensures
            match r {
                Ok(v) => v@ =~= token_id_bytes(self@),
                Err(e) => e == CodecError::NotRepresentable && (self@ matches
                    TokenIdentifierView::Hash(h) && encode_utf8(h).len() > u32::MAX),
            },
    {
        let mut out: Vec<u8> = Vec::new();
        match self {
            TokenIdentifier::Index(i) => {
                out.push(0);
                write_u64(&mut out, *i);
                proof {
                    assert(out@ =~= seq![0u8] + u64_bytes(*i));
                }
                Ok(out)
            },
            TokenIdentifier::Hash(h) => {
                out.push(1);
                match write_string(&mut out, h) {
                    Ok(()) => {
                        proof {
                            assert(out@ =~= seq![1u8] + string_bytes(h@));
                        }
                        Ok(out)
                    },
                    Err(e) => Err(e),
                }
            },
        }
    }

    /// Decode a token identifier, returning it and the bytes
    /// consumed.
    pub fn from_bytes(bytes: &[u8]) -> (r: Result<(TokenIdentifier, usize), CodecError>)
        ensures
            match r {
                Ok((t, used)) => dec_token(bytes@) == Ok::<(TokenIdentifierView, int), CodecError>(
                    (t@, used as int),
                ),
                Err(e) => dec_token(bytes@) == Err::<(TokenIdentifierView, int), CodecError>(e),
            },
    {
        if bytes.len() < 1 {
            return Err(CodecError::EarlyEndOfStream);
        }
        let tag = *vstd::slice::slice_index_get(bytes, 0);
        let tail = slice_subrange(bytes, 1, bytes.len());
        proof {
            assert(tail@ =~= bytes@.skip(1));
        }
        if tag == 0 {
            match read_u64(tail) {
                Ok((i, n)) => Ok((TokenIdentifier::Index(i), 1 + n)),
                Err(e) => Err(e),
            }
        } else if tag == 1 {
            match read_string(tail) {
                Ok((h, n)) => Ok((TokenIdentifier::Hash(h), 1 + n)),
                Err(e) => Err(e),
            }
        } else {
            Err(CodecError::Formatting)
        }
    }
}

impl RoyaltyStep {
    /// Encode: a one-byte discriminant (0 minimum, 1 flat,
    /// 2 percentage) and the step's quantity.
    pub fn to_bytes(&self) -> (r: Vec<u8>)
        ensures
            r@ =~= step_bytes(self@),
    {
        let mut out: Vec<u8> = Vec::new();
        match self {
            RoyaltyStep::Minimum { amount } => {
                out.push(0);
                write_big(&mut out, amount);
                proof {
                    assert(out@ =~= seq![0u8] + big_uint_bytes(amount@));
                }
            },
            RoyaltyStep::Flat { amount } => {
                out.push(1);
                write_big(&mut out, amount);
                proof {
                    assert(out@ =~= seq![1u8] + big_uint_bytes(amount@));
                }
            },
            RoyaltyStep::Percentage { percent } => {
                out.push(2);
                let mut b = percent.to_bytes();
                out.append(&mut b);
                proof {
                    assert(out@ =~= seq![2u8] + big_uint_bytes(percent@));
                }
            },
        }
        out
    }

    /// Decode a royalty step, returning it and the bytes consumed.
    pub fn from_bytes(bytes: &[u8]) -> (r: Result<(RoyaltyStep, usize), CodecError>)
        ensures
            match r {
                Ok((st, used)) => dec_step(bytes@) == Ok::<(RoyaltyStepView, int), CodecError>(
                    (st@, used as int),
                ),
                Err(e) => dec_step(bytes@) == Err::<(RoyaltyStepView, int), CodecError>(e),
            },
    {
        if bytes.len() < 1 {
            return Err(CodecError::EarlyEndOfStream);
        }
        let tag = *vstd::slice::slice_index_get(bytes, 0);
        let tail = slice_subrange(bytes, 1, bytes.len());
        proof {
            assert(tail@ =~= bytes@.skip(1));
        }
        if tag == 0 {
            match Amount::from_bytes(tail) {
                Ok((a, n)) => Ok((RoyaltyStep::Minimum { amount: a }, 1 + n)),
                Err(e) => Err(e),
            }
        } else if tag == 1 {
            match Amount::from_bytes(tail) {
                Ok((a, n)) => Ok((RoyaltyStep::Flat { amount: a }, 1 + n)),
                Err(e) => Err(e),
            }
        } else if tag == 2 {
            match Percent::from_bytes(tail) {
                Ok((p, n)) => Ok((RoyaltyStep::Percentage { percent: p }, 1 + n)),
                Err(e) => Err(e),
            }
        } else {
            Err(CodecError::Formatting)
        }
    }
}

impl RoyaltyPaymentState {
    /// Encode: tag 0 for unpaid; tag 1 and payer, source and amount
    /// for paid.
    pub fn to_bytes(&self) -> (r: Vec<u8>)
        ensures
            r@ =~= payment_state_bytes(self@),
    {
        let mut out: Vec<u8> = Vec::new();
        match self {
            RoyaltyPaymentState::Unpaid => {
                out.push(0);
                proof {
                    assert(out@ =~= seq![0u8]);
                }
            },
            RoyaltyPaymentState::Paid { payer, source_key, amount } => {
                out.push(1);
                write_key(&mut out, *payer);
                write_key(&mut out, *source_key);
                write_big(&mut out, amount);
                proof {
                    assert(out@ =~= seq![1u8] + key_bytes(*payer) + key_bytes(*source_key)
                        + big_uint_bytes(amount@));
                }
            },
        }
        out
    }

    /// Decode a royalty payment record, returning it and the bytes
    /// consumed.
    pub fn from_bytes(bytes: &[u8]) -> (r: Result<(RoyaltyPaymentState, usize), CodecError>)
        ensures
            match r {
                Ok((p, used)) => dec_payment(bytes@) == Ok::<
                    (RoyaltyPaymentStateView, int),
                    CodecError,
                >((p@, used as int)),
                Err(e) => dec_payment(bytes@) == Err::<(RoyaltyPaymentStateView, int), CodecError>(
                    e,
                ),
            },
    {
        if bytes.len() < 1 {
            return Err(CodecError::EarlyEndOfStream);
        }
        let tag = *vstd::slice::slice_index_get(bytes, 0);
        if tag == 0 {
            return Ok((RoyaltyPaymentState::Unpaid, 1));
        }
        if tag != 1 {
            return Err(CodecError::Formatting);
        }
        let tail1 = slice_subrange(bytes, 1, bytes.len());
        proof {
            assert(tail1@ =~= bytes@.skip(1));
        }
        let (payer, n1) = match read_key(tail1) {
            Ok(p) => p,
            Err(e) => {
                return Err(e);
            },
        };
        let tail2 = slice_subrange(bytes, 1 + n1, bytes.len());
        proof {
            assert(tail2@ =~= bytes@.skip(1 + n1 as int));
        }
        let (source_key, n2) = match read_key(tail2) {
            Ok(p) => p,
            Err(e) => {
                return Err(e);
            },
        };
        let tail3 = slice_subrange(bytes, 1 + n1 + n2, bytes.len());
        proof {
            assert(tail3@ =~= bytes@.skip(1 + n1 as int + n2 as int));
        }
        let (amount, n3) = match Amount::from_bytes(tail3) {
            Ok(p) => p,
            Err(e) => {
                return Err(e);
            },
        };
        Ok((RoyaltyPaymentState::Paid { payer, source_key, amount }, 1 + n1 + n2 + n3))
    }
}

impl OrderbookEntry {
    /// Encode: the fields' encodings in declaration order, with no
    /// padding and no length prefix.
    pub fn to_bytes(&self) -> (r: Result<Vec<u8>, CodecError>)
        ensures
            match r {
                Ok(v) => v@ =~= entry_bytes(self@),
                Err(e) => e == CodecError::NotRepresentable && (self@.token_id matches
                    TokenIdentifierView::Hash(h) && encode_utf8(h).len() > u32::MAX),
            },
    {
        let mut out: Vec<u8> = Vec::new();
        write_u64(&mut out, self.nft_contract_id);
        write_key(&mut out, self.owner);
        let mut token = match self.token_id.to_bytes() {
            Ok(t) => t,
            Err(e) => {
                return Err(e);
            },
        };
        out.append(&mut token);
        write_big(&mut out, &self.price);
        proof {
            assert(out@ =~= u64_bytes(self.nft_contract_id) + key_bytes(self.owner)
                + token_id_bytes(self@.token_id) + big_uint_bytes(self@.price));
        }
        Ok(out)
    }

    /// Decode a listing record, returning it and the bytes consumed.
    pub fn from_bytes(bytes: &[u8]) -> (r: Result<(OrderbookEntry, usize), CodecError>)
        ensures
            match r {
                Ok((e, used)) => dec_entry(bytes@) == Ok::<(OrderbookEntryView, int), CodecError>(
                    (e@, used as int),
                ),
                Err(e) => dec_entry(bytes@) == Err::<(OrderbookEntryView, int), CodecError>(e),
            },
    {
        let (nft_contract_id, n0) = match read_u64(bytes) {
            Ok(p) => p,
            Err(e) => {
                return Err(e);
            },
        };
        let tail1 = slice_subrange(bytes, n0, bytes.len());
        proof {
            assert(tail1@ =~= bytes@.skip(n0 as int));
        }
        let (owner, n1) = match read_key(tail1) {
            Ok(p) => p,
            Err(e) => {
                return Err(e);
            },
        };
        let tail2 = slice_subrange(bytes, n0 + n1, bytes.len());
        proof {
            assert(tail2@ =~= bytes@.skip(n0 as int + n1 as int));
        }
        let (token_id, n2) = match TokenIdentifier::from_bytes(tail2) {
            Ok(p) => p,
            Err(e) => {
                return Err(e);
            },
        };
        let tail3 = slice_subrange(bytes, n0 + n1 + n2, bytes.len());
        proof {
            assert(tail3@ =~= bytes@.skip(n0 as int + n1 as int + n2 as int));
        }
        let (price, n3) = match Amount::from_bytes(tail3) {
            Ok(p) => p,
            Err(e) => {
                return Err(e);
            },
        };
        Ok((OrderbookEntry { nft_contract_id, owner, token_id, price }, n0 + n1 + n2 + n3))
    }
}

/// Round trip of the 64-bit encoding.
pub proof fn lemma_u64_round_trip(x: u64, rest: Seq<u8>)
    ensures
        dec_u64(u64_bytes(x) + rest) == Ok::<(u64, int), CodecError>((x, 8)),
{
    lemma_auto_spec_u64_to_from_le_bytes();
    assert((u64_bytes(x) + rest).take(8) =~= u64_bytes(x));
}

/// Round trip of the address encoding.
pub proof fn lemma_addr_round_trip(a: Addr32, rest: Seq<u8>)
    ensures
        dec_addr(addr_bytes(a) + rest) == Ok::<(Addr32, int), CodecError>((a, 32)),
{
    lemma_auto_spec_u64_to_from_le_bytes();
    let b = addr_bytes(a) + rest;
    assert(b.subrange(0, 8) =~= u64_bytes(a.w0));
    assert(b.subrange(8, 16) =~= u64_bytes(a.w1));
    assert(b.subrange(16, 24) =~= u64_bytes(a.w2));
    assert(b.subrange(24, 32) =~= u64_bytes(a.w3));
}

/// Round trip of the key encoding.
pub proof fn lemma_key_round_trip(k: Key, rest: Seq<u8>)
    ensures
        dec_key(key_bytes(k) + rest) == Ok::<(Key, int), CodecError>((k, 33)),
{
    let b = key_bytes(k) + rest;
    match k {
        Key::Account(a) => {
            assert(b[0] == 0);
            assert(b.skip(1) =~= addr_bytes(a) + rest);
            lemma_addr_round_trip(a, rest);
        },
        Key::Hash(a) => {
            assert(b[0] == 1);
            assert(b.skip(1) =~= addr_bytes(a) + rest);
            lemma_addr_round_trip(a, rest);
        },
    }
}

/// Round trip of the string encoding, for strings whose UTF-8 length
/// a 32-bit prefix can carry (the encoder rejects all others).
pub proof fn lemma_string_round_trip(s: Seq<char>, rest: Seq<u8>)
    requires
        encode_utf8(s).len() <= u32::MAX,
    ensures
        dec_string(string_bytes(s) + rest) == Ok::<(Seq<char>, int), CodecError>(
            (s, 4 + encode_utf8(s).len() as int),
        ),
{
    let n = encode_utf8(s).len() as u32;
    let b = string_bytes(s) + rest;
    lemma_auto_spec_u32_to_from_le_bytes();
    assert(b.take(4) =~= u32_bytes(n));
    assert(b.subrange(4, 4 + n as int) =~= encode_utf8(s));
    vstd::utf8::encode_utf8_valid_utf8(s);
    vstd::utf8::encode_utf8_decode_utf8(s);
}

/// Round trip of the big-integer encoding at its two widths.
pub proof fn lemma_big_round_trip(v: nat, cap: int, rest: Seq<u8>)
    requires
        cap == 64 ==> v < crate::amount::amount_limit(),
        cap == 32 ==> v < crate::amount::percent_limit(),
        cap == 64 || cap == 32,
    ensures
        dec_big(big_uint_bytes(v) + rest, cap) == Ok::<(nat, int), CodecError>(
            (v, 1 + min_le_bytes(v).len() as int),
        ),
{
    lemma_min_le_bytes_len(v);
    lemma_min_le_bytes_val(v);
    let b = big_uint_bytes(v) + rest;
    assert(b[0] == min_le_bytes(v).len() as u8);
    assert(b.subrange(1, 1 + min_le_bytes(v).len() as int) =~= min_le_bytes(v));
}

/// Encoding then decoding a token identifier yields the identifier
/// back, whatever follows the encoding.
pub proof fn lemma_token_id_round_trip(t: TokenIdentifierView, rest: Seq<u8>)
    requires
        t matches TokenIdentifierView::Hash(h) ==> encode_utf8(h).len() <= u32::MAX,
    ensures
        dec_token(token_id_bytes(t) + rest) == Ok::<(TokenIdentifierView, int), CodecError>(
            (t, token_id_bytes(t).len() as int),
        ),
{
    lemma_auto_spec_u64_to_from_le_bytes();
    lemma_auto_spec_u32_to_from_le_bytes();
    let b = token_id_bytes(t) + rest;
    match t {
        TokenIdentifierView::Index(i) => {
            assert(b[0] == 0);
            assert(b.skip(1) =~= u64_bytes(i) + rest);
            lemma_u64_round_trip(i, rest);
        },
        TokenIdentifierView::Hash(h) => {
            assert(b[0] == 1);
            assert(b.skip(1) =~= string_bytes(h) + rest);
            lemma_string_round_trip(h, rest);
        },
    }
}

/// Encoding then decoding a royalty step yields the step back,
/// whatever follows the encoding.
pub proof fn lemma_step_round_trip(st: RoyaltyStepView, rest: Seq<u8>)
    requires
        st matches RoyaltyStepView::Minimum(m) ==> m < crate::amount::amount_limit(),
        st matches RoyaltyStepView::Flat(f) ==> f < crate::amount::amount_limit(),
        st matches RoyaltyStepView::Percentage(p) ==> p < crate::amount::percent_limit(),
    ensures
        dec_step(step_bytes(st) + rest) == Ok::<(RoyaltyStepView, int), CodecError>(
            (st, step_bytes(st).len() as int),
        ),
{
    let b = step_bytes(st) + rest;
    match st {
        RoyaltyStepView::Minimum(m) => {
            assert(b[0] == 0);
            assert(b.skip(1) =~= big_uint_bytes(m) + rest);
            lemma_big_round_trip(m, 64, rest);
        },
        RoyaltyStepView::Flat(f) => {
            assert(b[0] == 1);
            assert(b.skip(1) =~= big_uint_bytes(f) + rest);
            lemma_big_round_trip(f, 64, rest);
        },
        RoyaltyStepView::Percentage(p) => {
            assert(b[0] == 2);
            assert(b.skip(1) =~= big_uint_bytes(p) + rest);
            lemma_big_round_trip(p, 32, rest);
        },
    }
}

/// Encoding then decoding a royalty payment record yields the record
/// back, whatever follows the encoding.
pub proof fn lemma_payment_round_trip(p: RoyaltyPaymentStateView, rest: Seq<u8>)
    requires
        p matches RoyaltyPaymentStateView::Paid { amount, .. } ==> amount
            < crate::amount::amount_limit(),
    ensures
        dec_payment(payment_state_bytes(p) + rest) == Ok::<
            (RoyaltyPaymentStateView, int),
            CodecError,
        >((p, payment_state_bytes(p).len() as int)),
{
    let b = payment_state_bytes(p) + rest;
    match p {
        RoyaltyPaymentStateView::Unpaid => {
            assert(b[0] == 0);
        },
        RoyaltyPaymentStateView::Paid { payer, source_key, amount } => {
            assert(b[0] == 1);
            lemma_auto_spec_u64_to_from_le_bytes();
            assert(key_bytes(payer).len() == 33);
            assert(key_bytes(source_key).len() == 33);
            let rest1 = key_bytes(source_key) + big_uint_bytes(amount) + rest;
            assert(b.skip(1) =~= key_bytes(payer) + rest1);
            lemma_key_round_trip(payer, rest1);
            let rest2 = big_uint_bytes(amount) + rest;
            assert(b.skip(34) =~= key_bytes(source_key) + rest2);
            lemma_key_round_trip(source_key, rest2);
            assert(b.skip(67) =~= big_uint_bytes(amount) + rest);
            lemma_big_round_trip(amount, 64, rest);
        },
    }
}

/// Encoding then decoding a listing record yields the record back,
/// whatever follows the encoding.
#[verifier::rlimit(50)]
pub proof fn lemma_entry_round_trip(e: OrderbookEntryView, rest: Seq<u8>)
    requires
        e.price < crate::amount::amount_limit(),
        e.token_id matches TokenIdentifierView::Hash(h) ==> encode_utf8(h).len() <= u32::MAX,
    ensures
        dec_entry(entry_bytes(e) + rest) == Ok::<(OrderbookEntryView, int), CodecError>(
            (e, entry_bytes(e).len() as int),
        ),
{
    lemma_auto_spec_u64_to_from_le_bytes();
    assert(key_bytes(e.owner).len() == 33);
    let b = entry_bytes(e) + rest;
    let rest1 = key_bytes(e.owner) + token_id_bytes(e.token_id) + big_uint_bytes(e.price) + rest;
    assert(b =~= u64_bytes(e.nft_contract_id) + rest1);
    lemma_u64_round_trip(e.nft_contract_id, rest1);
    assert(b.take(8) =~= (u64_bytes(e.nft_contract_id) + rest1).take(8));
    let rest2 = token_id_bytes(e.token_id) + big_uint_bytes(e.price) + rest;
    assert(b.skip(8) =~= key_bytes(e.owner) + rest2);
    lemma_key_round_trip(e.owner, rest2);
    let rest3 = big_uint_bytes(e.price) + rest;
    assert(b.skip(41) =~= token_id_bytes(e.token_id) + rest3);
    lemma_token_id_round_trip(e.token_id, rest3);
    assert(b.skip(41 + token_id_bytes(e.token_id).len() as int) =~= big_uint_bytes(e.price) + rest);
    lemma_big_round_trip(e.price, 64, rest);
}

} // verus!
