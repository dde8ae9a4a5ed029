//! Variable-length encoding of unsigned 64-bit integers.
//!
//! A value below 240 is one byte. A larger value starts with a byte whose
//! high nibble is all ones and whose low nibble holds the value's four
//! lowest bits; what is left, less 240 and shifted down by four, follows in
//! groups of seven bits, each byte but the last with its top bit set.

use super::buf::{get_u8, max_written, put_u8, remaining, unread, written};
use super::error::Error;
use bytes::BytesMut;
use std::io::Cursor;
use vstd::arithmetic::div_mod::{lemma_add_mod_noop, lemma_mul_mod_noop_right, lemma_small_mod};
use vstd::prelude::*;

verus! {

#[derive(Debug, Clone, Copy, PartialEq, Eq, Structural)]
pub enum VarintError {
    InsufficientBytes,
}

/// Two to the power 64: decoded values are taken modulo this.
pub open spec fn two_pow_64() -> nat {
    0x1_0000_0000_0000_0000
}

/// The bytes after the first that spell `w`: seven bits a byte, every byte
/// but the last with its top bit set.
pub open spec fn varint_tail(w: nat) -> Seq<u8>
    decreases w,
{
    if w < 128 {
        seq![w as u8]
    } else {
        seq![(128 + w % 128) as u8] + varint_tail(((w - 128) / 128) as nat)
    }
}

/// The encoding of `v`.
pub open spec fn varint_bytes(v: u64) -> Seq<u8> {
    if v < 240 {
        seq![v as u8]
    } else {
        seq![(240 + v % 16) as u8] + varint_tail(((v - 240) / 16) as nat)
    }
}

/// Reads the bytes after the first. `acc` is the value read so far and
/// `scale` the weight of the next byte. Gives the value, if a byte below 128
/// ends the number before the input does, and how many bytes were read.
pub open spec fn varint_rest(s: Seq<u8>, acc: nat, scale: nat) -> (Option<nat>, nat)
    decreases s.len(),
{
    if s.len() == 0 {
        (None, 0)
    } else {
        let next = acc + s[0] as nat * scale;
        if s[0] < 128 {
            (Some(next), 1)
        } else {
            let r = varint_rest(s.skip(1), next, scale * 128);
            (r.0, r.1 + 1)
        }
    }
}

/// What decoding makes of the bytes `s`: the value or the error, and how
/// many bytes it reads. A first byte below 240 is the value. Otherwise each
/// further byte `b` adds `b` times 16, 16 * 128, 16 * 128 * 128 and so on,
/// up to and including the first byte below 128. A sum that does not fit in
/// 64 bits wraps.
pub open spec fn spec_parse_varint(s: Seq<u8>) -> (Result<u64, VarintError>, nat) {
    if s.len() == 0 {
        (Err(VarintError::InsufficientBytes), 0)
    } else if s[0] < 240 {
        (Ok(s[0] as u64), 1)
    } else {
        let r = varint_rest(s.skip(1), s[0] as nat, 16);
        match r.0 {
            Some(v) => (Ok((v % two_pow_64()) as u64), r.1 + 1),
            None => (Err(VarintError::InsufficientBytes), r.1 + 1),
        }
    }
}

/// Decoding never reads more than there is, and reads at least one byte of
/// a non-empty input.
pub proof fn lemma_varint_rest_used(s: Seq<u8>, acc: nat, scale: nat)
    ensures
        varint_rest(s, acc, scale).1 <= s.len(),
        s.len() > 0 ==> varint_rest(s, acc, scale).1 >= 1,
        varint_rest(s, acc, scale).0 is None ==> varint_rest(s, acc, scale).1 == s.len(),
    decreases s.len(),
{
    if s.len() > 0 && s[0] >= 128 {
        lemma_varint_rest_used(s.skip(1), acc + s[0] as nat * scale, scale * 128);
    }
}

pub proof fn lemma_parse_varint_used(s: Seq<u8>)
    ensures
        spec_parse_varint(s).1 <= s.len(),
        s.len() > 0 ==> spec_parse_varint(s).1 >= 1,
        spec_parse_varint(s).0 is Err ==> spec_parse_varint(s).1 == s.len(),
{
    if s.len() > 0 && s[0] >= 240 {
        lemma_varint_rest_used(s.skip(1), s[0] as nat, 16);
    }
}

/// Reading `varint_tail(w)`, whatever follows it, adds `w * scale` and
/// stops where it ends.
pub proof fn lemma_varint_tail_read(w: nat, rest: Seq<u8>, acc: nat, scale: nat)
    ensures
        varint_rest(varint_tail(w) + rest, acc, scale) == (
            Some(acc + w * scale),
            varint_tail(w).len(),
        ),
    decreases w,
{
    let s = varint_tail(w) + rest;
    if w < 128 {
        assert(s[0] == w as u8);
    } else {
        let up: nat = ((w - 128) / 128) as nat;
        let b: nat = 128 + w % 128;
        assert(s[0] == b as u8);
        assert(s.skip(1) =~= varint_tail(up) + rest);
        lemma_varint_tail_read(up, rest, acc + b * scale, scale * 128);
        assert(w == b + 128 * up);
        assert(w * scale == b * scale + up * (scale * 128)) by (nonlinear_arith)
            requires
                w == b + 128 * up,
        ;
    }
}

/// 128 to the power `k`.
pub open spec fn pow128(k: nat) -> nat
    decreases k,
{
    if k == 0 {
        1
    } else {
        128 * pow128((k - 1) as nat)
    }
}

/// A number below 128 to the power `k` takes at most `k` bytes after the
/// first.
pub proof fn lemma_varint_tail_len(w: nat, k: nat)
    requires
        k >= 1,
        w < pow128(k),
    ensures
        1 <= varint_tail(w).len() <= k,
    decreases k,
{
    if w >= 128 {
        if k == 1 {
            assert(pow128(1) == 128) by {
                reveal_with_fuel(pow128, 2);
            }
        } else {
            lemma_varint_tail_len(((w - 128) / 128) as nat, (k - 1) as nat);
        }
    }
}

/// Decoding undoes encoding, whatever follows the encoded bytes, and reads
/// exactly the bytes that encoding wrote; these are at most ten, and one for
/// a value below 240.
pub proof fn lemma_varint_round_trip(v: u64, rest: Seq<u8>)
    ensures
        spec_parse_varint(varint_bytes(v) + rest) == (Ok::<u64, VarintError>(v), varint_bytes(v).len()),
        1 <= varint_bytes(v).len() <= 10,
        v < 240 ==> varint_bytes(v).len() == 1,
{
    let s = varint_bytes(v) + rest;
    if v < 240 {
        assert(s[0] == v as u8);
    } else {
        let up: nat = ((v - 240) / 16) as nat;
        let first: nat = (240 + v % 16) as nat;
        assert(s[0] == first as u8);
        assert(s.skip(1) =~= varint_tail(up) + rest);
        lemma_varint_tail_read(up, rest, first, 16);
        assert(first + up * 16 == v);
        lemma_small_mod(v as nat, two_pow_64());
        assert(pow128(9) == 0x8000_0000_0000_0000) by {
            reveal_with_fuel(pow128, 10);
        }
        lemma_varint_tail_len(up, 9);
    }
}

/// One step of decoding in 64-bit arithmetic that wraps agrees with the
/// same step on unbounded numbers, taken modulo two to the power 64.
proof fn lemma_wrapping_step(res: u64, scale: u64, acc: nat, weight: nat, b: u8)
    requires
        res == acc % two_pow_64(),
        scale == weight % two_pow_64(),
    ensures
        res.wrapping_add((b as u64).wrapping_mul(scale)) == (acc + b as nat * weight)
            % two_pow_64(),
        scale.wrapping_mul(128) == (weight * 128) % two_pow_64(),
{
    let m = two_pow_64() as int;
    let term: int = (b as int * scale as int) % m;
    assert(term == (b as int * weight as int) % m) by {
        lemma_mul_mod_noop_right(b as int, weight as int, m);
    }
    assert((b as u64).wrapping_mul(scale) == term);
    assert((res as int + term) % m == (acc as int + b as int * weight as int) % m) by {
        lemma_add_mod_noop(acc as int, b as int * weight as int, m);
    }
    assert(res.wrapping_add((b as u64).wrapping_mul(scale)) == (res as int + term) % m) by {
        if res as int + term >= m {
            lemma_small_mod((res as int + term - m) as nat, two_pow_64());
            vstd::arithmetic::div_mod::lemma_mod_sub_multiples_vanish(res as int + term, m);
        } else {
            lemma_small_mod((res as int + term) as nat, two_pow_64());
        }
    }
    assert((scale as int * 128) % m == (weight as int * 128) % m) by {
        vstd::arithmetic::div_mod::lemma_mul_mod_noop_left(weight as int, 128, m);
    }
}

/// Decodes one integer from the front of `src`.
///
/// Fails with `InsufficientBytes` when the input ends before the number
/// does; the cursor has then passed over all of it.
pub fn parse_varint(src: &mut Cursor<&[u8]>) -> (r: Result<u64, VarintError>)
    ensures
        r == spec_parse_varint(unread(*old(src))).0,
        unread(*final(src)) == unread(*old(src)).skip(
            spec_parse_varint(unread(*old(src))).1 as int,
        ),
{
    let ghost s0 = unread(*src);
    if remaining(src) < 1 {
        assert(s0.skip(0) =~= s0);
        return Err(VarintError::InsufficientBytes);
    }
    let first: u8 = get_u8(src);
    let mut res: u64 = first as u64;
    if first < 240 {
        return Ok(res);
    }
    let mut scale: u64 = 16;
    let ghost mut acc: nat = first as nat;
    let ghost mut weight: nat = 16;
    let ghost mut used: nat = 1;
    let ghost whole = varint_rest(s0.skip(1), first as nat, 16);
    loop
        invariant
            s0 == unread(*old(src)),
            s0.len() >= 1,
            s0[0] >= 240,
            whole == varint_rest(s0.skip(1), s0[0] as nat, 16),
            1 <= used <= s0.len(),
            unread(*src) == s0.skip(used as int),
            res == acc % two_pow_64(),
            scale == weight % two_pow_64(),
            whole.0 == varint_rest(unread(*src), acc, weight).0,
            whole.1 + 1 == varint_rest(unread(*src), acc, weight).1 + used,
        decreases s0.len() - used,
    {
        if remaining(src) < 1 {
            return Err(VarintError::InsufficientBytes);
        }
        let b: u8 = get_u8(src);
        proof {
            lemma_wrapping_step(res, scale, acc, weight, b);
            assert(s0.skip(used as int).skip(1) =~= s0.skip(used as int + 1));
        }
        res = res.wrapping_add((b as u64).wrapping_mul(scale));
        scale = scale.wrapping_mul(128);
        proof {
            acc = acc + b as nat * weight;
            weight = weight * 128;
            used = used + 1;
        }
        if b < 128 {
            return Ok(res);
        }
    }
}

/// Appends the encoding of `value` to `dst`. This never fails: it adds
/// between one and ten bytes, one for a value below 240, and keeps what
/// `dst` held.
#[verifier::loop_isolation(false)]
pub fn write_varint(dst: &mut BytesMut, value: u64) -> (r: Result<(), Error>)
    requires
        written(*old(dst)).len() + varint_bytes(value).len() <= max_written(),
    ensures
        r is Ok,
        written(*final(dst)) == written(*old(dst)) + varint_bytes(value),
        1 <= written(*final(dst)).len() - written(*old(dst)).len() <= 10,
        written(*final(dst)).take(written(*old(dst)).len() as int) == written(*old(dst)),
        value < 240 ==> written(*final(dst)) == written(*old(dst)).push(value as u8),
{
    let ghost w0 = written(*dst);
    proof {
        lemma_varint_round_trip(value, Seq::empty());
        assert((w0 + varint_bytes(value)).take(w0.len() as int) =~= w0);
        if value < 240 {
            assert(w0 + varint_bytes(value) =~= w0.push(value as u8));
        }
    }
    if value < 240 {
        put_u8(dst, value as u8);
        assert(w0.push(value as u8) =~= w0 + varint_bytes(value));
    } else {
        assert((value % 256 | 240) == 240 + value % 16) by (bit_vector);
        let first: u8 = (value % 256 | 240) as u8;
        put_u8(dst, first);
        let mut left: u64 = (value - 240) >> 4;
        assert(((value - 240) as u64) >> 4 == (value - 240) as u64 / 16) by (bit_vector);
        assert(w0.push(first) + varint_tail(left as nat) =~= w0 + varint_bytes(value));
        let ghost mut done: Seq<u8> = w0.push(first);
        while left >= 128
            invariant
                written(*dst) == done,
                done + varint_tail(left as nat) == w0 + varint_bytes(value),
                w0.len() + varint_bytes(value).len() <= max_written(),
            decreases left,
        {
            assert((left % 256 | 128) == 128 + left % 128) by (bit_vector);
            let b: u8 = (left % 256 | 128) as u8;
            let ghost before = left;
            assert(((left - 128) as u64) >> 7 == (left - 128) as u64 / 128) by (bit_vector)
                requires
                    left >= 128,
            ;
            assert((done + varint_tail(left as nat)).len() == (w0 + varint_bytes(value)).len());
            put_u8(dst, b);
            left = (left - 128) >> 7;
            proof {
                assert(done.push(b) + varint_tail(left as nat) =~= done + varint_tail(before as nat));
                done = done.push(b);
            }
        }
        assert((done + varint_tail(left as nat)).len() == (w0 + varint_bytes(value)).len());
        put_u8(dst, left as u8);
        assert(done.push(left as u8) =~= done + varint_tail(left as nat));
    }
    Ok(())
}

} // verus!
