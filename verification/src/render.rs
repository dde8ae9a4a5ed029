//! Text: comparing strings, and writing numbers and addresses as text.
//!
//! Text is built as ASCII bytes and turned into a `String` once. The
//! contracts say which bytes, and `ascii_chars` says which characters they
//! are.

use crate::frame::text::string_from_utf8;
use vstd::prelude::*;
use vstd::utf8::{
    encode_utf8, encode_utf8_decode_utf8, encode_utf8_valid_utf8, is_ascii_chars,
    is_ascii_chars_encode_utf8,
};

verus! {

/// The characters that ASCII bytes stand for.
pub open spec fn ascii_chars(bytes: Seq<u8>) -> Seq<char> {
    Seq::new(bytes.len(), |i: int| bytes[i] as char)
}

/// Whether every byte is ASCII.
pub open spec fn all_ascii(bytes: Seq<u8>) -> bool {
    forall|i: int| 0 <= i < bytes.len() ==> #[trigger] bytes[i] < 128
}

/// ASCII bytes are the UTF-8 form of the characters they stand for.
pub proof fn lemma_ascii_is_utf8(bytes: Seq<u8>)
    requires
        all_ascii(bytes),
    ensures
        encode_utf8(ascii_chars(bytes)) == bytes,
{
    let chars = ascii_chars(bytes);
    assert(is_ascii_chars(chars)) by {
        assert forall|i: int| 0 <= i < chars.len() implies '\0' <= #[trigger] chars[i]
            <= '\u{7f}' by {
            assert(bytes[i] < 128);
        }
    }
    is_ascii_chars_encode_utf8(chars);
    assert(encode_utf8(chars) =~= bytes) by {
        assert forall|i: int| 0 <= i < bytes.len() implies encode_utf8(chars)[i] == bytes[i] by {
            assert(bytes[i] < 128);
            assert(chars[i] as u8 == encode_utf8(chars)[i]);
        }
    }
}

/// The string that ASCII bytes spell.
pub fn ascii_string(bytes: &Vec<u8>) -> (s: String)
    requires
        all_ascii(bytes@),
    ensures
        s@ == ascii_chars(bytes@),
{
    proof {
        lemma_ascii_is_utf8(bytes@);
        encode_utf8_valid_utf8(ascii_chars(bytes@));
        encode_utf8_decode_utf8(ascii_chars(bytes@));
    }
    match string_from_utf8(bytes) {
        Ok(s) => s,
        Err(_) => String::new(),
    }
}

/// Strings with the same UTF-8 form are the same string.
pub proof fn lemma_utf8_injective(a: Seq<char>, b: Seq<char>)
    requires
        encode_utf8(a) == encode_utf8(b),
    ensures
        a == b,
{
    encode_utf8_decode_utf8(a);
    encode_utf8_decode_utf8(b);
}

/// Whether two strings are the same.
pub fn str_eq(a: &str, b: &str) -> (r: bool)
    ensures
        r == (a@ == b@),
{
    let x = a.as_bytes();
    let y = b.as_bytes();
    if x.len() != y.len() {
        return false;
    }
    let mut i: usize = 0;
    while i < x.len()
        invariant
            i <= x.len(),
            x.len() == y.len(),
            x@ == encode_utf8(a@),
            y@ == encode_utf8(b@),
            forall|k: int| 0 <= k < i ==> x@[k] == y@[k],
        decreases x.len() - i,
    {
        if x[i] != y[i] {
            return false;
        }
        i = i + 1;
    }
    proof {
        assert(x@ =~= y@);
        lemma_utf8_injective(a@, b@);
    }
    true
}

/// A byte with an ASCII capital letter made small; any other byte as it
/// is.
pub open spec fn spec_ascii_lower(b: u8) -> u8 {
    if 65 <= b <= 90 {
        (b + 32) as u8
    } else {
        b
    }
}

/// Whether two strings differ at most in the case of ASCII letters: their
/// UTF-8 forms have the same length and agree byte for byte once capital
/// ASCII letters are made small.
pub open spec fn spec_eq_ignore_ascii_case(a: Seq<char>, b: Seq<char>) -> bool {
    let x = encode_utf8(a);
    let y = encode_utf8(b);
    x.len() == y.len() && forall|i: int|
        0 <= i < x.len() ==> spec_ascii_lower(#[trigger] x[i]) == spec_ascii_lower(y[i])
}

fn ascii_lower(b: u8) -> (r: u8)
    ensures
        r == spec_ascii_lower(b),
{
    if 65 <= b && b <= 90 {
        b + 32
    } else {
        b
    }
}

/// Whether two strings differ at most in the case of ASCII letters.
pub fn eq_ignore_ascii_case(a: &str, b: &str) -> (r: bool)
    ensures
        r == spec_eq_ignore_ascii_case(a@, b@),
{
    let x = a.as_bytes();
    let y = b.as_bytes();
    if x.len() != y.len() {
        return false;
    }
    let mut i: usize = 0;
    while i < x.len()
        invariant
            i <= x.len(),
            x.len() == y.len(),
            x@ == encode_utf8(a@),
            y@ == encode_utf8(b@),
            forall|k: int| 0 <= k < i ==> spec_ascii_lower(#[trigger] x@[k]) == spec_ascii_lower(
                y@[k],
            ),
        decreases x.len() - i,
    {
        if ascii_lower(x[i]) != ascii_lower(y[i]) {
            return false;
        }
        i = i + 1;
    }
    true
}

/// The ASCII digit for a number below 16: `0` to `9`, then `a` to `f`.
pub open spec fn digit_byte(d: nat) -> u8 {
    if d < 10 {
        (48 + d) as u8
    } else {
        (87 + d) as u8
    }
}

/// A number in base 10, without leading zeros; zero is one digit.
pub open spec fn decimal_bytes(n: nat) -> Seq<u8>
    decreases n,
{
    if n < 10 {
        seq![digit_byte(n)]
    } else {
        decimal_bytes(n / 10).push(digit_byte(n % 10))
    }
}

/// A number in base 16, without leading zeros; zero is one digit.
pub open spec fn lean_hex_bytes(n: nat) -> Seq<u8>
    decreases n,
{
    if n < 16 {
        seq![digit_byte(n)]
    } else {
        lean_hex_bytes(n / 16).push(digit_byte(n % 16))
    }
}

/// A whole number in base 10, with a minus sign where it is negative.
pub open spec fn signed_decimal_bytes(n: int) -> Seq<u8> {
    if n < 0 {
        seq![45u8] + decimal_bytes((-n) as nat)
    } else {
        decimal_bytes(n as nat)
    }
}

/// The last `width` digits of a number in base 16, with leading zeros.
pub open spec fn hex_bytes(n: nat, width: nat) -> Seq<u8>
    decreases width,
{
    if width == 0 {
        Seq::empty()
    } else {
        hex_bytes(n / 16, (width - 1) as nat).push(digit_byte(n % 16))
    }
}

pub proof fn lemma_decimal_ascii(n: nat)
    ensures
        all_ascii(decimal_bytes(n)),
        decimal_bytes(n).len() >= 1,
    decreases n,
{
    if n >= 10 {
        lemma_decimal_ascii(n / 10);
    }
}

pub proof fn lemma_lean_hex_ascii(n: nat)
    ensures
        all_ascii(lean_hex_bytes(n)),
        lean_hex_bytes(n).len() >= 1,
    decreases n,
{
    if n >= 16 {
        lemma_lean_hex_ascii(n / 16);
    }
}

pub proof fn lemma_signed_decimal_ascii(n: int)
    ensures
        all_ascii(signed_decimal_bytes(n)),
{
    if n < 0 {
        lemma_decimal_ascii((-n) as nat);
    } else {
        lemma_decimal_ascii(n as nat);
    }
}

pub proof fn lemma_ipv4_ascii(a: Seq<u8>)
    ensures
        all_ascii(ipv4_bytes(a)),
{
    lemma_decimal_ascii(a[0] as nat);
    lemma_decimal_ascii(a[1] as nat);
    lemma_decimal_ascii(a[2] as nat);
    lemma_decimal_ascii(a[3] as nat);
}

pub proof fn lemma_groups_ascii(groups: Seq<nat>)
    ensures
        all_ascii(groups_bytes(groups)),
    decreases groups.len(),
{
    if groups.len() == 1 {
        lemma_lean_hex_ascii(groups[0]);
    } else if groups.len() > 1 {
        lemma_groups_ascii(groups.drop_last());
        lemma_lean_hex_ascii(groups.last());
    }
}

pub proof fn lemma_ipv6_ascii(a: Seq<u8>)
    ensures
        all_ascii(ipv6_bytes(a)),
{
    let groups = ipv6_groups(a);
    let start = longest_zero_run(groups, 7);
    let len = zero_run(groups, start);
    lemma_ipv4_ascii(a.skip(12));
    lemma_groups_ascii(groups.take(start));
    lemma_groups_ascii(groups.skip(start + len));
    lemma_groups_ascii(groups);
}

pub proof fn lemma_hex_ascii(n: nat, width: nat)
    ensures
        all_ascii(hex_bytes(n, width)),
        hex_bytes(n, width).len() == width,
    decreases width,
{
    if width > 0 {
        lemma_hex_ascii(n / 16, (width - 1) as nat);
    }
}

fn digit(d: u8) -> (b: u8)
    requires
        d < 16,
    ensures
        b == digit_byte(d as nat),
        b < 128,
{
    if d < 10 {
        48 + d
    } else {
        87 + d
    }
}

/// Appends a number in base 10 to `out`.
pub fn push_decimal(out: &mut Vec<u8>, n: u64)
    ensures
        final(out)@ == old(out)@ + decimal_bytes(n as nat),
    decreases n,
{
    if n >= 10 {
        push_decimal(out, n / 10);
    }
    out.push(digit((n % 10) as u8));
    assert(out@ =~= old(out)@ + decimal_bytes(n as nat));
}

/// Appends a number in base 16, without leading zeros, to `out`.
pub fn push_lean_hex(out: &mut Vec<u8>, n: u64)
    ensures
        final(out)@ == old(out)@ + lean_hex_bytes(n as nat),
    decreases n,
{
    if n >= 16 {
        push_lean_hex(out, n / 16);
    }
    out.push(digit((n % 16) as u8));
    assert(out@ =~= old(out)@ + lean_hex_bytes(n as nat));
}

/// Appends a whole number in base 10 to `out`.
pub fn push_signed_decimal(out: &mut Vec<u8>, n: i64)
    ensures
        final(out)@ == old(out)@ + signed_decimal_bytes(n as int),
{
    if n < 0 {
        out.push(45u8);
        let magnitude: u64 = if n == i64::MIN {
            0x8000_0000_0000_0000u64
        } else {
            (-n) as u64
        };
        push_decimal(out, magnitude);
        assert(out@ =~= old(out)@ + signed_decimal_bytes(n as int));
    } else {
        push_decimal(out, n as u64);
    }
}

/// Appends the last `width` digits of a number in base 16 to `out`.
pub fn push_hex(out: &mut Vec<u8>, n: u128, width: u32)
    ensures
        final(out)@ == old(out)@ + hex_bytes(n as nat, width as nat),
    decreases width,
{
    if width > 0 {
        push_hex(out, n / 16, width - 1);
        out.push(digit((n % 16) as u8));
        assert(out@ =~= old(out)@ + hex_bytes(n as nat, width as nat));
    } else {
        assert(out@ =~= old(out)@ + hex_bytes(n as nat, width as nat));
    }
}

/// An IPv4 address as text: its four octets in base 10, with dots between.
pub open spec fn ipv4_bytes(a: Seq<u8>) -> Seq<u8>
    recommends
        a.len() == 4,
{
    decimal_bytes(a[0] as nat) + seq![46u8] + decimal_bytes(a[1] as nat) + seq![46u8]
        + decimal_bytes(a[2] as nat) + seq![46u8] + decimal_bytes(a[3] as nat)
}

/// Appends an IPv4 address as text to `out`.
pub fn push_ipv4(out: &mut Vec<u8>, a: &[u8])
    requires
        a@.len() == 4,
    ensures
        final(out)@ == old(out)@ + ipv4_bytes(a@),
{
    push_decimal(out, a[0] as u64);
    out.push(46u8);
    push_decimal(out, a[1] as u64);
    out.push(46u8);
    push_decimal(out, a[2] as u64);
    out.push(46u8);
    push_decimal(out, a[3] as u64);
    assert(out@ =~= old(out)@ + ipv4_bytes(a@));
}

/// The eight 16-bit groups of an IPv6 address.
pub open spec fn ipv6_groups(a: Seq<u8>) -> Seq<nat>
    recommends
        a.len() == 16,
{
    Seq::new(8, |i: int| (a[2 * i] as nat) * 256 + a[2 * i + 1] as nat)
}

/// How many groups from `i` on are zero without a break.
pub open spec fn zero_run(groups: Seq<nat>, i: int) -> nat
    decreases groups.len() - i,
{
    if i < 0 || i >= groups.len() || groups[i] != 0 {
        0
    } else {
        1 + zero_run(groups, i + 1)
    }
}

/// Where the longest run of zero groups starts, among the runs that start
/// at or before `i`; the first of them where several are as long.
pub open spec fn longest_zero_run(groups: Seq<nat>, i: int) -> int
    decreases i,
{
    if i <= 0 {
        0
    } else {
        let best = longest_zero_run(groups, i - 1);
        if zero_run(groups, i) > zero_run(groups, best) {
            i
        } else {
            best
        }
    }
}

/// Groups in base 16, with colons between.
pub open spec fn groups_bytes(groups: Seq<nat>) -> Seq<u8>
    decreases groups.len(),
{
    if groups.len() == 0 {
        Seq::empty()
    } else if groups.len() == 1 {
        lean_hex_bytes(groups[0])
    } else {
        groups_bytes(groups.drop_last()) + seq![58u8] + lean_hex_bytes(groups.last())
    }
}

/// Whether an IPv6 address stands for an IPv4 address: ten zero octets,
/// then two of all ones.
pub open spec fn ipv6_is_mapped(a: Seq<u8>) -> bool
    recommends
        a.len() == 16,
{
    &&& forall|i: int| 0 <= i < 10 ==> a[i] == 0
    &&& a[10] == 255
    &&& a[11] == 255
}

/// An IPv6 address as text. One that stands for an IPv4 address is
/// `::ffff:` and that address. Any other is its eight groups in base 16
/// with colons between, where the longest run of two or more zero groups,
/// the first of them where several are as long, gives way to `::`.
pub open spec fn ipv6_bytes(a: Seq<u8>) -> Seq<u8>
    recommends
        a.len() == 16,
{
    let groups = ipv6_groups(a);
    let start = longest_zero_run(groups, 7);
    let len = zero_run(groups, start);
    if ipv6_is_mapped(a) {
        seq![58u8, 58u8, 102u8, 102u8, 102u8, 102u8, 58u8] + ipv4_bytes(a.skip(12))
    } else if len > 1 {
        groups_bytes(groups.take(start)) + seq![58u8, 58u8] + groups_bytes(
            groups.skip(start + len),
        )
    } else {
        groups_bytes(groups)
    }
}

/// Appends the groups from `from` up to `to` in base 16 to `out`, with
/// colons between.
fn push_groups(out: &mut Vec<u8>, groups: &[u16; 8], from: usize, to: usize)
    requires
        from <= to <= 8,
    ensures
        final(out)@ == old(out)@ + groups_bytes(
            Seq::new(8, |i: int| groups@[i] as nat).subrange(from as int, to as int),
        ),
{
    let ghost all = Seq::new(8, |i: int| groups@[i] as nat);
    let mut i: usize = from;
    assert(all.subrange(from as int, from as int) =~= Seq::<nat>::empty());
    while i < to
        invariant
            from <= i <= to <= 8,
            all == Seq::new(8, |i: int| groups@[i] as nat),
            out@ == old(out)@ + groups_bytes(all.subrange(from as int, i as int)),
        decreases to - i,
    {
        let ghost done = all.subrange(from as int, i as int);
        let ghost next = all.subrange(from as int, i as int + 1);
        assert(next.drop_last() =~= done);
        assert(next.last() == groups@[i as int] as nat);
        if i > from {
            out.push(58u8);
        }
        push_lean_hex(out, groups[i] as u64);
        assert(out@ =~= old(out)@ + groups_bytes(next));
        i = i + 1;
    }
}

/// Appends an IPv6 address as text to `out`.
pub fn push_ipv6(out: &mut Vec<u8>, a: &[u8; 16])
    ensures
        final(out)@ == old(out)@ + ipv6_bytes(a@),
{
    let ghost spec_groups = ipv6_groups(a@);
    let mut zeros: bool = true;
    let mut k: usize = 0;
    while k < 10
        invariant
            k <= 10,
            zeros == (forall|i: int| 0 <= i < k ==> a@[i] == 0),
        decreases 10 - k,
    {
        if a[k] != 0 {
            zeros = false;
        }
        k = k + 1;
    }
    if zeros && a[10] == 255 && a[11] == 255 {
        out.push(58u8);
        out.push(58u8);
        out.push(102u8);
        out.push(102u8);
        out.push(102u8);
        out.push(102u8);
        out.push(58u8);
        let tail = vstd::slice::slice_subrange(a.as_slice(), 12, 16);
        assert(tail@ =~= a@.skip(12));
        push_ipv4(out, tail);
        assert(out@ =~= old(out)@ + ipv6_bytes(a@));
        return;
    }
    let mut groups: [u16; 8] = [0u16; 8];
    let mut g: usize = 0;
    while g < 8
        invariant
            g <= 8,
            forall|i: int| 0 <= i < g ==> groups@[i] as nat == (a@[2 * i] as nat) * 256 + a@[2 * i
                + 1] as nat,
        decreases 8 - g,
    {
        let hi: u16 = a[2 * g] as u16;
        let lo: u16 = a[2 * g + 1] as u16;
        groups[g] = hi * 256 + lo;
        g = g + 1;
    }
    let ghost all = Seq::new(8, |i: int| groups@[i] as nat);
    assert(all =~= spec_groups);
    let mut runs: [u8; 8] = [0u8; 8];
    let mut j: usize = 8;
    while j > 0
        invariant
            j <= 8,
            all == Seq::new(8, |i: int| groups@[i] as nat),
            forall|i: int| j <= i < 8 ==> runs@[i] as nat == zero_run(all, i) && runs@[i] <= 8 - i,
        decreases j,
    {
        j = j - 1;
        let after: u8 = if j + 1 < 8 {
            runs[j + 1]
        } else {
            0
        };
        assert(after as nat == zero_run(all, j + 1) && after <= 7 - j) by {
            if j + 1 < 8 {
                assert(runs@[j + 1] as nat == zero_run(all, j + 1));
            }
        }
        let ghost before = runs@;
        assert(all[j as int] == groups@[j as int] as nat);
        if groups[j] == 0 {
            runs[j] = after + 1;
        } else {
            runs[j] = 0;
        }
        assert forall|i: int| j <= i < 8 implies runs@[i] as nat == zero_run(all, i) && runs@[i]
            <= 8 - i by {
            if i > j {
                assert(runs@[i] == before[i]);
                assert(before[i] as nat == zero_run(all, i));
                assert(before[i] <= 8 - i);
            } else {
                assert(i == j);
                assert(all.len() == 8);
                assert(zero_run(all, i) == if all[i] != 0 {
                    0nat
                } else {
                    1 + zero_run(all, i + 1)
                });
            }
        }
    }
    let mut best: usize = 0;
    let mut m: usize = 1;
    while m < 8
        invariant
            1 <= m <= 8,
            best < m,
            best == longest_zero_run(all, m - 1),
            forall|i: int| 0 <= i < 8 ==> runs@[i] as nat == zero_run(all, i) && runs@[i] <= 8 - i,
        decreases 8 - m,
    {
        if runs[m] > runs[best] {
            best = m;
        }
        m = m + 1;
    }
    let len: usize = runs[best] as usize;
    if len > 1 {
        push_groups(out, &groups, 0, best);
        out.push(58u8);
        out.push(58u8);
        push_groups(out, &groups, best + len, 8);
        assert(all.subrange(0, best as int) =~= all.take(best as int));
        assert(all.subrange(best + len, 8) =~= all.skip(best + len));
        assert(out@ =~= old(out)@ + ipv6_bytes(a@));
    } else {
        push_groups(out, &groups, 0, 8);
        assert(all.subrange(0, 8) =~= all);
    }
}

} // verus!
