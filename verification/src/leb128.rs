//! Verified LEB128 variable-length integer coding.
//!
//! A LEB128 quantity is stored as a little-endian sequence of 7-bit digits,
//! one per byte; bit `0x80` of each byte flags that another byte follows.
//! The unsigned reader accepts at most ten bytes and rejects values that do
//! not fit in a `u64`; the signed reader sign-extends from the final digit
//! and rejects values that do not fit in an `i64`.

use vstd::prelude::*;
use vstd::slice::slice_subrange;

verus! {

/// Why a LEB128 read failed.
#[derive(Debug, Clone, Copy, PartialEq, Eq, Structural)]
pub enum ReadError {
    /// The input ended before the final byte of the quantity.
    UnexpectedEof,
    /// The quantity does not fit in the requested 64-bit width.
    Overflow,
}

/// The index of the first byte of `s` without the continuation bit, or `-1`
/// when every byte of `s` has it set.
pub open spec fn first_low(s: Seq<u8>) -> int
    decreases s.len(),
{
    if s.len() == 0 {
        -1
    } else if s[0] < 0x80 {
        0
    } else {
        let r = first_low(s.skip(1));
        if r < 0 {
            -1
        } else {
            r + 1
        }
    }
}

/// `128^n`: the weight of the `n`th LEB128 digit.
pub open spec fn pow128(n: nat) -> nat
    decreases n,
{
    if n == 0 {
        1
    } else {
        128 * pow128((n - 1) as nat)
    }
}

/// The value of the 7-bit digits of `s` at indices `0 ..= k`, each weighted
/// by `128` to the power of its index.
pub open spec fn digits_value(s: Seq<u8>, k: int) -> nat
    decreases k + 1,
{
    if k < 0 {
        0
    } else {
        (digits_value(s, k - 1) + (s[k] % 0x80) * pow128(k as nat)) as nat
    }
}

/// What reading an unsigned LEB128 quantity from `s` yields: the value and
/// the number of bytes consumed, or the reason the read fails.
///
/// The read fails with end-of-input when no byte ends the digit sequence,
/// and with overflow when the sequence ends after more than ten digits, or
/// at a tenth digit that would contribute beyond bit 63.
pub open spec fn spec_read_unsigned(s: Seq<u8>) -> Result<(u64, int), ReadError> {
    let k = first_low(s);
    if k < 0 {
        Err(ReadError::UnexpectedEof)
    } else if k <= 8 || (k == 9 && s[9] <= 1) {
        Ok((digits_value(s, k) as u64, k + 1))
    } else {
        Err(ReadError::Overflow)
    }
}

/// What reading a signed LEB128 quantity from `s` yields: the value and the
/// number of bytes consumed, or the reason the read fails.
///
/// The final digit's bit `0x40` is the sign: when it is set, the value is
/// the raw digit value minus `128` to the power of the digit count.  A
/// tenth digit may only be `0x00` or `0x7f`, contributing nothing but the
/// sign of bit 63.
pub open spec fn spec_read_signed(s: Seq<u8>) -> Result<(i64, int), ReadError> {
    let k = first_low(s);
    if k < 0 {
        Err(ReadError::UnexpectedEof)
    } else if k <= 8 {
        let raw = digits_value(s, k) as int;
        let v = if s[k] >= 0x40 {
            raw - pow128((k + 1) as nat)
        } else {
            raw
        };
        Ok((v as i64, k + 1))
    } else if k == 9 && (s[9] == 0 || s[9] == 0x7f) {
        let raw = digits_value(s, 8) as int;
        let v = if s[9] == 0x7f {
            raw - 0x8000_0000_0000_0000
        } else {
            raw
        };
        Ok((v as i64, 10))
    } else {
        Err(ReadError::Overflow)
    }
}

/// When the bytes of `s` before `k` all have the continuation bit and the
/// byte at `k` does not, `k` is the first low byte.
pub proof fn lemma_first_low_at(s: Seq<u8>, k: int)
    requires
        0 <= k < s.len(),
        s[k] < 0x80,
        forall|j: int| 0 <= j < k ==> s[j] >= 0x80,
    ensures
        first_low(s) == k,
    decreases k,
{
    if k > 0 {
        assert forall|j: int| 0 <= j < k - 1 implies s.skip(1)[j] >= 0x80 by {
            assert(s.skip(1)[j] == s[j + 1]);
        }
        assert(s.skip(1)[k - 1] == s[k]);
        lemma_first_low_at(s.skip(1), k - 1);
    }
}

/// When every byte of `s` has the continuation bit, there is no first low
/// byte.
pub proof fn lemma_first_low_none(s: Seq<u8>)
    requires
        forall|j: int| 0 <= j < s.len() ==> s[j] >= 0x80,
    ensures
        first_low(s) < 0,
    decreases s.len(),
{
    if s.len() > 0 {
        assert forall|j: int| 0 <= j < s.len() - 1 implies s.skip(1)[j] >= 0x80 by {
            assert(s.skip(1)[j] == s[j + 1]);
        }
        lemma_first_low_none(s.skip(1));
    }
}

/// `128^9` is `2^63`.
pub proof fn lemma_pow128_nine()
    ensures
        pow128(9) == 0x8000_0000_0000_0000,
{
    reveal_with_fuel(pow128, 10);
}

/// `128^n` is at least one.
pub proof fn lemma_pow128_pos(n: nat)
    ensures
        pow128(n) >= 1,
    decreases n,
{
    if n > 0 {
        lemma_pow128_pos((n - 1) as nat);
    }
}

/// `128^n` is monotonic in `n`.
pub proof fn lemma_pow128_monotonic(a: nat, b: nat)
    requires
        a <= b,
    ensures
        pow128(a) <= pow128(b),
    decreases b,
{
    if a < b {
        lemma_pow128_monotonic(a, (b - 1) as nat);
    }
}

/// Read an unsigned LEB128 quantity from the front of `input`, returning
/// the untouched remainder and the value.
pub fn read_unsigned(input: &[u8]) -> (r: Result<(&[u8], u64), ReadError>)
    ensures
        match spec_read_unsigned(input@) {
            Ok(vn) => r matches Ok(p) && p.1 == vn.0 && p.0@ == input@.skip(vn.1),
            Err(e) => r matches Err(e2) && e2 == e,
        },
{
    proof {
        lemma_pow128_nine();
    }
    let ghost s = input@;
    let mut i: usize = 0;
    let mut acc: u64 = 0;
    let mut p: u64 = 1;
    loop
        invariant
            s == input@,
            i <= 9,
            i <= s.len(),
            forall|j: int| 0 <= j < i ==> s[j] >= 0x80,
            acc == digits_value(s, i as int - 1),
            p == pow128(i as nat),
            acc < p,
            pow128(9) == 0x8000_0000_0000_0000,
        decreases s.len() - i,
    {
        if i >= input.len() {
            proof {
                lemma_first_low_none(s);
            }
            return Err(ReadError::UnexpectedEof);
        }
        let b = input[i];
        if i == 9 && b != 0 && b != 1 {
            // The tenth digit would contribute beyond bit 63: the sequence
            // cannot fit in a u64.  Scan to its end to tell a malformed
            // sequence apart from a truncated one.
            let mut j: usize = i;
            loop
                invariant
                    s == input@,
                    9 <= j < s.len(),
                    forall|jj: int| 0 <= jj < j ==> s[jj] >= 0x80,
                    s.len() > 9,
                    s[9] > 1,
                decreases s.len() - j,
            {
                if input[j] < 0x80 {
                    proof {
                        lemma_first_low_at(s, j as int);
                    }
                    return Err(ReadError::Overflow);
                }
                j = j + 1;
                if j >= input.len() {
                    proof {
                        lemma_first_low_none(s);
                    }
                    return Err(ReadError::UnexpectedEof);
                }
            }
        }
        let low: u64 = (b % 0x80) as u64;
        proof {
            if i < 9 {
                lemma_pow128_monotonic((i + 1) as nat, 9);
            }
            assert(low * p <= 127 * p) by (nonlinear_arith)
                requires
                    low <= 127,
                    p >= 0,
            ;
        }
        acc = acc + low * p;
        if b < 0x80 {
            proof {
                lemma_first_low_at(s, i as int);
            }
            return Ok((slice_subrange(input, i + 1, input.len()), acc));
        }
        assert(i < 9);
        p = p * 128;
        i = i + 1;
    }
}

/// Read a signed LEB128 quantity from the front of `input`, returning the
/// untouched remainder and the sign-extended value.
pub fn read_signed(input: &[u8]) -> (r: Result<(&[u8], i64), ReadError>)
    ensures
        match spec_read_signed(input@) {
            Ok(vn) => r matches Ok(p) && p.1 == vn.0 && p.0@ == input@.skip(vn.1),
            Err(e) => r matches Err(e2) && e2 == e,
        },
{
    proof {
        lemma_pow128_nine();
    }
    let ghost s = input@;
    let mut i: usize = 0;
    let mut acc: u64 = 0;
    let mut p: u64 = 1;
    loop
        invariant
            s == input@,
            i <= 9,
            i <= s.len(),
            forall|j: int| 0 <= j < i ==> s[j] >= 0x80,
            acc == digits_value(s, i as int - 1),
            p == pow128(i as nat),
            acc < p,
            pow128(9) == 0x8000_0000_0000_0000,
        decreases s.len() - i,
    {
        if i >= input.len() {
            proof {
                lemma_first_low_none(s);
            }
            return Err(ReadError::UnexpectedEof);
        }
        let b = input[i];
        if i == 9 {
            if b != 0 && b != 0x7f {
                // The tenth digit can only repeat the sign of bit 63: any
                // other digit cannot fit in an i64.  Scan to the end of the
                // sequence to tell malformed apart from truncated.
                let mut j: usize = i;
                loop
                    invariant
                        s == input@,
                        9 <= j < s.len(),
                        forall|jj: int| 0 <= jj < j ==> s[jj] >= 0x80,
                        s.len() > 9,
                        s[9] != 0 && s[9] != 0x7f,
                    decreases s.len() - j,
                {
                    if input[j] < 0x80 {
                        proof {
                            lemma_first_low_at(s, j as int);
                        }
                        return Err(ReadError::Overflow);
                    }
                    j = j + 1;
                    if j >= input.len() {
                        proof {
                            lemma_first_low_none(s);
                        }
                        return Err(ReadError::UnexpectedEof);
                    }
                }
            }
            proof {
                lemma_first_low_at(s, 9);
            }
            let v: i64 = if b == 0x7f {
                if acc == 0 {
                    i64::MIN
                } else {
                    -((0x8000_0000_0000_0000u64 - acc) as i64)
                }
            } else {
                acc as i64
            };
            return Ok((slice_subrange(input, i + 1, input.len()), v));
        }
        let low: u64 = (b % 0x80) as u64;
        proof {
            lemma_pow128_monotonic((i + 1) as nat, 9);
            assert(low * p <= 127 * p) by (nonlinear_arith)
                requires
                    low <= 127,
                    p >= 0,
            ;
            if b % 0x80 < 0x40 {
                assert(low * p <= 63 * p) by (nonlinear_arith)
                    requires
                        low <= 63,
                        p >= 0,
                ;
            }
        }
        acc = acc + low * p;
        if b < 0x80 {
            proof {
                lemma_first_low_at(s, i as int);
            }
            let ghost m = pow128((i + 1) as nat);
            let v: i64 = if b >= 0x40 {
                let mag = p * 128 - acc;
                proof {
                    assert(0x40 * p <= low * p) by (nonlinear_arith)
                        requires
                            0x40 <= low,
                            p >= 0,
                    ;
                }
                -(mag as i64)
            } else {
                acc as i64
            };
            return Ok((slice_subrange(input, i + 1, input.len()), v));
        }
        assert(i < 9);
        p = p * 128;
        i = i + 1;
    }
}

} // verus!

verus! {

/// The canonical unsigned LEB128 encoding of `v`: little-endian 7-bit
/// digits, the continuation bit on every byte but the last.
pub open spec fn spec_encode_unsigned(v: nat) -> Seq<u8>
    decreases v,
    via spec_encode_unsigned_decreases
{
    if v < 0x80 {
        seq![v as u8]
    } else {
        seq![((v % 0x80) + 0x80) as u8] + spec_encode_unsigned(v / 0x80)
    }
}

#[via_fn]
proof fn spec_encode_unsigned_decreases(v: nat) {
    if v >= 0x80 {
        vstd::arithmetic::div_mod::lemma_fundamental_div_mod(v as int, 0x80);
    }
}

/// The canonical signed LEB128 encoding of `v`: little-endian 7-bit digits
/// of the two's complement form, ending at the first digit whose bit `0x40`
/// already gives the sign of `v`.
pub open spec fn spec_encode_signed(v: int) -> Seq<u8>
    decreases (if v < 0 { -v } else { v }),
    via spec_encode_signed_decreases
{
    if -64 <= v < 64 {
        seq![(v % 0x80) as u8]
    } else {
        seq![((v % 0x80) + 0x80) as u8] + spec_encode_signed(v / 0x80)
    }
}

#[via_fn]
proof fn spec_encode_signed_decreases(v: int) {
    if !(-64 <= v < 64) {
        vstd::arithmetic::div_mod::lemma_fundamental_div_mod(v, 0x80);
    }
}

/// The shape of an unsigned encoding: at least one byte, every byte but the
/// last carrying the continuation bit, the last byte without it.
pub proof fn lemma_encode_unsigned_shape(v: nat)
    ensures
        spec_encode_unsigned(v).len() >= 1,
        spec_encode_unsigned(v).last() < 0x80,
        forall|j: int|
            0 <= j < spec_encode_unsigned(v).len() - 1 ==> #[trigger] spec_encode_unsigned(v)[j]
                >= 0x80,
    decreases v,
{
    if v >= 0x80 {
        vstd::arithmetic::div_mod::lemma_fundamental_div_mod(v as int, 0x80);
        lemma_encode_unsigned_shape(v / 0x80);
        let e = spec_encode_unsigned(v);
        let e1 = spec_encode_unsigned(v / 0x80);
        assert(e.last() == e1.last());
        assert forall|j: int| 0 <= j < e.len() - 1 implies e[j] >= 0x80 by {
            if j > 0 {
                assert(e[j] == e1[j - 1]);
            }
        }
    }
}

/// The shape of a signed encoding: at least one byte, every byte but the
/// last carrying the continuation bit, the last byte without it and with
/// bit `0x40` set exactly when `v` is negative.
pub proof fn lemma_encode_signed_shape(v: int)
    ensures
        spec_encode_signed(v).len() >= 1,
        spec_encode_signed(v).last() < 0x80,
        (spec_encode_signed(v).last() >= 0x40) == (v < 0),
        forall|j: int|
            0 <= j < spec_encode_signed(v).len() - 1 ==> #[trigger] spec_encode_signed(v)[j]
                >= 0x80,
    decreases (if v < 0 { -v } else { v }),
{
    vstd::arithmetic::div_mod::lemma_fundamental_div_mod(v, 0x80);
    if !(-64 <= v < 64) {
        lemma_encode_signed_shape(v / 0x80);
        let e = spec_encode_signed(v);
        let e1 = spec_encode_signed(v / 0x80);
        assert(e.last() == e1.last());
        assert forall|j: int| 0 <= j < e.len() - 1 implies e[j] >= 0x80 by {
            if j > 0 {
                assert(e[j] == e1[j - 1]);
            }
        }
    }
}

} // verus!

verus! {

/// Prepending one byte shifts every digit weight up by one: the digits of
/// `seq![b] + t` up to `k` are worth the low digit `b % 0x80` plus `128`
/// times the digits of `t` up to `k - 1`.
pub proof fn lemma_digits_value_cons(b: u8, t: Seq<u8>, k: int)
    requires
        0 <= k <= t.len(),
    ensures
        digits_value(seq![b] + t, k) == (b % 0x80) + 128 * digits_value(t, k - 1),
    decreases k,
{
    let s = seq![b] + t;
    if k == 0 {
        assert(s[0] == b);
        assert(digits_value(s, -1) == 0);
        assert(digits_value(t, -1) == 0);
        assert(pow128(0) == 1);
        assert(digits_value(s, 0) == (s[0] % 0x80) * pow128(0));
    } else {
        lemma_digits_value_cons(b, t, k - 1);
        assert(s[k] == t[k - 1]);
        assert(pow128(k as nat) == 128 * pow128((k - 1) as nat));
        let low = (t[k - 1] % 0x80) as int;
        let pw = pow128((k - 1) as nat) as int;
        assert(low * (128 * pw) == 128 * (low * pw)) by (nonlinear_arith);
        assert(digits_value(s, k) == digits_value(s, k - 1) + (s[k] % 0x80) * pow128(k as nat));
        assert(digits_value(t, k - 1) == digits_value(t, k - 2) + (t[k - 1] % 0x80) * pow128(
            (k - 1) as nat,
        ));
    }
}

/// The digits of `s` up to `k` are worth less than `128^(k + 1)`.
pub proof fn lemma_digits_value_bound(s: Seq<u8>, k: int)
    ensures
        digits_value(s, k) < pow128((k + 1) as nat),
    decreases k + 1,
{
    if k < 0 {
        assert(digits_value(s, k) == 0);
        lemma_pow128_pos((k + 1) as nat);
    } else {
        lemma_digits_value_bound(s, k - 1);
        let low = (s[k] % 0x80) as int;
        let pw = pow128(k as nat) as int;
        assert(low * pw <= 127 * pw) by (nonlinear_arith)
            requires
                low <= 127,
                pw >= 0,
        ;
        assert(digits_value(s, k) == digits_value(s, k - 1) + (s[k] % 0x80) * pow128(k as nat));
        assert(pow128((k + 1) as nat) == 128 * pow128(k as nat));
    }
}

/// The digits of an unsigned encoding of `v`, followed by anything, are
/// worth exactly `v`.
pub proof fn lemma_encode_unsigned_value(v: nat, rest: Seq<u8>)
    ensures
        digits_value(spec_encode_unsigned(v) + rest, spec_encode_unsigned(v).len() - 1) == v,
    decreases v,
{
    let e = spec_encode_unsigned(v);
    let s = e + rest;
    if v < 0x80 {
        assert(s =~= seq![v as u8] + rest);
        assert(s[0] == v as u8);
        assert(digits_value(s, -1) == 0);
        assert(pow128(0) == 1);
        assert(digits_value(s, 0) == (s[0] % 0x80) * pow128(0));
    } else {
        vstd::arithmetic::div_mod::lemma_fundamental_div_mod(v as int, 0x80);
        let b = ((v % 0x80) + 0x80) as u8;
        let e1 = spec_encode_unsigned(v / 0x80);
        lemma_encode_unsigned_value(v / 0x80, rest);
        assert(e + rest =~= seq![b] + (e1 + rest));
        lemma_digits_value_cons(b, e1 + rest, e.len() - 1);
        assert(b % 0x80 == v % 0x80);
        assert(e.len() - 1 == e1.len());
        assert(digits_value(e + rest, e.len() - 1) == (b % 0x80) + 128 * digits_value(
            e1 + rest,
            e1.len() - 1,
        ));
    }
}

/// The digits of a signed encoding of `v`, followed by anything, are worth
/// `v` itself when `v` is non-negative, and `v` plus `128` to the power of
/// the encoding's length when `v` is negative.
pub proof fn lemma_encode_signed_value(v: int, rest: Seq<u8>)
    ensures
        digits_value(spec_encode_signed(v) + rest, spec_encode_signed(v).len() - 1) == v + (
        if v < 0 {
            pow128(spec_encode_signed(v).len() as nat) as int
        } else {
            0
        }),
    decreases (if v < 0 { -v } else { v }),
{
    let e = spec_encode_signed(v);
    vstd::arithmetic::div_mod::lemma_fundamental_div_mod(v, 0x80);
    let s = e + rest;
    if -64 <= v < 64 {
        assert(s =~= seq![(v % 0x80) as u8] + rest);
        assert(s[0] == (v % 0x80) as u8);
        assert(digits_value(s, -1) == 0);
        assert(pow128(0) == 1);
        reveal_with_fuel(pow128, 3);
        assert(pow128(1) == 128);
        assert(digits_value(s, 0) == (s[0] % 0x80) * pow128(0));
        if v < 0 {
            assert(v % 0x80 == v + 0x80);
        } else {
            assert(v % 0x80 == v);
        }
    } else {
        let b = ((v % 0x80) + 0x80) as u8;
        let e1 = spec_encode_signed(v / 0x80);
        lemma_encode_signed_value(v / 0x80, rest);
        assert(e + rest =~= seq![b] + (e1 + rest));
        lemma_digits_value_cons(b, e1 + rest, e.len() - 1);
        assert(b % 0x80 == v % 0x80);
        assert(e.len() - 1 == e1.len());
        assert(digits_value(e + rest, e.len() - 1) == (b % 0x80) + 128 * digits_value(
            e1 + rest,
            e1.len() - 1,
        ));
        if v < 0 {
            assert(v / 0x80 < 0) by {
                if v / 0x80 >= 0 {
                    assert(v == 0x80 * (v / 0x80) + (v % 0x80));
                }
            }
            assert(pow128(e.len() as nat) == 128 * pow128(e1.len() as nat));
        } else {
            assert(v / 0x80 >= 0) by {
                if v / 0x80 < 0 {
                    assert(0x80 * (v / 0x80) <= -0x80) by (nonlinear_arith)
                        requires
                            v / 0x80 <= -1,
                    ;
                }
            }
        }
    }
}

} // verus!

verus! {

/// `128^10` exceeds every `u64`, and `64 * 128^9` exceeds every `i64`
/// magnitude.
pub proof fn lemma_pow128_ten()
    ensures
        pow128(10) == 0x400_0000_0000_0000_000,
{
    reveal_with_fuel(pow128, 11);
}

/// An unsigned encoding of a value below `128^n` has at most `n` bytes.
pub proof fn lemma_encode_unsigned_len(v: nat, n: nat)
    requires
        n >= 1,
        v < pow128(n),
    ensures
        spec_encode_unsigned(v).len() <= n,
    decreases n,
{
    if v >= 0x80 {
        vstd::arithmetic::div_mod::lemma_fundamental_div_mod(v as int, 0x80);
        reveal_with_fuel(pow128, 3);
        assert(pow128(1) == 128);
        assert(pow128(n) == 128 * pow128((n - 1) as nat));
        if v / 0x80 >= pow128((n - 1) as nat) {
            assert(0x80 * (v / 0x80) >= 0x80 * pow128((n - 1) as nat)) by (nonlinear_arith)
                requires
                    v / 0x80 >= pow128((n - 1) as nat),
            ;
            assert(false);
        }
        lemma_encode_unsigned_len(v / 0x80, (n - 1) as nat);
    }
}

/// A signed encoding of a value within `[-64 * 128^(n-1), 64 * 128^(n-1))`
/// has at most `n` bytes.
pub proof fn lemma_encode_signed_len(v: int, n: nat)
    requires
        n >= 1,
        -64 * pow128((n - 1) as nat) <= v < 64 * pow128((n - 1) as nat),
    ensures
        spec_encode_signed(v).len() <= n,
    decreases n,
{
    if !(-64 <= v < 64) {
        vstd::arithmetic::div_mod::lemma_fundamental_div_mod(v, 0x80);
        let m = pow128((n - 2) as nat) as int;
        assert(pow128((n - 1) as nat) == 128 * m);
        if v / 0x80 >= 64 * m {
            assert(0x80 * (v / 0x80) >= 0x80 * (64 * m)) by (nonlinear_arith)
                requires
                    v / 0x80 >= 64 * m,
            ;
            assert(false);
        }
        if v / 0x80 < -64 * m {
            assert(0x80 * (v / 0x80) <= 0x80 * (-64 * m - 1)) by (nonlinear_arith)
                requires
                    v / 0x80 <= -64 * m - 1,
            ;
            assert(false);
        }
        lemma_encode_signed_len(v / 0x80, (n - 1) as nat);
    }
}

/// Unsigned LEB128 round trip: reading back the encoding of any `u64`,
/// followed by any further bytes, yields exactly the value and consumes
/// exactly the encoding.
pub proof fn lemma_unsigned_round_trip(v: u64, rest: Seq<u8>)
    ensures
        ({
            let e = spec_encode_unsigned(v as nat);
            spec_read_unsigned(e + rest) == Ok::<(u64, int), ReadError>((v, e.len() as int))
        }),
{
    let e = spec_encode_unsigned(v as nat);
    let s = e + rest;
    let k = e.len() - 1;
    lemma_encode_unsigned_shape(v as nat);
    lemma_encode_unsigned_value(v as nat, rest);
    lemma_pow128_nine();
    lemma_pow128_ten();
    lemma_encode_unsigned_len(v as nat, 10);
    assert forall|j: int| 0 <= j < k implies s[j] >= 0x80 by {
        assert(s[j] == e[j]);
    }
    assert(s[k] == e[k] && e[k] == e.last());
    lemma_first_low_at(s, k);
    if k == 9 {
        lemma_digits_value_bound(s, 8);
        assert(digits_value(s, 9) == digits_value(s, 8) + (s[9] % 0x80) * pow128(9));
        if s[9] % 0x80 >= 2 {
            assert((s[9] % 0x80) * pow128(9) >= 2 * pow128(9)) by (nonlinear_arith)
                requires
                    s[9] % 0x80 >= 2,
                    pow128(9) >= 0,
            ;
            assert(false);
        }
        assert(s[9] <= 1);
    }
}

/// Signed LEB128 round trip: reading back the encoding of any `i64`,
/// followed by any further bytes, yields exactly the value and consumes
/// exactly the encoding.
pub proof fn lemma_signed_round_trip(v: i64, rest: Seq<u8>)
    ensures
        ({
            let e = spec_encode_signed(v as int);
            spec_read_signed(e + rest) == Ok::<(i64, int), ReadError>((v, e.len() as int))
        }),
{
    let e = spec_encode_signed(v as int);
    let s = e + rest;
    let k = e.len() - 1;
    lemma_encode_signed_shape(v as int);
    lemma_encode_signed_value(v as int, rest);
    lemma_pow128_nine();
    lemma_pow128_ten();
    lemma_encode_signed_len(v as int, 10);
    assert forall|j: int| 0 <= j < k implies s[j] >= 0x80 by {
        assert(s[j] == e[j]);
    }
    assert(s[k] == e[k] && e[k] == e.last());
    lemma_first_low_at(s, k);
    if k <= 8 {
    } else {
        lemma_digits_value_bound(s, 8);
        assert(digits_value(s, 9) == digits_value(s, 8) + (s[9] % 0x80) * pow128(9));
        if v >= 0 {
            if s[9] >= 1 {
                assert((s[9] % 0x80) * pow128(9) >= 1 * pow128(9)) by (nonlinear_arith)
                    requires
                        s[9] % 0x80 >= 1,
                        pow128(9) >= 0,
                ;
                assert(false);
            }
            assert(s[9] == 0);
        } else {
            if s[9] % 0x80 <= 126 {
                assert((s[9] % 0x80) * pow128(9) <= 126 * pow128(9)) by (nonlinear_arith)
                    requires
                        s[9] % 0x80 <= 126,
                        pow128(9) >= 0,
                ;
                assert(false);
            }
            assert(s[9] == 0x7f);
            assert((0x7fu8 % 0x80) * pow128(9) == 127 * pow128(9));
        }
    }
}

/// Truncation of an unsigned encoding is reported as end-of-input, never as
/// a malformed quantity: every strict prefix of an encoding consists of
/// continuation bytes only.
pub proof fn lemma_unsigned_truncated_eof(v: u64, n: int)
    requires
        0 <= n < spec_encode_unsigned(v as nat).len(),
    ensures
        spec_read_unsigned(spec_encode_unsigned(v as nat).take(n)) == Err::<
            (u64, int),
            ReadError,
        >(ReadError::UnexpectedEof),
{
    lemma_encode_unsigned_shape(v as nat);
    let e = spec_encode_unsigned(v as nat);
    let t = e.take(n);
    assert forall|j: int| 0 <= j < n implies t[j] >= 0x80 by {
        assert(t[j] == e[j]);
    }
    lemma_first_low_none(t);
}

/// Truncation of a signed encoding is reported as end-of-input, never as a
/// malformed quantity.
pub proof fn lemma_signed_truncated_eof(v: i64, n: int)
    requires
        0 <= n < spec_encode_signed(v as int).len(),
    ensures
        spec_read_signed(spec_encode_signed(v as int).take(n)) == Err::<
            (i64, int),
            ReadError,
        >(ReadError::UnexpectedEof),
{
    lemma_encode_signed_shape(v as int);
    let e = spec_encode_signed(v as int);
    let t = e.take(n);
    assert forall|j: int| 0 <= j < n implies t[j] >= 0x80 by {
        assert(t[j] == e[j]);
    }
    lemma_first_low_none(t);
}

} // verus!
