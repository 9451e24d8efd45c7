//! Byte-order strategies and the endian-tagged byte cursor that every
//! decoder operates on.

use vstd::prelude::*;
use vstd::slice::slice_subrange;

verus! {

/// The numeric value of the byte sequence `s` read little-endian: the first
/// byte is the least significant.
pub open spec fn le_value(s: Seq<u8>) -> nat
    decreases s.len(),
{
    if s.len() == 0 {
        0
    } else {
        (s[0] + 256 * le_value(s.skip(1))) as nat
    }
}

/// The numeric value of the byte sequence `s` read big-endian: the last
/// byte is the least significant.
pub open spec fn be_value(s: Seq<u8>) -> nat
    decreases s.len(),
{
    if s.len() == 0 {
        0
    } else {
        (256 * be_value(s.drop_last()) + s.last()) as nat
    }
}

/// The numeric value of the byte sequence `s` in the byte order selected by
/// `big`.
pub open spec fn word_value(s: Seq<u8>, big: bool) -> nat {
    if big {
        be_value(s)
    } else {
        le_value(s)
    }
}

/// `256^n`: the exclusive upper bound on the value of an `n`-byte sequence.
pub open spec fn pow256(n: nat) -> nat
    decreases n,
{
    if n == 0 {
        1
    } else {
        256 * pow256((n - 1) as nat)
    }
}

/// A little-endian value is bounded by `256^len`.
pub proof fn lemma_le_value_bound(s: Seq<u8>)
    ensures
        le_value(s) < pow256(s.len()),
    decreases s.len(),
{
    if s.len() > 0 {
        lemma_le_value_bound(s.skip(1));
    }
}

/// A big-endian value is bounded by `256^len`.
pub proof fn lemma_be_value_bound(s: Seq<u8>)
    ensures
        be_value(s) < pow256(s.len()),
    decreases s.len(),
{
    if s.len() > 0 {
        lemma_be_value_bound(s.drop_last());
    }
}

/// A value in either byte order is bounded by `256^len`.
pub proof fn lemma_word_value_bound(s: Seq<u8>, big: bool)
    ensures
        word_value(s, big) < pow256(s.len()),
{
    lemma_le_value_bound(s);
    lemma_be_value_bound(s);
}

/// `256^n` is monotonic in `n`.
pub proof fn lemma_pow256_monotonic(a: nat, b: nat)
    requires
        a <= b,
    ensures
        pow256(a) <= pow256(b),
    decreases b,
{
    if a < b {
        lemma_pow256_monotonic(a, (b - 1) as nat);
    }
}

/// A byte-order strategy, selected at the type level and shared by every
/// multi-byte decode on a given cursor.
pub trait Endianity: Sized + Clone + Copy {
    /// Whether this byte order is big-endian.
    spec fn spec_big() -> bool;

    /// Whether this byte order is big-endian.
    fn is_big() -> (r: bool)
        ensures
            r == Self::spec_big(),
    ;
}

/// Little-endian byte order.
#[derive(Debug, Clone, Copy, PartialEq, Eq)]
pub struct LittleEndian;

impl Endianity for LittleEndian {
    open spec fn spec_big() -> bool {
        false
    }

    fn is_big() -> (r: bool) {
        false
    }
}

/// Big-endian byte order.
#[derive(Debug, Clone, Copy, PartialEq, Eq)]
pub struct BigEndian;

impl Endianity for BigEndian {
    open spec fn spec_big() -> bool {
        true
    }

    fn is_big() -> (r: bool) {
        true
    }
}

/// A borrowed view of the remaining input bytes, tagged with the byte order
/// that multi-byte decodes on it must use.
///
/// A cursor never exposes bytes beyond its declared length.  It is a value
/// type: decoders return a fresh cursor over the untouched remainder and
/// leave the caller's cursor as it was.
#[derive(Debug, Copy, PartialEq, Eq)]
pub struct EndianBuf<'input, Endian: Endianity> {
    /// The remaining bytes.
    pub buf: &'input [u8],
    /// The byte-order tag.
    pub endian: core::marker::PhantomData<Endian>,
}

impl<'input, Endian: Endianity> Clone for EndianBuf<'input, Endian> {
    fn clone(&self) -> (r: Self)
        ensures
            r == *self,
    {
        EndianBuf { buf: self.buf, endian: core::marker::PhantomData }
    }
}

impl<'input, Endian: Endianity> View for EndianBuf<'input, Endian> {
    type V = Seq<u8>;

    open spec fn view(&self) -> Seq<u8> {
        self.buf@
    }
}

impl<'input, Endian: Endianity> EndianBuf<'input, Endian> {
    /// Construct a new cursor over the whole of `buf`.
    pub fn new(buf: &'input [u8]) -> (r: Self)
        ensures
            r@ == buf@,
    {
        EndianBuf { buf, endian: core::marker::PhantomData }
    }

    /// The number of bytes remaining.
    pub fn len(&self) -> (r: usize)
        ensures
            r == self@.len(),
    {
        self.buf.len()
    }

    /// Whether no bytes remain.
    pub fn is_empty(&self) -> (r: bool)
        ensures
            r == (self@.len() == 0),
    {
        self.buf.len() == 0
    }

    /// The remaining bytes as a plain slice.
    pub fn into_slice(self) -> (r: &'input [u8])
        ensures
            r@ == self@,
    {
        self.buf
    }

    /// The cursor positioned `start` bytes further along.
    pub fn range_from(self, start: usize) -> (r: Self)
        requires
            start <= self@.len(),
        ensures
            r@ == self@.skip(start as int),
    {
        EndianBuf {
            buf: slice_subrange(self.buf, start, self.buf.len()),
            endian: core::marker::PhantomData,
        }
    }

    /// The first `end` bytes of the cursor.
    pub fn range_to(self, end: usize) -> (r: Self)
        requires
            end <= self@.len(),
        ensures
            r@ == self@.take(end as int),
    {
        EndianBuf { buf: slice_subrange(self.buf, 0, end), endian: core::marker::PhantomData }
    }
}

/// Read the first `n` bytes of `buf` as an `n`-byte integer in the byte
/// order selected by `Endian`.
pub fn read_word<Endian: Endianity>(buf: &[u8], n: usize) -> (r: u64)
    requires
        n <= 8,
        n <= buf@.len(),
    ensures
        r == word_value(buf@.take(n as int), Endian::spec_big()),
{
    proof {
        lemma_pow256_eight();
    }
    if Endian::is_big() {
        let mut acc: u64 = 0;
        let mut i: usize = 0;
        while i < n
            invariant
                i <= n,
                n <= 8,
                n <= buf@.len(),
                acc == be_value(buf@.take(i as int)),
                acc < pow256(i as nat),
                pow256(8) == 0x1_0000_0000_0000_0000,
            decreases n - i,
        {
            proof {
                lemma_pow256_monotonic((i + 1) as nat, 8);
                assert(buf@.take((i + 1) as int).drop_last() =~= buf@.take(i as int));
                assert(buf@.take((i + 1) as int).last() == buf@[i as int]);
            }
            acc = acc * 256 + buf[i] as u64;
            i = i + 1;
        }
        proof {
            assert(buf@.take(n as int) =~= buf@.take(n as int));
        }
        acc
    } else {
        let mut acc: u64 = 0;
        let mut i: usize = n;
        while i > 0
            invariant
                i <= n,
                n <= 8,
                n <= buf@.len(),
                acc == le_value(buf@.subrange(i as int, n as int)),
                acc < pow256((n - i) as nat),
                pow256(8) == 0x1_0000_0000_0000_0000,
            decreases i,
        {
            proof {
                lemma_pow256_monotonic((n - i + 1) as nat, 8);
                assert(buf@.subrange(i as int - 1, n as int).skip(1) =~= buf@.subrange(
                    i as int,
                    n as int,
                ));
                assert(buf@.subrange(i as int - 1, n as int)[0] == buf@[i as int - 1]);
            }
            i = i - 1;
            acc = acc * 256 + buf[i] as u64;
        }
        proof {
            assert(buf@.subrange(0, n as int) =~= buf@.take(n as int));
        }
        acc
    }
}

/// `256^8` is the exclusive bound of a `u64`.
pub proof fn lemma_pow256_eight()
    ensures
        pow256(8) == 0x1_0000_0000_0000_0000,
{
    reveal_with_fuel(pow256, 9);
}

} // verus!

verus! {

/// The numeric value of the byte sequence `s` in the byte order selected
/// by `big`, reinterpreted as a two's complement signed integer of
/// `s.len()` bytes.
pub open spec fn signed_word_value(s: Seq<u8>, big: bool) -> int {
    let w = word_value(s, big) as int;
    if 2 * w >= pow256(s.len()) {
        w - pow256(s.len())
    } else {
        w
    }
}

} // verus!

verus! {

/// The `n`-byte little-endian encoding of `v`: its base-256 digits, least
/// significant first.
pub open spec fn le_bytes(v: nat, n: nat) -> Seq<u8>
    decreases n,
{
    if n == 0 {
        Seq::empty()
    } else {
        seq![(v % 256) as u8] + le_bytes(v / 256, (n - 1) as nat)
    }
}

/// The `n`-byte encoding of `v` in the byte order selected by `big`.
pub open spec fn word_bytes(v: nat, n: nat, big: bool) -> Seq<u8> {
    if big {
        le_bytes(v, n).reverse()
    } else {
        le_bytes(v, n)
    }
}

/// A little-endian encoding has exactly the requested length.
pub proof fn lemma_le_bytes_len(v: nat, n: nat)
    ensures
        le_bytes(v, n).len() == n,
    decreases n,
{
    if n > 0 {
        lemma_le_bytes_len(v / 256, (n - 1) as nat);
    }
}

/// Reading back a little-endian encoding of a value below `256^n` yields
/// the value.
pub proof fn lemma_le_bytes_value(v: nat, n: nat)
    requires
        v < pow256(n),
    ensures
        le_value(le_bytes(v, n)) == v,
    decreases n,
{
    if n > 0 {
        vstd::arithmetic::div_mod::lemma_fundamental_div_mod(v as int, 256);
        if v / 256 >= pow256((n - 1) as nat) {
            assert(256 * (v / 256) >= 256 * pow256((n - 1) as nat)) by (nonlinear_arith)
                requires
                    v / 256 >= pow256((n - 1) as nat),
            ;
            assert(false);
        }
        lemma_le_bytes_value(v / 256, (n - 1) as nat);
        lemma_le_bytes_len(v / 256, (n - 1) as nat);
        let s = le_bytes(v, n);
        assert(s[0] == (v % 256) as u8);
        assert(s.skip(1) =~= le_bytes(v / 256, (n - 1) as nat));
    }
}

/// The big-endian value of a reversed sequence is its little-endian value.
pub proof fn lemma_be_of_reverse(s: Seq<u8>)
    ensures
        be_value(s.reverse()) == le_value(s),
    decreases s.len(),
{
    if s.len() > 0 {
        lemma_be_of_reverse(s.skip(1));
        assert(s.reverse().drop_last() =~= s.skip(1).reverse());
        assert(s.reverse().last() == s[0]);
    }
}

/// Reading back an encoding of a value below `256^n`, in either byte
/// order, yields the value.
pub proof fn lemma_word_bytes_value(v: nat, n: nat, big: bool)
    requires
        v < pow256(n),
    ensures
        word_bytes(v, n, big).len() == n,
        word_value(word_bytes(v, n, big), big) == v,
{
    lemma_le_bytes_len(v, n);
    lemma_le_bytes_value(v, n);
    if big {
        lemma_be_of_reverse(le_bytes(v, n));
    }
}

} // verus!
