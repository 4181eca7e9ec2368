//! Reading and writing fixed-width and variable-width integers at offsets,
//! with an explicit byte order, built purely atop `read_exact_at` and
//! `write_all_at`; and `ByteIo`, a wrapper that fixes the byte order once
//! so repeated calls omit it.

use std::marker::PhantomData;

use vstd::prelude::*;

use crate::{write_result, IoError, ReadAt, Size, WriteAt};

verus! {

/// A byte order for multi-byte integers: most significant byte first
/// (big-endian) or least significant byte first (little-endian).
pub trait ByteOrder {
    /// Whether this order is big-endian.
    spec fn is_big() -> bool;

    /// Tells at run time whether this order is big-endian.
    fn big() -> (b: bool)
        ensures
            b == Self::is_big(),
    ;
}

/// Most significant byte first.
#[derive(Clone, Copy, Debug)]
pub struct BigEndian;

/// Least significant byte first.
#[derive(Clone, Copy, Debug)]
pub struct LittleEndian;

impl ByteOrder for BigEndian {
    open spec fn is_big() -> bool {
        true
    }

    fn big() -> bool {
        true
    }
}

impl ByteOrder for LittleEndian {
    open spec fn is_big() -> bool {
        false
    }

    fn big() -> bool {
        false
    }
}

/// `256^n`: the number of values that `n` bytes can hold.
pub open spec fn pow256(n: nat) -> nat
    decreases n,
{
    if n == 0 {
        1
    } else {
        256 * pow256((n - 1) as nat)
    }
}

/// The value of `s` read as a little-endian unsigned integer.
pub open spec fn le_value(s: Seq<u8>) -> nat
    decreases s.len(),
{
    if s.len() == 0 {
        0
    } else {
        s[0] as nat + 256 * le_value(s.drop_first())
    }
}

/// The value of `s` read as a big-endian unsigned integer.
pub open spec fn be_value(s: Seq<u8>) -> nat
    decreases s.len(),
{
    if s.len() == 0 {
        0
    } else {
        256 * be_value(s.drop_last()) + s.last() as nat
    }
}

/// The value of `s` read as an unsigned integer in the given byte order.
pub open spec fn uint_value(big: bool, s: Seq<u8>) -> nat {
    if big {
        be_value(s)
    } else {
        le_value(s)
    }
}

/// The value of `s` read as a signed two's-complement integer in the
/// given byte order.
pub open spec fn int_value(big: bool, s: Seq<u8>) -> int {
    let u = uint_value(big, s);
    if u < pow256(s.len()) / 2 {
        u as int
    } else {
        u - pow256(s.len())
    }
}

/// The `n` little-endian bytes of `v`.
pub open spec fn le_bytes(v: nat, n: nat) -> Seq<u8>
    decreases n,
{
    if n == 0 {
        Seq::empty()
    } else {
        seq![(v % 256) as u8] + le_bytes(v / 256, (n - 1) as nat)
    }
}

/// The `n` bytes of `v` in the given byte order.
pub open spec fn uint_bytes(big: bool, v: nat, n: nat) -> Seq<u8> {
    if big {
        le_bytes(v, n).reverse()
    } else {
        le_bytes(v, n)
    }
}

/// The concrete values of `pow256` up to eight bytes.
proof fn lemma_pow256_values()
    ensures
        pow256(0) == 1,
        pow256(1) == 0x100,
        pow256(2) == 0x10000,
        pow256(3) == 0x1000000,
        pow256(4) == 0x100000000,
        pow256(5) == 0x10000000000,
        pow256(6) == 0x1000000000000,
        pow256(7) == 0x100000000000000,
        pow256(8) == 0x10000000000000000,
{
    reveal_with_fuel(pow256, 9);
}

/// `pow256` is positive.
proof fn lemma_pow256_pos(n: nat)
    ensures
        pow256(n) >= 1,
    decreases n,
{
    if n > 0 {
        lemma_pow256_pos((n - 1) as nat);
    }
}

/// `pow256` grows with its argument.
proof fn lemma_pow256_mono(a: nat, b: nat)
    requires
        a <= b,
    ensures
        pow256(a) <= pow256(b),
    decreases b,
{
    if a < b {
        lemma_pow256_mono(a, (b - 1) as nat);
        lemma_pow256_pos((b - 1) as nat);
    }
}

/// A little-endian value fits in as many bytes as encode it.
proof fn lemma_le_value_bound(s: Seq<u8>)
    ensures
        le_value(s) < pow256(s.len()),
    decreases s.len(),
{
    if s.len() > 0 {
        lemma_le_value_bound(s.drop_first());
    }
}

/// A big-endian value fits in as many bytes as encode it.
proof fn lemma_be_value_bound(s: Seq<u8>)
    ensures
        be_value(s) < pow256(s.len()),
    decreases s.len(),
{
    if s.len() > 0 {
        lemma_be_value_bound(s.drop_last());
    }
}

/// A value fits in as many bytes as encode it, in either byte order.
pub proof fn lemma_uint_value_bound(big: bool, s: Seq<u8>)
    ensures
        uint_value(big, s) < pow256(s.len()),
{
    if big {
        lemma_be_value_bound(s);
    } else {
        lemma_le_value_bound(s);
    }
}

/// Reversing the bytes swaps the two byte orders.
proof fn lemma_be_of_reverse(s: Seq<u8>)
    ensures
        be_value(s.reverse()) == le_value(s),
    decreases s.len(),
{
    if s.len() > 0 {
        lemma_be_of_reverse(s.drop_first());
        assert(s.reverse().drop_last() =~= s.drop_first().reverse());
        assert(s.reverse().last() == s[0]);
    }
}

/// Decoding the bytes of `v` gives `v` back, in either byte order: the
/// codec round-trips exactly.
pub proof fn lemma_uint_codec_round_trip(big: bool, v: nat, n: nat)
    requires
        v < pow256(n),
    ensures
        uint_value(big, uint_bytes(big, v, n)) == v,
        uint_bytes(big, v, n).len() == n,
{
    lemma_le_bytes_len(v, n);
    lemma_le_round_trip(v, n);
    if big {
        lemma_be_of_reverse(le_bytes(v, n));
    }
}

/// The encoding produces exactly `n` bytes.
proof fn lemma_le_bytes_len(v: nat, n: nat)
    ensures
        le_bytes(v, n).len() == n,
    decreases n,
{
    if n > 0 {
        lemma_le_bytes_len(v / 256, (n - 1) as nat);
    }
}

/// Decoding a little-endian encoding gives the value back.
proof fn lemma_le_round_trip(v: nat, n: nat)
    requires
        v < pow256(n),
    ensures
        le_value(le_bytes(v, n)) == v,
    decreases n,
{
    if n > 0 {
        assert(v / 256 < pow256((n - 1) as nat)) by (nonlinear_arith)
            requires
                v < pow256(n),
                pow256(n) == 256 * pow256((n - 1) as nat),
        ;
        lemma_le_round_trip(v / 256, (n - 1) as nat);
        assert(le_bytes(v, n).drop_first() =~= le_bytes(v / 256, (n - 1) as nat));
        assert(v % 256 + 256 * (v / 256) == v) by (nonlinear_arith);
    }
}

/// Decodes `buf` as an unsigned integer in the given byte order.
fn decode_uint(big: bool, buf: &[u8]) -> (r: u64)
    requires
        buf@.len() <= 8,
    ensures
        r == uint_value(big, buf@),
{
    proof {
        lemma_pow256_values();
    }
    let len = buf.len();
    let mut acc: u64 = 0;
    if big {
        let mut i: usize = 0;
        while i < len
            invariant
                i <= len,
                len == buf@.len() <= 8,
                acc == be_value(buf@.take(i as int)),
                acc < pow256(i as nat),
                pow256(7) == 0x100000000000000,
            decreases len - i,
        {
            proof {
                lemma_pow256_mono(i as nat, 7);
                assert(buf@.take(i + 1).drop_last() =~= buf@.take(i as int));
                assert(buf@.take(i + 1).last() == buf@[i as int]);
            }
            acc = acc * 256 + buf[i] as u64;
            i += 1;
        }
        proof {
            assert(buf@.take(len as int) =~= buf@);
        }
    } else {
        let mut i: usize = len;
        while i > 0
            invariant
                i <= len,
                len == buf@.len() <= 8,
                acc == le_value(buf@.skip(i as int)),
                acc < pow256((len - i) as nat),
                pow256(7) == 0x100000000000000,
            decreases i,
        {
            proof {
                lemma_pow256_mono((len - i) as nat, 7);
                assert(buf@.skip(i - 1).drop_first() =~= buf@.skip(i as int));
                assert(buf@.skip(i - 1)[0] == buf@[i - 1]);
            }
            acc = acc * 256 + buf[i - 1] as u64;
            i -= 1;
        }
        proof {
            assert(buf@.skip(0) =~= buf@);
        }
    }
    acc
}

/// Encodes `v` into `n` bytes in the given byte order.
fn encode_uint(big: bool, v: u64, n: usize) -> (r: Vec<u8>)
    requires
        n <= 8,
        v < pow256(n as nat),
    ensures
        r@ == uint_bytes(big, v as nat, n as nat),
        r@.len() == n,
{
    proof {
        lemma_le_bytes_len(v as nat, n as nat);
    }
    let mut out: Vec<u8> = Vec::new();
    let mut cur: u64 = v;
    let mut k: usize = 0;
    while k < n
        invariant
            k <= n,
            out@.len() == k,
            le_bytes(v as nat, n as nat) =~= out@ + le_bytes(cur as nat, (n - k) as nat),
        decreases n - k,
    {
        let b = (cur % 256) as u8;
        proof {
            assert(le_bytes(cur as nat, (n - k) as nat) =~= seq![(cur % 256) as u8] + le_bytes(
                (cur / 256) as nat,
                (n - k - 1) as nat,
            ));
            assert((out@ + le_bytes(cur as nat, (n - k) as nat)) =~= (out@.push(b) + le_bytes(
                (cur / 256) as nat,
                (n - k - 1) as nat,
            )));
        }
        out.push(b);
        cur = cur / 256;
        k += 1;
    }
    proof {
        assert(le_bytes(cur as nat, 0) =~= Seq::<u8>::empty());
        assert(out@ =~= le_bytes(v as nat, n as nat));
    }
    if big {
        let mut rev: Vec<u8> = Vec::new();
        let mut j: usize = 0;
        while j < n
            invariant
                j <= n,
                out@.len() == n,
                out@ == le_bytes(v as nat, n as nat),
                rev@.len() == j,
                forall|t: int| 0 <= t < j ==> #[trigger] rev@[t] == out@[n - 1 - t],
            decreases n - j,
        {
            rev.push(out[n - 1 - j]);
            j += 1;
        }
        proof {
            assert(rev@ =~= out@.reverse());
        }
        rev
    } else {
        out
    }
}

/// `256^n` as a machine word, for up to seven bytes.
fn pow256_exec(n: usize) -> (r: u64)
    requires
        n <= 7,
    ensures
        r == pow256(n as nat),
{
    proof {
        lemma_pow256_values();
    }
    if n == 0 {
        1
    } else if n == 1 {
        0x100
    } else if n == 2 {
        0x10000
    } else if n == 3 {
        0x1000000
    } else if n == 4 {
        0x100000000
    } else if n == 5 {
        0x10000000000
    } else if n == 6 {
        0x1000000000000
    } else {
        0x100000000000000
    }
}

/// Reads exactly `n` fresh bytes at `pos`.
fn read_bytes_at<R: ReadAt>(io: &R, pos: u64, n: usize) -> (r: Result<Vec<u8>, IoError>)
    ensures
        r matches Ok(v) ==> v@.len() == n && (n == 0 || (pos + n <= io.readable().len() && v@
            == io.readable().subrange(pos as int, pos + n))),
        io.reads_exactly() ==> ((r matches Ok(_) <==> (n == 0 || pos + n
            <= io.readable().len())) && (r matches Err(e) ==> e == IoError::UnexpectedEof)),
{
    let mut buf: Vec<u8> = Vec::new();
    buf.resize(n, 0);
    match io.read_exact_at(pos, buf.as_mut_slice()) {
        Ok(_) => Ok(buf),
        Err(e) => Err(e),
    }
}

/// Extends `ReadAt` with methods for reading integers at offsets. For the
/// multi-byte methods the byte order is an explicit type parameter.
pub trait ReadBytesAtExt: ReadAt + Sized {
    /// Reads an unsigned 8-bit integer at an offset.
    fn read_u8_at(&self, pos: u64) -> (r: Result<u8, IoError>)
        ensures
            r matches Ok(v) ==> pos + 1 <= self.readable().len() && v == self.readable()[
                pos as int],
            self.reads_exactly() ==> ((r matches Ok(_) <==> pos + 1 <= self.readable().len()) && (
            r matches Err(e) ==> e == IoError::UnexpectedEof)),
    {
        match read_bytes_at(self, pos, 1) {
            Ok(b) => Ok(b[0]),
            Err(e) => Err(e),
        }
    }

    /// Reads a signed 8-bit integer at an offset.
    fn read_i8_at(&self, pos: u64) -> (r: Result<i8, IoError>)
        ensures
            r matches Ok(v) ==> pos + 1 <= self.readable().len() && v as int == int_value(
                false,
                self.readable().subrange(pos as int, pos + 1),
            ),
            self.reads_exactly() ==> ((r matches Ok(_) <==> pos + 1 <= self.readable().len()) && (
            r matches Err(e) ==> e == IoError::UnexpectedEof)),
    {
        match self.read_int_at::<LittleEndian>(pos, 1) {
            Ok(v) => {
                proof {
                    lemma_uint_value_bound(false, self.readable().subrange(pos as int, pos + 1));
                    lemma_pow256_values();
                }
                Ok(v as i8)
            },
            Err(e) => Err(e),
        }
    }

    /// Reads an unsigned `nbytes`-byte integer at an offset.
    fn read_uint_at<T: ByteOrder>(&self, pos: u64, nbytes: usize) -> (r: Result<u64, IoError>)
        requires
            1 <= nbytes <= 8,
        ensures
            r matches Ok(v) ==> pos + nbytes <= self.readable().len() && v == uint_value(
                T::is_big(),
                self.readable().subrange(pos as int, pos + nbytes),
            ),
            self.reads_exactly() ==> ((r matches Ok(_) <==> pos + nbytes
                <= self.readable().len()) && (r matches Err(e) ==> e == IoError::UnexpectedEof)),
    {
        match read_bytes_at(self, pos, nbytes) {
            Ok(bytes) => Ok(decode_uint(T::big(), bytes.as_slice())),
            Err(e) => Err(e),
        }
    }

    /// Reads a signed `nbytes`-byte integer at an offset, sign-extending
    /// the two's-complement value.
    fn read_int_at<T: ByteOrder>(&self, pos: u64, nbytes: usize) -> (r: Result<i64, IoError>)
        requires
            1 <= nbytes <= 8,
        ensures
            r matches Ok(v) ==> pos + nbytes <= self.readable().len() && v as int == int_value(
                T::is_big(),
                self.readable().subrange(pos as int, pos + nbytes),
            ),
            self.reads_exactly() ==> ((r matches Ok(_) <==> pos + nbytes
                <= self.readable().len()) && (r matches Err(e) ==> e == IoError::UnexpectedEof)),
    {
        let u = match self.read_uint_at::<T>(pos, nbytes) {
            Ok(u) => u,
            Err(e) => {
                return Err(e);
            },
        };
        proof {
            lemma_uint_value_bound(
                T::is_big(),
                self.readable().subrange(pos as int, pos + nbytes),
            );
            lemma_pow256_values();
        }
        if nbytes == 8 {
            if u < 0x8000000000000000 {
                Ok(u as i64)
            } else {
                Ok(((u as i128) - 0x10000000000000000i128) as i64)
            }
        } else {
            let p = pow256_exec(nbytes);
            proof {
                assert(pow256(nbytes as nat) == 256 * pow256((nbytes - 1) as nat));
                lemma_pow256_pos((nbytes - 1) as nat);
            }
            if u < p / 2 {
                Ok(u as i64)
            } else {
                Ok(((u as i128) - (p as i128)) as i64)
            }
        }
    }

    /// Reads an unsigned 16-bit integer at an offset.
    fn read_u16_at<T: ByteOrder>(&self, pos: u64) -> (r: Result<u16, IoError>)
        ensures
            r matches Ok(v) ==> pos + 2 <= self.readable().len() && v == uint_value(
                T::is_big(),
                self.readable().subrange(pos as int, pos + 2),
            ),
            self.reads_exactly() ==> ((r matches Ok(_) <==> pos + 2 <= self.readable().len()) && (
            r matches Err(e) ==> e == IoError::UnexpectedEof)),
    {
        match self.read_uint_at::<T>(pos, 2) {
            Ok(u) => {
                proof {
                    lemma_uint_value_bound(
                        T::is_big(),
                        self.readable().subrange(pos as int, pos + 2),
                    );
                    lemma_pow256_values();
                }
                Ok(u as u16)
            },
            Err(e) => Err(e),
        }
    }

    /// Reads a signed 16-bit integer at an offset.
    fn read_i16_at<T: ByteOrder>(&self, pos: u64) -> (r: Result<i16, IoError>)
        ensures
            r matches Ok(v) ==> pos + 2 <= self.readable().len() && v as int == int_value(
                T::is_big(),
                self.readable().subrange(pos as int, pos + 2),
            ),
            self.reads_exactly() ==> ((r matches Ok(_) <==> pos + 2 <= self.readable().len()) && (
            r matches Err(e) ==> e == IoError::UnexpectedEof)),
    {
        match self.read_int_at::<T>(pos, 2) {
            Ok(v) => {
                proof {
                    lemma_uint_value_bound(
                        T::is_big(),
                        self.readable().subrange(pos as int, pos + 2),
                    );
                    lemma_pow256_values();
                }
                Ok(v as i16)
            },
            Err(e) => Err(e),
        }
    }

    /// Reads an unsigned 32-bit integer at an offset.
    fn read_u32_at<T: ByteOrder>(&self, pos: u64) -> (r: Result<u32, IoError>)
        ensures
            r matches Ok(v) ==> pos + 4 <= self.readable().len() && v == uint_value(
                T::is_big(),
                self.readable().subrange(pos as int, pos + 4),
            ),
            self.reads_exactly() ==> ((r matches Ok(_) <==> pos + 4 <= self.readable().len()) && (
            r matches Err(e) ==> e == IoError::UnexpectedEof)),
    {
        match self.read_uint_at::<T>(pos, 4) {
            Ok(u) => {
                proof {
                    lemma_uint_value_bound(
                        T::is_big(),
                        self.readable().subrange(pos as int, pos + 4),
                    );
                    lemma_pow256_values();
                }
                Ok(u as u32)
            },
            Err(e) => Err(e),
        }
    }

    /// Reads a signed 32-bit integer at an offset.
    fn read_i32_at<T: ByteOrder>(&self, pos: u64) -> (r: Result<i32, IoError>)
        ensures
            r matches Ok(v) ==> pos + 4 <= self.readable().len() && v as int == int_value(
                T::is_big(),
                self.readable().subrange(pos as int, pos + 4),
            ),
            self.reads_exactly() ==> ((r matches Ok(_) <==> pos + 4 <= self.readable().len()) && (
            r matches Err(e) ==> e == IoError::UnexpectedEof)),
    {
        match self.read_int_at::<T>(pos, 4) {
            Ok(v) => {
                proof {
                    lemma_uint_value_bound(
                        T::is_big(),
                        self.readable().subrange(pos as int, pos + 4),
                    );
                    lemma_pow256_values();
                }
                Ok(v as i32)
            },
            Err(e) => Err(e),
        }
    }

    /// Reads an unsigned 64-bit integer at an offset.
    fn read_u64_at<T: ByteOrder>(&self, pos: u64) -> (r: Result<u64, IoError>)
        ensures
            r matches Ok(v) ==> pos + 8 <= self.readable().len() && v == uint_value(
                T::is_big(),
                self.readable().subrange(pos as int, pos + 8),
            ),
            self.reads_exactly() ==> ((r matches Ok(_) <==> pos + 8 <= self.readable().len()) && (
            r matches Err(e) ==> e == IoError::UnexpectedEof)),
    {
        self.read_uint_at::<T>(pos, 8)
    }

    /// Reads a signed 64-bit integer at an offset.
    fn read_i64_at<T: ByteOrder>(&self, pos: u64) -> (r: Result<i64, IoError>)
        ensures
            r matches Ok(v) ==> pos + 8 <= self.readable().len() && v as int == int_value(
                T::is_big(),
                self.readable().subrange(pos as int, pos + 8),
            ),
            self.reads_exactly() ==> ((r matches Ok(_) <==> pos + 8 <= self.readable().len()) && (
            r matches Err(e) ==> e == IoError::UnexpectedEof)),
    {
        self.read_int_at::<T>(pos, 8)
    }
}

impl<R: ReadAt> ReadBytesAtExt for R {

}

/// The `n` bytes of the signed value `v` in two's complement, in the
/// given byte order.
pub open spec fn int_bytes(big: bool, v: int, n: nat) -> Seq<u8> {
    if v >= 0 {
        uint_bytes(big, v as nat, n)
    } else {
        uint_bytes(big, (v + pow256(n)) as nat, n)
    }
}

/// Decoding the two's-complement bytes of `v` gives `v` back, in either
/// byte order: the signed codec round-trips exactly.
pub proof fn lemma_int_codec_round_trip(big: bool, v: int, n: nat)
    requires
        n >= 1,
        -(pow256(n) as int) / 2 <= v < pow256(n) as int / 2,
    ensures
        int_value(big, int_bytes(big, v, n)) == v,
        int_bytes(big, v, n).len() == n,
{
    lemma_pow256_pos((n - 1) as nat);
    assert(pow256(n) == 256 * pow256((n - 1) as nat));
    let p = pow256(n) as int;
    assert(p == 2 * (128 * pow256((n - 1) as nat)));
    if v >= 0 {
        lemma_uint_codec_round_trip(big, v as nat, n);
    } else {
        lemma_uint_codec_round_trip(big, (v + p) as nat, n);
    }
}

/// Extends `WriteAt` with methods for writing integers at offsets. For
/// the multi-byte methods the byte order is an explicit type parameter.
pub trait WriteBytesAtExt: WriteAt + Sized {
    /// Writes an unsigned 8-bit integer to an offset.
    fn write_u8_at(&mut self, pos: u64, n: u8) -> (r: Result<(), IoError>)
        ensures
            (*final(self)).writes_in_bounds() == old(self).writes_in_bounds(),
            (*final(self)).auto_extends() == old(self).auto_extends(),
            (*final(self)).writes_clamped() == old(self).writes_clamped(),
            old(self).writes_in_bounds() && pos + 1 <= old(self).writable().len() ==> (r matches
                Ok(_) && (*final(self)).writable() == write_result(
                old(self).writable(),
                pos as int,
                seq![n],
            )),
            old(self).auto_extends() && pos + 1 <= usize::MAX ==> (r matches Ok(_) && (*final(self)).writable() == write_result(old(self).writable(), pos as int, seq![n])),
    {
        let mut buf: Vec<u8> = Vec::new();
        buf.push(n);
        self.write_all_at(pos, buf.as_slice())
    }

    /// Writes a signed 8-bit integer to an offset.
    fn write_i8_at(&mut self, pos: u64, n: i8) -> (r: Result<(), IoError>)
        ensures
            (*final(self)).writes_in_bounds() == old(self).writes_in_bounds(),
            (*final(self)).auto_extends() == old(self).auto_extends(),
            (*final(self)).writes_clamped() == old(self).writes_clamped(),
            old(self).writes_in_bounds() && pos + 1 <= old(self).writable().len() ==> (r matches
                Ok(_) && (*final(self)).writable() == write_result(
                old(self).writable(),
                pos as int,
                int_bytes(false, n as int, 1),
            )),
            old(self).auto_extends() && pos + 1 <= usize::MAX ==> (r matches Ok(_) && (*final(self)).writable() == write_result(
                old(self).writable(),
                pos as int,
                int_bytes(false, n as int, 1),
            )),
    {
        proof {
            lemma_pow256_values();
        }
        self.write_int_at::<LittleEndian>(pos, n as i64, 1)
    }

    /// Writes an unsigned `nbytes`-byte integer to an offset. The value
    /// must fit in `nbytes` bytes.
    fn write_uint_at<T: ByteOrder>(&mut self, pos: u64, n: u64, nbytes: usize) -> (r: Result<
        (),
        IoError,
    >)
        requires
            1 <= nbytes <= 8,
            n < pow256(nbytes as nat),
        ensures
            (*final(self)).writes_in_bounds() == old(self).writes_in_bounds(),
            (*final(self)).auto_extends() == old(self).auto_extends(),
            (*final(self)).writes_clamped() == old(self).writes_clamped(),
            old(self).writes_in_bounds() && pos + nbytes <= old(self).writable().len() ==> (r
                matches Ok(_) && (*final(self)).writable() == write_result(
                old(self).writable(),
                pos as int,
                uint_bytes(T::is_big(), n as nat, nbytes as nat),
            )),
            old(self).auto_extends() && pos + nbytes <= usize::MAX ==> (r matches Ok(_) && (*final(self)).writable() == write_result(
                old(self).writable(),
                pos as int,
                uint_bytes(T::is_big(), n as nat, nbytes as nat),
            )),
    {
        let buf = encode_uint(T::big(), n, nbytes);
        self.write_all_at(pos, buf.as_slice())
    }

    /// Writes a signed `nbytes`-byte integer to an offset in two's
    /// complement. The value must fit in `nbytes` bytes.
    fn write_int_at<T: ByteOrder>(&mut self, pos: u64, n: i64, nbytes: usize) -> (r: Result<
        (),
        IoError,
    >)
        requires
            1 <= nbytes <= 8,
            -(pow256(nbytes as nat) as int) / 2 <= n,
            n < pow256(nbytes as nat) as int / 2,
        ensures
            (*final(self)).writes_in_bounds() == old(self).writes_in_bounds(),
            (*final(self)).auto_extends() == old(self).auto_extends(),
            (*final(self)).writes_clamped() == old(self).writes_clamped(),
            old(self).writes_in_bounds() && pos + nbytes <= old(self).writable().len() ==> (r
                matches Ok(_) && (*final(self)).writable() == write_result(
                old(self).writable(),
                pos as int,
                int_bytes(T::is_big(), n as int, nbytes as nat),
            )),
            old(self).auto_extends() && pos + nbytes <= usize::MAX ==> (r matches Ok(_) && (*final(self)).writable() == write_result(
                old(self).writable(),
                pos as int,
                int_bytes(T::is_big(), n as int, nbytes as nat),
            )),
    {
        proof {
            lemma_pow256_values();
            lemma_pow256_pos((nbytes - 1) as nat);
            assert(pow256(nbytes as nat) == 256 * pow256((nbytes - 1) as nat));
            assert(pow256(nbytes as nat) as int == 2 * (128 * pow256((nbytes - 1) as nat)));
        }
        let u: u64 = if n >= 0 {
            n as u64
        } else if nbytes == 8 {
            ((n as i128) + 0x10000000000000000i128) as u64
        } else {
            let p = pow256_exec(nbytes);
            ((n as i128) + (p as i128)) as u64
        };
        self.write_uint_at::<T>(pos, u, nbytes)
    }

    /// Writes an unsigned 16-bit integer to an offset.
    fn write_u16_at<T: ByteOrder>(&mut self, pos: u64, n: u16) -> (r: Result<(), IoError>)
        ensures
            (*final(self)).writes_in_bounds() == old(self).writes_in_bounds(),
            (*final(self)).auto_extends() == old(self).auto_extends(),
            (*final(self)).writes_clamped() == old(self).writes_clamped(),
            old(self).writes_in_bounds() && pos + 2 <= old(self).writable().len() ==> (r matches
                Ok(_) && (*final(self)).writable() == write_result(
                old(self).writable(),
                pos as int,
                uint_bytes(T::is_big(), n as nat, 2),
            )),
            old(self).auto_extends() && pos + 2 <= usize::MAX ==> (r matches Ok(_) && (*final(self)).writable() == write_result(
                old(self).writable(),
                pos as int,
                uint_bytes(T::is_big(), n as nat, 2),
            )),
    {
        proof {
            lemma_pow256_values();
        }
        self.write_uint_at::<T>(pos, n as u64, 2)
    }

    /// Writes a signed 16-bit integer to an offset.
    fn write_i16_at<T: ByteOrder>(&mut self, pos: u64, n: i16) -> (r: Result<(), IoError>)
        ensures
            (*final(self)).writes_in_bounds() == old(self).writes_in_bounds(),
            (*final(self)).auto_extends() == old(self).auto_extends(),
            (*final(self)).writes_clamped() == old(self).writes_clamped(),
            old(self).writes_in_bounds() && pos + 2 <= old(self).writable().len() ==> (r matches
                Ok(_) && (*final(self)).writable() == write_result(
                old(self).writable(),
                pos as int,
                int_bytes(T::is_big(), n as int, 2),
            )),
            old(self).auto_extends() && pos + 2 <= usize::MAX ==> (r matches Ok(_) && (*final(self)).writable() == write_result(
                old(self).writable(),
                pos as int,
                int_bytes(T::is_big(), n as int, 2),
            )),
    {
        proof {
            lemma_pow256_values();
        }
        self.write_int_at::<T>(pos, n as i64, 2)
    }

    /// Writes an unsigned 32-bit integer to an offset.
    fn write_u32_at<T: ByteOrder>(&mut self, pos: u64, n: u32) -> (r: Result<(), IoError>)
        ensures
            (*final(self)).writes_in_bounds() == old(self).writes_in_bounds(),
            (*final(self)).auto_extends() == old(self).auto_extends(),
            (*final(self)).writes_clamped() == old(self).writes_clamped(),
            old(self).writes_in_bounds() && pos + 4 <= old(self).writable().len() ==> (r matches
                Ok(_) && (*final(self)).writable() == write_result(
                old(self).writable(),
                pos as int,
                uint_bytes(T::is_big(), n as nat, 4),
            )),
            old(self).auto_extends() && pos + 4 <= usize::MAX ==> (r matches Ok(_) && (*final(self)).writable() == write_result(
                old(self).writable(),
                pos as int,
                uint_bytes(T::is_big(), n as nat, 4),
            )),
    {
        proof {
            lemma_pow256_values();
        }
        self.write_uint_at::<T>(pos, n as u64, 4)
    }

    /// Writes a signed 32-bit integer to an offset.
    fn write_i32_at<T: ByteOrder>(&mut self, pos: u64, n: i32) -> (r: Result<(), IoError>)
        ensures
            (*final(self)).writes_in_bounds() == old(self).writes_in_bounds(),
            (*final(self)).auto_extends() == old(self).auto_extends(),
            (*final(self)).writes_clamped() == old(self).writes_clamped(),
            old(self).writes_in_bounds() && pos + 4 <= old(self).writable().len() ==> (r matches
                Ok(_) && (*final(self)).writable() == write_result(
                old(self).writable(),
                pos as int,
                int_bytes(T::is_big(), n as int, 4),
            )),
            old(self).auto_extends() && pos + 4 <= usize::MAX ==> (r matches Ok(_) && (*final(self)).writable() == write_result(
                old(self).writable(),
                pos as int,
                int_bytes(T::is_big(), n as int, 4),
            )),
    {
        proof {
            lemma_pow256_values();
        }
        self.write_int_at::<T>(pos, n as i64, 4)
    }

    /// Writes an unsigned 64-bit integer to an offset.
    fn write_u64_at<T: ByteOrder>(&mut self, pos: u64, n: u64) -> (r: Result<(), IoError>)
        ensures
            (*final(self)).writes_in_bounds() == old(self).writes_in_bounds(),
            (*final(self)).auto_extends() == old(self).auto_extends(),
            (*final(self)).writes_clamped() == old(self).writes_clamped(),
            old(self).writes_in_bounds() && pos + 8 <= old(self).writable().len() ==> (r matches
                Ok(_) && (*final(self)).writable() == write_result(
                old(self).writable(),
                pos as int,
                uint_bytes(T::is_big(), n as nat, 8),
            )),
            old(self).auto_extends() && pos + 8 <= usize::MAX ==> (r matches Ok(_) && (*final(self)).writable() == write_result(
                old(self).writable(),
                pos as int,
                uint_bytes(T::is_big(), n as nat, 8),
            )),
    {
        proof {
            lemma_pow256_values();
        }
        self.write_uint_at::<T>(pos, n, 8)
    }

    /// Writes a signed 64-bit integer to an offset.
    fn write_i64_at<T: ByteOrder>(&mut self, pos: u64, n: i64) -> (r: Result<(), IoError>)
        ensures
            (*final(self)).writes_in_bounds() == old(self).writes_in_bounds(),
            (*final(self)).auto_extends() == old(self).auto_extends(),
            (*final(self)).writes_clamped() == old(self).writes_clamped(),
            old(self).writes_in_bounds() && pos + 8 <= old(self).writable().len() ==> (r matches
                Ok(_) && (*final(self)).writable() == write_result(
                old(self).writable(),
                pos as int,
                int_bytes(T::is_big(), n as int, 8),
            )),
            old(self).auto_extends() && pos + 8 <= usize::MAX ==> (r matches Ok(_) && (*final(self)).writable() == write_result(
                old(self).writable(),
                pos as int,
                int_bytes(T::is_big(), n as int, 8),
            )),
    {
        proof {
            lemma_pow256_values();
        }
        self.write_int_at::<T>(pos, n, 8)
    }
}

impl<W: WriteAt> WriteBytesAtExt for W {

}

/// Reads and writes with one fixed byte order: a `ByteIo` wraps a backend
/// and an endianness chosen once at the type level, so the per-call byte
/// order parameter disappears.
pub struct ByteIo<I, E: ByteOrder> {
    io: I,
    endianness: PhantomData<E>,
}

impl<I, E: ByteOrder> ByteIo<I, E> {
    /// The wrapped backend.
    pub closed spec fn spec_io(&self) -> I {
        self.io
    }

    /// Creates a new `ByteIo` around a positioned reader or writer; the
    /// byte order is fixed by the type parameter.
    pub fn new(io: I) -> (r: Self)
        ensures
            r.spec_io() == io,
    {
        ByteIo { io, endianness: PhantomData }
    }

    /// Returns the underlying reader or writer.
    pub fn into_inner(self) -> (r: I)
        ensures
            r == self.spec_io(),
    {
        self.io
    }
}

impl<I: ReadAt, E: ByteOrder> ReadAt for ByteIo<I, E> {
    open spec fn readable(&self) -> Seq<u8> {
        self.spec_io().readable()
    }

    open spec fn reads_exactly(&self) -> bool {
        self.spec_io().reads_exactly()
    }

    proof fn readable_fits(&self) {
        self.spec_io().readable_fits();
    }

    fn read_at(&self, pos: u64, buf: &mut [u8]) -> (r: Result<usize, IoError>) {
        self.io.read_at(pos, buf)
    }
}

impl<I: WriteAt, E: ByteOrder> WriteAt for ByteIo<I, E> {
    open spec fn writable(&self) -> Seq<u8> {
        self.spec_io().writable()
    }

    open spec fn writes_in_bounds(&self) -> bool {
        self.spec_io().writes_in_bounds()
    }

    open spec fn auto_extends(&self) -> bool {
        self.spec_io().auto_extends()
    }

    open spec fn writes_clamped(&self) -> bool {
        self.spec_io().writes_clamped()
    }

    proof fn writable_fits(&self) {
        self.spec_io().writable_fits();
    }

    fn write_at(&mut self, pos: u64, buf: &[u8]) -> (r: Result<usize, IoError>) {
        self.io.write_at(pos, buf)
    }

    fn flush(&mut self) -> (r: Result<(), IoError>) {
        self.io.flush()
    }
}

impl<I: ReadAt, E: ByteOrder> ByteIo<I, E> {
    /// Reads an unsigned 8-bit integer at an offset.
    pub fn read_u8_at(&self, pos: u64) -> (r: Result<u8, IoError>)
        ensures
            r matches Ok(v) ==> pos + 1 <= self.readable().len() && v == self.readable()[pos as int],
            self.reads_exactly() ==> ((r matches Ok(_) <==> pos + 1 <= self.readable().len()) && (
            r matches Err(e) ==> e == IoError::UnexpectedEof)),
    {
        ReadBytesAtExt::read_u8_at(self, pos)
    }

    /// Reads a signed 8-bit integer at an offset.
    pub fn read_i8_at(&self, pos: u64) -> (r: Result<i8, IoError>)
        ensures
            r matches Ok(v) ==> pos + 1 <= self.readable().len() && v as int == int_value(
                false,
                self.readable().subrange(pos as int, pos + 1),
            ),
            self.reads_exactly() ==> ((r matches Ok(_) <==> pos + 1 <= self.readable().len()) && (
            r matches Err(e) ==> e == IoError::UnexpectedEof)),
    {
        ReadBytesAtExt::read_i8_at(self, pos)
    }

    /// Reads an unsigned 16-bit integer at an offset.
    pub fn read_u16_at(&self, pos: u64) -> (r: Result<u16, IoError>)
        ensures
            r matches Ok(v) ==> pos + 2 <= self.readable().len() && v == uint_value(
                E::is_big(),
                self.readable().subrange(pos as int, pos + 2),
            ),
            self.reads_exactly() ==> ((r matches Ok(_) <==> pos + 2 <= self.readable().len()) && (
            r matches Err(e) ==> e == IoError::UnexpectedEof)),
    {
        ReadBytesAtExt::read_u16_at::<E>(self, pos)
    }

    /// Reads a signed 16-bit integer at an offset.
    pub fn read_i16_at(&self, pos: u64) -> (r: Result<i16, IoError>)
        ensures
            r matches Ok(v) ==> pos + 2 <= self.readable().len() && v as int == int_value(
                E::is_big(),
                self.readable().subrange(pos as int, pos + 2),
            ),
            self.reads_exactly() ==> ((r matches Ok(_) <==> pos + 2 <= self.readable().len()) && (
            r matches Err(e) ==> e == IoError::UnexpectedEof)),
    {
        ReadBytesAtExt::read_i16_at::<E>(self, pos)
    }

    /// Reads an unsigned 32-bit integer at an offset.
    pub fn read_u32_at(&self, pos: u64) -> (r: Result<u32, IoError>)
        ensures
            r matches Ok(v) ==> pos + 4 <= self.readable().len() && v == uint_value(
                E::is_big(),
                self.readable().subrange(pos as int, pos + 4),
            ),
            self.reads_exactly() ==> ((r matches Ok(_) <==> pos + 4 <= self.readable().len()) && (
            r matches Err(e) ==> e == IoError::UnexpectedEof)),
    {
        ReadBytesAtExt::read_u32_at::<E>(self, pos)
    }

    /// Reads a signed 32-bit integer at an offset.
    pub fn read_i32_at(&self, pos: u64) -> (r: Result<i32, IoError>)
        ensures
            r matches Ok(v) ==> pos + 4 <= self.readable().len() && v as int == int_value(
                E::is_big(),
                self.readable().subrange(pos as int, pos + 4),
            ),
            self.reads_exactly() ==> ((r matches Ok(_) <==> pos + 4 <= self.readable().len()) && (
            r matches Err(e) ==> e == IoError::UnexpectedEof)),
    {
        ReadBytesAtExt::read_i32_at::<E>(self, pos)
    }

    /// Reads an unsigned 64-bit integer at an offset.
    pub fn read_u64_at(&self, pos: u64) -> (r: Result<u64, IoError>)
        ensures
            r matches Ok(v) ==> pos + 8 <= self.readable().len() && v == uint_value(
                E::is_big(),
                self.readable().subrange(pos as int, pos + 8),
            ),
            self.reads_exactly() ==> ((r matches Ok(_) <==> pos + 8 <= self.readable().len()) && (
            r matches Err(e) ==> e == IoError::UnexpectedEof)),
    {
        ReadBytesAtExt::read_u64_at::<E>(self, pos)
    }

    /// Reads a signed 64-bit integer at an offset.
    pub fn read_i64_at(&self, pos: u64) -> (r: Result<i64, IoError>)
        ensures
            r matches Ok(v) ==> pos + 8 <= self.readable().len() && v as int == int_value(
                E::is_big(),
                self.readable().subrange(pos as int, pos + 8),
            ),
            self.reads_exactly() ==> ((r matches Ok(_) <==> pos + 8 <= self.readable().len()) && (
            r matches Err(e) ==> e == IoError::UnexpectedEof)),
    {
        ReadBytesAtExt::read_i64_at::<E>(self, pos)
    }

    /// Reads an unsigned `nbytes`-byte integer at an offset.
    pub fn read_uint_at(&self, pos: u64, nbytes: usize) -> (r: Result<u64, IoError>)
        requires
            1 <= nbytes <= 8,
        ensures
            r matches Ok(v) ==> pos + nbytes <= self.readable().len() && v == uint_value(
                E::is_big(),
                self.readable().subrange(pos as int, pos + nbytes),
            ),
            self.reads_exactly() ==> ((r matches Ok(_) <==> pos + nbytes <= self.readable().len()) && (
            r matches Err(e) ==> e == IoError::UnexpectedEof)),
    {
        ReadBytesAtExt::read_uint_at::<E>(self, pos, nbytes)
    }

    /// Reads a signed `nbytes`-byte integer at an offset.
    pub fn read_int_at(&self, pos: u64, nbytes: usize) -> (r: Result<i64, IoError>)
        requires
            1 <= nbytes <= 8,
        ensures
            r matches Ok(v) ==> pos + nbytes <= self.readable().len() && v as int == int_value(
                E::is_big(),
                self.readable().subrange(pos as int, pos + nbytes),
            ),
            self.reads_exactly() ==> ((r matches Ok(_) <==> pos + nbytes <= self.readable().len()) && (
            r matches Err(e) ==> e == IoError::UnexpectedEof)),
    {
        ReadBytesAtExt::read_int_at::<E>(self, pos, nbytes)
    }
}

impl<I: WriteAt, E: ByteOrder> ByteIo<I, E> {
    /// Writes an unsigned 8-bit integer to an offset.
    pub fn write_u8_at(&mut self, pos: u64, n: u8) -> (r: Result<(), IoError>)
        ensures
            (*final(self)).writes_in_bounds() == old(self).writes_in_bounds(),
            (*final(self)).auto_extends() == old(self).auto_extends(),
            (*final(self)).writes_clamped() == old(self).writes_clamped(),
            old(self).writes_in_bounds() && pos + 1 <= old(self).writable().len() ==> (r matches
                Ok(_) && (*final(self)).writable() == write_result(
                old(self).writable(),
                pos as int,
                seq![n],
            )),
            old(self).auto_extends() && pos + 1 <= usize::MAX ==> (r matches Ok(_) && (*final(self)).writable() == write_result(old(self).writable(), pos as int, seq![n])),
    {
        WriteBytesAtExt::write_u8_at(self, pos, n)
    }

    /// Writes a signed 8-bit integer to an offset.
    pub fn write_i8_at(&mut self, pos: u64, n: i8) -> (r: Result<(), IoError>)
        ensures
            (*final(self)).writes_in_bounds() == old(self).writes_in_bounds(),
            (*final(self)).auto_extends() == old(self).auto_extends(),
            (*final(self)).writes_clamped() == old(self).writes_clamped(),
            old(self).writes_in_bounds() && pos + 1 <= old(self).writable().len() ==> (r matches
                Ok(_) && (*final(self)).writable() == write_result(
                old(self).writable(),
                pos as int,
                int_bytes(false, n as int, 1),
            )),
            old(self).auto_extends() && pos + 1 <= usize::MAX ==> (r matches Ok(_) && (*final(self)).writable() == write_result(old(self).writable(), pos as int, int_bytes(false, n as int, 1))),
    {
        WriteBytesAtExt::write_i8_at(self, pos, n)
    }

    /// Writes an unsigned 16-bit integer to an offset.
    pub fn write_u16_at(&mut self, pos: u64, n: u16) -> (r: Result<(), IoError>)
        ensures
            (*final(self)).writes_in_bounds() == old(self).writes_in_bounds(),
            (*final(self)).auto_extends() == old(self).auto_extends(),
            (*final(self)).writes_clamped() == old(self).writes_clamped(),
            old(self).writes_in_bounds() && pos + 2 <= old(self).writable().len() ==> (r matches
                Ok(_) && (*final(self)).writable() == write_result(
                old(self).writable(),
                pos as int,
                uint_bytes(E::is_big(), n as nat, 2),
            )),
            old(self).auto_extends() && pos + 2 <= usize::MAX ==> (r matches Ok(_) && (*final(self)).writable() == write_result(old(self).writable(), pos as int, uint_bytes(E::is_big(), n as nat, 2))),
    {
        WriteBytesAtExt::write_u16_at::<E>(self, pos, n)
    }

    /// Writes a signed 16-bit integer to an offset.
    pub fn write_i16_at(&mut self, pos: u64, n: i16) -> (r: Result<(), IoError>)
        ensures
            (*final(self)).writes_in_bounds() == old(self).writes_in_bounds(),
            (*final(self)).auto_extends() == old(self).auto_extends(),
            (*final(self)).writes_clamped() == old(self).writes_clamped(),
            old(self).writes_in_bounds() && pos + 2 <= old(self).writable().len() ==> (r matches
                Ok(_) && (*final(self)).writable() == write_result(
                old(self).writable(),
                pos as int,
                int_bytes(E::is_big(), n as int, 2),
            )),
            old(self).auto_extends() && pos + 2 <= usize::MAX ==> (r matches Ok(_) && (*final(self)).writable() == write_result(old(self).writable(), pos as int, int_bytes(E::is_big(), n as int, 2))),
    {
        WriteBytesAtExt::write_i16_at::<E>(self, pos, n)
    }

    /// Writes an unsigned 32-bit integer to an offset.
    pub fn write_u32_at(&mut self, pos: u64, n: u32) -> (r: Result<(), IoError>)
        ensures
            (*final(self)).writes_in_bounds() == old(self).writes_in_bounds(),
            (*final(self)).auto_extends() == old(self).auto_extends(),
            (*final(self)).writes_clamped() == old(self).writes_clamped(),
            old(self).writes_in_bounds() && pos + 4 <= old(self).writable().len() ==> (r matches
                Ok(_) && (*final(self)).writable() == write_result(
                old(self).writable(),
                pos as int,
                uint_bytes(E::is_big(), n as nat, 4),
            )),
            old(self).auto_extends() && pos + 4 <= usize::MAX ==> (r matches Ok(_) && (*final(self)).writable() == write_result(old(self).writable(), pos as int, uint_bytes(E::is_big(), n as nat, 4))),
    {
        WriteBytesAtExt::write_u32_at::<E>(self, pos, n)
    }

    /// Writes a signed 32-bit integer to an offset.
    pub fn write_i32_at(&mut self, pos: u64, n: i32) -> (r: Result<(), IoError>)
        ensures
            (*final(self)).writes_in_bounds() == old(self).writes_in_bounds(),
            (*final(self)).auto_extends() == old(self).auto_extends(),
            (*final(self)).writes_clamped() == old(self).writes_clamped(),
            old(self).writes_in_bounds() && pos + 4 <= old(self).writable().len() ==> (r matches
                Ok(_) && (*final(self)).writable() == write_result(
                old(self).writable(),
                pos as int,
                int_bytes(E::is_big(), n as int, 4),
            )),
            old(self).auto_extends() && pos + 4 <= usize::MAX ==> (r matches Ok(_) && (*final(self)).writable() == write_result(old(self).writable(), pos as int, int_bytes(E::is_big(), n as int, 4))),
    {
        WriteBytesAtExt::write_i32_at::<E>(self, pos, n)
    }

    /// Writes an unsigned 64-bit integer to an offset.
    pub fn write_u64_at(&mut self, pos: u64, n: u64) -> (r: Result<(), IoError>)
        ensures
            (*final(self)).writes_in_bounds() == old(self).writes_in_bounds(),
            (*final(self)).auto_extends() == old(self).auto_extends(),
            (*final(self)).writes_clamped() == old(self).writes_clamped(),
            old(self).writes_in_bounds() && pos + 8 <= old(self).writable().len() ==> (r matches
                Ok(_) && (*final(self)).writable() == write_result(
                old(self).writable(),
                pos as int,
                uint_bytes(E::is_big(), n as nat, 8),
            )),
            old(self).auto_extends() && pos + 8 <= usize::MAX ==> (r matches Ok(_) && (*final(self)).writable() == write_result(old(self).writable(), pos as int, uint_bytes(E::is_big(), n as nat, 8))),
    {
        WriteBytesAtExt::write_u64_at::<E>(self, pos, n)
    }

    /// Writes a signed 64-bit integer to an offset.
    pub fn write_i64_at(&mut self, pos: u64, n: i64) -> (r: Result<(), IoError>)
        ensures
            (*final(self)).writes_in_bounds() == old(self).writes_in_bounds(),
            (*final(self)).auto_extends() == old(self).auto_extends(),
            (*final(self)).writes_clamped() == old(self).writes_clamped(),
            old(self).writes_in_bounds() && pos + 8 <= old(self).writable().len() ==> (r matches
                Ok(_) && (*final(self)).writable() == write_result(
                old(self).writable(),
                pos as int,
                int_bytes(E::is_big(), n as int, 8),
            )),
            old(self).auto_extends() && pos + 8 <= usize::MAX ==> (r matches Ok(_) && (*final(self)).writable() == write_result(old(self).writable(), pos as int, int_bytes(E::is_big(), n as int, 8))),
    {
        WriteBytesAtExt::write_i64_at::<E>(self, pos, n)
    }

    /// Writes an unsigned `nbytes`-byte integer to an offset. The value
    /// must fit in `nbytes` bytes.
    pub fn write_uint_at(&mut self, pos: u64, n: u64, nbytes: usize) -> (r: Result<(), IoError>)
        requires
            1 <= nbytes <= 8,
            n < pow256(nbytes as nat),
        ensures
            (*final(self)).writes_in_bounds() == old(self).writes_in_bounds(),
            (*final(self)).auto_extends() == old(self).auto_extends(),
            (*final(self)).writes_clamped() == old(self).writes_clamped(),
            old(self).writes_in_bounds() && pos + nbytes <= old(self).writable().len() ==> (r matches
                Ok(_) && (*final(self)).writable() == write_result(
                old(self).writable(),
                pos as int,
                uint_bytes(E::is_big(), n as nat, nbytes as nat),
            )),
            old(self).auto_extends() && pos + nbytes <= usize::MAX ==> (r matches Ok(_) && (*final(self)).writable() == write_result(old(self).writable(), pos as int, uint_bytes(E::is_big(), n as nat, nbytes as nat))),
    {
        WriteBytesAtExt::write_uint_at::<E>(self, pos, n, nbytes)
    }

    /// Writes a signed `nbytes`-byte integer to an offset. The value
    /// must fit in `nbytes` bytes.
    pub fn write_int_at(&mut self, pos: u64, n: i64, nbytes: usize) -> (r: Result<(), IoError>)
        requires
            1 <= nbytes <= 8,
            -(pow256(nbytes as nat) as int) / 2 <= n,
            n < pow256(nbytes as nat) as int / 2,
        ensures
            (*final(self)).writes_in_bounds() == old(self).writes_in_bounds(),
            (*final(self)).auto_extends() == old(self).auto_extends(),
            (*final(self)).writes_clamped() == old(self).writes_clamped(),
            old(self).writes_in_bounds() && pos + nbytes <= old(self).writable().len() ==> (r matches
                Ok(_) && (*final(self)).writable() == write_result(
                old(self).writable(),
                pos as int,
                int_bytes(E::is_big(), n as int, nbytes as nat),
            )),
            old(self).auto_extends() && pos + nbytes <= usize::MAX ==> (r matches Ok(_) && (*final(self)).writable() == write_result(old(self).writable(), pos as int, int_bytes(E::is_big(), n as int, nbytes as nat))),
    {
        WriteBytesAtExt::write_int_at::<E>(self, pos, n, nbytes)
    }
}

} // verus!
