//! Positioned (offset-based) byte I/O: reading and writing at explicit
//! offsets, without any shared "current position" state, together with
//! composable views (`Slice`) and sequential-stream adapters (`Cursor`,
//! `SizeCursor`) over any backend that implements the capability traits.
//!
//! The three capability traits are [`ReadAt`], [`WriteAt`] and [`Size`].
//! Each carries a mathematical model of the backend: the byte sequence a
//! backend exposes to reads (`readable`), the byte sequence writes act on
//! (`writable`), and the optionally-known total size (`size_spec`). Every
//! operation's contract is stated over these models, so anything layered on
//! top — a [`Slice`] window, a [`Cursor`] stream — inherits exact semantics.

use vstd::prelude::*;

pub mod byteio;
pub mod cursor;
pub mod laws;
pub mod mem;
pub mod refs;
pub mod slice;

pub use byteio::{BigEndian, ByteIo, ByteOrder, LittleEndian, ReadBytesAtExt, WriteBytesAtExt};
pub use cursor::{Cursor, SeekFrom, SizeCursor};
pub use slice::Slice;

verus! {

/// The error kinds that positioned I/O operations surface.
///
/// Interruption is deliberately absent: a backend that can be interrupted
/// retries internally, so only genuine outcomes reach callers.
/// `UnexpectedEof` reports that an exact read ran out of data.
/// `InvalidInput` reports a rejected argument, such as a seek whose result
/// would be negative or an offset that does not fit the backend's address
/// range. `InvalidData` reports that a needed total size is unknown.
/// `Other` stands for any backend-native failure passed through unchanged.
#[derive(Clone, Copy, Debug, PartialEq, Eq, Structural)]
pub enum IoError {
    UnexpectedEof,
    InvalidInput,
    InvalidData,
    Other,
}

/// How many bytes a clamped access of `req` bytes at position `pos` against
/// an extent of `len` bytes transfers: all of `req` when it fits, the bytes
/// that remain when it does not, and none at or past the end.
pub open spec fn avail_of(len: int, pos: int, req: int) -> int {
    if pos >= len {
        0
    } else if req <= len - pos {
        req
    } else {
        len - pos
    }
}

/// The contents of a backend after writing `buf` at offset `pos` into
/// `data`: bytes below `pos` keep their old values, a gap between the old
/// end and `pos` is filled with zeroes, `buf` lands at `pos`, and bytes
/// above `pos + buf.len()` that existed before keep their old values.
pub open spec fn write_result(data: Seq<u8>, pos: int, buf: Seq<u8>) -> Seq<u8> {
    let end = if data.len() >= pos + buf.len() {
        data.len() as int
    } else {
        pos + buf.len()
    };
    Seq::new(
        end as nat,
        |i: int|
            if pos <= i < pos + buf.len() {
                buf[i - pos]
            } else if i < data.len() {
                data[i]
            } else {
                0u8
            },
    )
}

/// The contents of a fixed-capacity backend after a bulk write of `buf` at
/// offset `pos`: the part of `buf` that still fits the current extent
/// lands there, anything beyond is dropped, and nothing grows.
pub open spec fn clamped_write_result(data: Seq<u8>, pos: int, buf: Seq<u8>) -> Seq<u8> {
    if avail_of(data.len() as int, pos, buf.len() as int) == 0 {
        data
    } else {
        write_result(data, pos, buf.take(avail_of(data.len() as int, pos, buf.len() as int)))
    }
}

/// Capability to read bytes at an explicit offset, without any notion of a
/// current position. Reading must not change the backend. A backend whose
/// reads can be interrupted retries at its own level, so interruption
/// never surfaces here.
pub trait ReadAt {
    /// The byte sequence this backend exposes to positioned reads.
    spec fn readable(&self) -> Seq<u8>;

    /// Whether every read returns `Ok` with exactly the clamped count
    /// `avail_of(...)`. True for the in-memory backends; an implementation
    /// over a fallible device leaves it false and callers then only get the
    /// baseline guarantees.
    spec fn reads_exactly(&self) -> bool;

    /// No backend addresses more than `u64::MAX` bytes.
    proof fn readable_fits(&self)
        ensures
            self.readable().len() <= u64::MAX,
    ;

    /// Reads bytes at offset `pos` into the front of `buf`, returning how
    /// many bytes were read. A count of zero with a non-empty buffer means
    /// the offset is at or past the end of the data; a short but non-zero
    /// count may also occur. The tail of `buf` beyond the count is left
    /// untouched.
    fn read_at(&self, pos: u64, buf: &mut [u8]) -> (r: Result<usize, IoError>)
        ensures
            final(buf)@.len() == old(buf)@.len(),
            match r {
                Ok(n) => {
                    &&& n <= old(buf)@.len()
                    &&& (n != 0 ==> pos + n <= self.readable().len())
                    &&& (forall|i: int| 0 <= i < n ==> final(buf)@[i] == self.readable()[pos + i])
                    &&& (forall|i: int|
                        n <= i < old(buf)@.len() ==> final(buf)@[i] == old(buf)@[i])
                    &&& (n == 0 && old(buf)@.len() > 0 ==> pos >= self.readable().len())
                },
                Err(_) => true,
            },
            self.reads_exactly() ==> (r matches Ok(n) && n == avail_of(
                self.readable().len() as int,
                pos as int,
                old(buf)@.len() as int,
            )),
    ;

    /// Reads exactly `buf.len()` bytes at offset `pos`, looping over
    /// `read_at` while it makes progress and reporting `UnexpectedEof`
    /// when the data runs out before `buf` is full. Any other error is
    /// surfaced immediately; bytes read before it may already have landed
    /// in `buf`.
    fn read_exact_at(&self, pos: u64, buf: &mut [u8]) -> (r: Result<(), IoError>)
        ensures
            final(buf)@.len() == old(buf)@.len(),
            match r {
                Ok(_) => old(buf)@.len() == 0 || (pos + old(buf)@.len() <= self.readable().len()
                    && final(buf)@ == self.readable().subrange(
                    pos as int,
                    pos + old(buf)@.len(),
                )),
                Err(_) => true,
            },
            old(buf)@.len() == 0 ==> (r matches Ok(_) && final(buf)@ == old(buf)@),
            self.reads_exactly() ==> ((r matches Ok(_) <==> (old(buf)@.len() == 0 || pos + old(
                buf,
            )@.len() <= self.readable().len())) && (r matches Err(e) ==> e
                == IoError::UnexpectedEof)),
    {
        let len = buf.len();
        let mut done: usize = 0;
        while done < len
            invariant
                done <= len,
                buf@.len() == len,
                len == old(buf)@.len(),
                done != 0 ==> pos + done <= self.readable().len(),
                forall|i: int| 0 <= i < done ==> #[trigger] buf@[i] == self.readable()[pos + i],
                forall|i: int| done <= i < len ==> #[trigger] buf@[i] == old(buf)@[i],
            decreases len - done,
        {
            proof {
                self.readable_fits();
            }
            let pair = buf.split_at_mut(done);
            let rest = pair.1;
            match self.read_at(pos + done as u64, rest) {
                Ok(n) => {
                    if n == 0 {
                        return Err(IoError::UnexpectedEof);
                    }
                    done += n;
                },
                Err(e) => {
                    return Err(e);
                },
            }
        }
        proof {
            if len > 0 {
                assert(buf@ =~= self.readable().subrange(pos as int, pos + len));
            }
        }
        Ok(())
    }
}

/// Writing a prefix of `b` and then the following chunk lands the same
/// bytes as writing the longer prefix at once.
proof fn lemma_write_result_chain(d: Seq<u8>, pos: int, b: Seq<u8>, k1: int, k2: int)
    requires
        0 <= pos,
        0 <= k1,
        0 <= k2,
        k1 + k2 <= b.len(),
    ensures
        write_result(write_result(d, pos, b.take(k1)), pos + k1, b.subrange(k1, k1 + k2))
            == write_result(d, pos, b.take(k1 + k2)),
{
    assert(write_result(write_result(d, pos, b.take(k1)), pos + k1, b.subrange(k1, k1 + k2)) =~=
    write_result(d, pos, b.take(k1 + k2)));
}

/// Capability to write bytes at an explicit offset, without any notion of a
/// current position. A write whose offset lies beyond the current extent
/// first fills the gap with zeroes (auto-extension); a fixed-capacity
/// backend instead clamps the write to the room that remains. A backend
/// whose writes can be interrupted retries at its own level, so
/// interruption never surfaces here.
pub trait WriteAt {
    /// The byte sequence positioned writes act on.
    spec fn writable(&self) -> Seq<u8>;

    /// Whether a write that lies entirely within the current extent always
    /// succeeds in full. True for every backend of this crate.
    spec fn writes_in_bounds(&self) -> bool;

    /// Whether every write succeeds in full, extending the backend and
    /// zero-filling any gap as needed. True for growable backends; false
    /// for fixed-capacity ones, which clamp instead.
    spec fn auto_extends(&self) -> bool;

    /// Whether every write returns `Ok` with exactly the count clamped to
    /// the current extent, `avail_of(...)`: a write at or past the end
    /// takes nothing and reports zero, never an error, and the backend
    /// never grows. True for the fixed-capacity backends and their
    /// windows.
    spec fn writes_clamped(&self) -> bool;

    /// No backend addresses more than `u64::MAX` bytes.
    proof fn writable_fits(&self)
        ensures
            self.writable().len() <= u64::MAX,
    ;

    /// Writes bytes from `buf` at offset `pos`, returning how many bytes
    /// were written. A short count only occurs when a fixed-capacity
    /// backend runs out of room.
    fn write_at(&mut self, pos: u64, buf: &[u8]) -> (r: Result<usize, IoError>)
        ensures
            final(self).writes_in_bounds() == old(self).writes_in_bounds(),
            final(self).auto_extends() == old(self).auto_extends(),
            final(self).writes_clamped() == old(self).writes_clamped(),
            match r {
                Ok(n) => {
                    &&& n <= buf@.len()
                    &&& (n > 0 ==> final(self).writable() == write_result(
                        old(self).writable(),
                        pos as int,
                        buf@.take(n as int),
                    ))
                    &&& (n == 0 && buf@.len() > 0 ==> final(self).writable() == old(
                        self,
                    ).writable())
                    &&& (n == 0 && buf@.len() == 0 ==> (final(self).writable() == old(
                        self,
                    ).writable() || final(self).writable() == write_result(
                        old(self).writable(),
                        pos as int,
                        Seq::empty(),
                    )))
                },
                Err(_) => final(self).writable() == old(self).writable(),
            },
            old(self).writes_in_bounds() && pos + buf@.len() <= old(self).writable().len()
                ==> (r matches Ok(n) && n == buf@.len()),
            old(self).auto_extends() && pos + buf@.len() <= usize::MAX ==> (r matches Ok(n) && n
                == buf@.len()),
            old(self).writes_clamped() ==> (r matches Ok(n) && n == avail_of(
                old(self).writable().len() as int,
                pos as int,
                buf@.len() as int,
            )),
    ;

    /// Writes all of `buf` at offset `pos`, looping over `write_at` while
    /// it makes progress. Running out of room on a fixed-capacity backend
    /// silently stops the loop and still reports success; growable
    /// backends extend instead, so they always take the whole buffer.
    fn write_all_at(&mut self, pos: u64, buf: &[u8]) -> (r: Result<(), IoError>)
        ensures
            final(self).writes_in_bounds() == old(self).writes_in_bounds(),
            final(self).auto_extends() == old(self).auto_extends(),
            final(self).writable() == old(self).writable() || (exists|k: int|
                0 < k <= buf@.len() && final(self).writable() == write_result(
                    old(self).writable(),
                    pos as int,
                    #[trigger] buf@.take(k),
                )),
            buf@.len() == 0 ==> (r matches Ok(_) && final(self).writable() == old(
                self,
            ).writable()),
            old(self).writes_in_bounds() && buf@.len() > 0 && pos + buf@.len() <= old(
                self,
            ).writable().len() ==> (r matches Ok(_) && final(self).writable() == write_result(
                old(self).writable(),
                pos as int,
                buf@,
            )),
            old(self).auto_extends() && buf@.len() > 0 && pos + buf@.len() <= usize::MAX ==> (r
                matches Ok(_) && final(self).writable() == write_result(
                old(self).writable(),
                pos as int,
                buf@,
            )),
            final(self).writes_clamped() == old(self).writes_clamped(),
            old(self).writes_clamped() ==> (r matches Ok(_) && final(self).writable()
                == clamped_write_result(old(self).writable(), pos as int, buf@)),
    {
        let len = buf.len();
        let mut done: usize = 0;
        while done < len
            invariant
                done <= len,
                len == buf@.len(),
                self.writes_in_bounds() == old(self).writes_in_bounds(),
                self.auto_extends() == old(self).auto_extends(),
                self.writes_clamped() == old(self).writes_clamped(),
                done == 0 ==> self.writable() == old(self).writable(),
                done > 0 ==> self.writable() == write_result(
                    old(self).writable(),
                    pos as int,
                    buf@.take(done as int),
                ),
                done != 0 ==> pos + done <= self.writable().len(),
                old(self).writes_clamped() ==> self.writable().len() == old(
                    self,
                ).writable().len(),
                old(self).writes_clamped() && done > 0 ==> pos + done <= old(
                    self,
                ).writable().len(),
            decreases len - done,
        {
            proof {
                self.writable_fits();
            }
            let pair = buf.split_at(done);
            let rest = pair.1;
            match self.write_at(pos + done as u64, rest) {
                Ok(n) => {
                    proof {
                        if n > 0 {
                            assert(rest@.take(n as int) =~= buf@.subrange(
                                done as int,
                                done + n as int,
                            ));
                            if done > 0 {
                                lemma_write_result_chain(
                                    old(self).writable(),
                                    pos as int,
                                    buf@,
                                    done as int,
                                    n as int,
                                );
                            } else {
                                assert(rest@.take(n as int) =~= buf@.take(n as int));
                            }
                        }
                    }
                    if n == 0 {
                        return Ok(());
                    }
                    done += n;
                },
                Err(e) => {
                    return Err(e);
                },
            }
        }
        Ok(())
    }

    /// Forces any buffered state through to the backend. A no-op for the
    /// in-memory backends; never changes the visible contents.
    fn flush(&mut self) -> (r: Result<(), IoError>)
        ensures
            final(self).writable() == old(self).writable(),
            final(self).writes_in_bounds() == old(self).writes_in_bounds(),
            final(self).auto_extends() == old(self).auto_extends(),
            final(self).writes_clamped() == old(self).writes_clamped(),
    ;
}

/// Capability to report a total size in bytes, where `None` is a legal
/// answer (a pipe, say) distinct from zero.
pub trait Size {
    /// The size this backend reports: `Some(n)` when known, `None` when
    /// the backend has no known total size.
    spec fn size_spec(&self) -> Option<u64>;

    /// Whether the size query always succeeds. True for the in-memory
    /// backends and for every wrapper of this crate.
    spec fn size_reliable(&self) -> bool;

    /// Gets the total size of this object in bytes, or `None` when the
    /// size is unknown; `None` must not be treated as an error.
    fn size(&self) -> (r: Result<Option<u64>, IoError>)
        ensures
            r matches Ok(s) ==> s == self.size_spec(),
            self.size_reliable() ==> (r matches Ok(s) && s == self.size_spec()),
    ;
}

} // verus!
