//! Sequential-stream adapters over positioned backends: a `Cursor` tracks
//! a current position that sequential reads and writes advance, and a
//! `SizeCursor` additionally seeks from the end when the backend knows its
//! total size.

use vstd::prelude::*;

use crate::{avail_of, write_result, IoError, ReadAt, Size, WriteAt};

verus! {

/// Where a seek points: an absolute offset, a signed delta from the
/// current position, or a signed delta from the end of the backend.
#[derive(Clone, Copy, Debug, PartialEq, Eq, Structural)]
pub enum SeekFrom {
    Start(u64),
    Current(i64),
    End(i64),
}

/// The position that a seek relative to `base` by `delta` lands on:
/// nothing when the result would be negative or would not fit in `u64`.
pub open spec fn seek_target(base: int, delta: int) -> Option<u64> {
    if base + delta < 0 || base + delta > u64::MAX {
        Option::None
    } else {
        Option::Some((base + delta) as u64)
    }
}

/// Adds a signed delta to a base position, rejecting a result that would
/// be negative or out of the address range.
fn apply_delta(base: u64, delta: i64) -> (r: Result<u64, IoError>)
    ensures
        match seek_target(base as int, delta as int) {
            Option::Some(p) => r == Ok::<u64, IoError>(p),
            Option::None => r == Err::<u64, IoError>(IoError::InvalidInput),
        },
{
    if delta >= 0 {
        let d = delta as u64;
        if base > u64::MAX - d {
            Err(IoError::InvalidInput)
        } else {
            Ok(base + d)
        }
    } else {
        // The magnitude of the delta; the most negative value has no
        // negation of its own type, so its magnitude is spelled out.
        let m: u64 = if delta == i64::MIN {
            9223372036854775808u64
        } else {
            (-delta) as u64
        };
        if m > base {
            Err(IoError::InvalidInput)
        } else {
            Ok(base - m)
        }
    }
}

/// Adapts a `ReadAt` or `WriteAt` into a sequential stream. The cursor
/// holds a current position; each sequential read or write happens at that
/// position and advances it by the bytes actually transferred, so the
/// backend sees exactly the positioned calls a caller would have made by
/// hand. A plain `Cursor` does not know the backend's total length, so it
/// cannot seek from the end; see [`SizeCursor`] for that.
pub struct Cursor<I> {
    io: I,
    pos: u64,
}

impl<I> Cursor<I> {
    /// The wrapped backend.
    pub closed spec fn spec_io(&self) -> I {
        self.io
    }

    /// The current stream position.
    pub closed spec fn spec_pos(&self) -> u64 {
        self.pos
    }

    /// Creates a new `Cursor` which starts reading and writing at a
    /// specified offset.
    pub fn new_pos(io: I, pos: u64) -> (r: Self)
        ensures
            r.spec_io() == io,
            r.spec_pos() == pos,
    {
        Cursor { io, pos }
    }

    /// Creates a new `Cursor` which starts reading and writing at offset
    /// zero.
    pub fn new(io: I) -> (r: Self)
        ensures
            r.spec_io() == io,
            r.spec_pos() == 0,
    {
        Self::new_pos(io, 0)
    }

    /// Consumes `self` and yields the inner backend.
    pub fn into_inner(self) -> (r: I)
        ensures
            r == self.spec_io(),
    {
        self.io
    }

    /// Borrows the inner backend.
    pub fn get_ref(&self) -> (r: &I)
        ensures
            *r == self.spec_io(),
    {
        &self.io
    }

    /// Borrows the inner backend mutably.
    pub fn get_mut(&mut self) -> (r: &mut I)
        ensures
            *r == old(self).spec_io(),
            final(self).spec_io() == *final(r),
            final(self).spec_pos() == old(self).spec_pos(),
    {
        &mut self.io
    }

    /// Gets the current read/write position.
    pub fn position(&self) -> (r: u64)
        ensures
            r == self.spec_pos(),
    {
        self.pos
    }

    /// Sets the current read/write position.
    pub fn set_position(&mut self, pos: u64)
        ensures
            final(self).spec_io() == old(self).spec_io(),
            final(self).spec_pos() == pos,
    {
        self.pos = pos;
    }

    /// Seeks to a new position. `Start` always succeeds, even past any
    /// end, since the cursor does not know where the backend ends;
    /// `Current` rejects a result that would be negative or out of range;
    /// `End` always fails because a plain cursor has no notion of a total
    /// length.
    pub fn seek(&mut self, from: SeekFrom) -> (r: Result<u64, IoError>)
        ensures
            final(self).spec_io() == old(self).spec_io(),
            match r {
                Ok(p) => p == final(self).spec_pos(),
                Err(_) => final(self).spec_pos() == old(self).spec_pos(),
            },
            match from {
                SeekFrom::Start(p) => r == Ok::<u64, IoError>(p),
                SeekFrom::Current(d) => match seek_target(old(self).spec_pos() as int, d as int) {
                    Option::Some(p) => r == Ok::<u64, IoError>(p),
                    Option::None => r == Err::<u64, IoError>(IoError::InvalidInput),
                },
                SeekFrom::End(_) => r == Err::<u64, IoError>(IoError::InvalidInput),
            },
    {
        match from {
            SeekFrom::Start(p) => {
                self.pos = p;
                Ok(p)
            },
            SeekFrom::Current(d) => {
                match apply_delta(self.pos, d) {
                    Ok(p) => {
                        self.pos = p;
                        Ok(p)
                    },
                    Err(e) => Err(e),
                }
            },
            SeekFrom::End(_) => Err(IoError::InvalidInput),
        }
    }
}

impl<I: ReadAt> Cursor<I> {
    /// Reads sequentially: a positioned read at the current position,
    /// which then advances by the bytes actually read. The backend and
    /// buffer see exactly what `read_at` at the tracked position gives.
    pub fn read(&mut self, buf: &mut [u8]) -> (r: Result<usize, IoError>)
        ensures
            final(self).spec_io() == old(self).spec_io(),
            final(buf)@.len() == old(buf)@.len(),
            match r {
                Ok(n) => {
                    &&& n <= old(buf)@.len()
                    &&& final(self).spec_pos() == old(self).spec_pos() + n
                    &&& (n != 0 ==> old(self).spec_pos() + n <= old(self).spec_io().readable().len())
                    &&& (forall|i: int|
                        0 <= i < n ==> final(buf)@[i] == old(self).spec_io().readable()[old(self).spec_pos() + i])
                    &&& (forall|i: int|
                        n <= i < old(buf)@.len() ==> final(buf)@[i] == old(buf)@[i])
                    &&& (n == 0 && old(buf)@.len() > 0 ==> old(self).spec_pos() >= old(self).spec_io().readable().len())
                },
                Err(_) => final(self).spec_pos() == old(self).spec_pos(),
            },
            old(self).spec_io().reads_exactly() ==> (r matches Ok(n) && n == avail_of(
                old(self).spec_io().readable().len() as int,
                old(self).spec_pos() as int,
                old(buf)@.len() as int,
            )),
    {
        match self.io.read_at(self.pos, buf) {
            Ok(n) => {
                proof {
                    self.io.readable_fits();
                }
                self.pos = self.pos + n as u64;
                Ok(n)
            },
            Err(e) => Err(e),
        }
    }
}

impl<I: WriteAt> Cursor<I> {
    /// Writes sequentially: a positioned write at the current position,
    /// which then advances by the bytes actually written.
    pub fn write(&mut self, buf: &[u8]) -> (r: Result<usize, IoError>)
        ensures
            final(self).spec_io().writes_in_bounds() == old(self).spec_io().writes_in_bounds(),
            final(self).spec_io().auto_extends() == old(self).spec_io().auto_extends(),
            final(self).spec_io().writes_clamped() == old(self).spec_io().writes_clamped(),
            match r {
                Ok(n) => {
                    &&& n <= buf@.len()
                    &&& final(self).spec_pos() == old(self).spec_pos() + n
                    &&& (n > 0 ==> final(self).spec_io().writable() == write_result(
                        old(self).spec_io().writable(),
                        old(self).spec_pos() as int,
                        buf@.take(n as int),
                    ))
                    &&& (n == 0 && buf@.len() > 0 ==> final(self).spec_io().writable() == old(self).spec_io().writable())
                },
                Err(_) => final(self).spec_pos() == old(self).spec_pos() && final(self).spec_io().writable() == old(self).spec_io().writable(),
            },
            old(self).spec_io().writes_in_bounds() && old(self).spec_pos() + buf@.len() <= old(self).spec_io().writable().len() ==> (r matches Ok(n) && n == buf@.len()),
            old(self).spec_io().auto_extends() && old(self).spec_pos() + buf@.len() <= usize::MAX
                ==> (r matches Ok(n) && n == buf@.len()),
            old(self).spec_io().writes_clamped() ==> (r matches Ok(n) && n == avail_of(
                old(self).spec_io().writable().len() as int,
                old(self).spec_pos() as int,
                buf@.len() as int,
            )),
    {
        let pos = self.pos;
        match self.io.write_at(pos, buf) {
            Ok(n) => {
                proof {
                    self.io.writable_fits();
                    if buf@.len() == 0 {
                        assert(buf@.take(0) =~= Seq::<u8>::empty());
                    }
                }
                self.pos = self.pos + n as u64;
                Ok(n)
            },
            Err(e) => Err(e),
        }
    }

    /// Flushes the backend; the cursor position and the backend's visible
    /// contents do not change.
    pub fn flush(&mut self) -> (r: Result<(), IoError>)
        ensures
            final(self).spec_pos() == old(self).spec_pos(),
            final(self).spec_io().writable() == old(self).spec_io().writable(),
            final(self).spec_io().writes_in_bounds() == old(self).spec_io().writes_in_bounds(),
            final(self).spec_io().auto_extends() == old(self).spec_io().auto_extends(),
            final(self).spec_io().writes_clamped() == old(self).spec_io().writes_clamped(),
    {
        self.io.flush()
    }
}

/// A `Cursor` over a backend that also knows its size, which makes
/// seeking from the end possible. Everything else delegates to the
/// embedded cursor unchanged.
pub struct SizeCursor<I: Size> {
    cursor: Cursor<I>,
}

impl<I: Size> SizeCursor<I> {
    /// The wrapped backend.
    pub open spec fn spec_io(&self) -> I {
        self.spec_cursor().spec_io()
    }

    /// The current stream position.
    pub open spec fn spec_pos(&self) -> u64 {
        self.spec_cursor().spec_pos()
    }

    /// The embedded cursor.
    pub closed spec fn spec_cursor(&self) -> Cursor<I> {
        self.cursor
    }

    /// Creates a new `SizeCursor` which starts reading and writing at a
    /// specified offset.
    pub fn new_pos(io: I, pos: u64) -> (r: Self)
        ensures
            r.spec_io() == io,
            r.spec_pos() == pos,
    {
        SizeCursor { cursor: Cursor::new_pos(io, pos) }
    }

    /// Creates a new `SizeCursor` which starts reading and writing at
    /// offset zero.
    pub fn new(io: I) -> (r: Self)
        ensures
            r.spec_io() == io,
            r.spec_pos() == 0,
    {
        SizeCursor { cursor: Cursor::new(io) }
    }

    /// Borrows the embedded cursor.
    pub fn as_cursor(&self) -> (r: &Cursor<I>)
        ensures
            *r == self.spec_cursor(),
    {
        &self.cursor
    }

    /// Borrows the embedded cursor mutably.
    pub fn as_cursor_mut(&mut self) -> (r: &mut Cursor<I>)
        ensures
            *r == old(self).spec_cursor(),
            final(self).spec_cursor() == *final(r),
    {
        &mut self.cursor
    }

    /// Consumes `self` and yields the embedded cursor.
    pub fn into_cursor(self) -> (r: Cursor<I>)
        ensures
            r == self.spec_cursor(),
    {
        self.cursor
    }

    /// Consumes `self` and yields the inner backend.
    pub fn into_inner(self) -> (r: I)
        ensures
            r == self.spec_io(),
    {
        self.cursor.io
    }

    /// Borrows the inner backend.
    pub fn get_ref(&self) -> (r: &I)
        ensures
            *r == self.spec_io(),
    {
        &self.cursor.io
    }

    /// Borrows the inner backend mutably.
    pub fn get_mut(&mut self) -> (r: &mut I)
        ensures
            *r == old(self).spec_io(),
            final(self).spec_io() == *final(r),
            final(self).spec_pos() == old(self).spec_pos(),
    {
        &mut self.cursor.io
    }

    /// Gets the current read/write position.
    pub fn position(&self) -> (r: u64)
        ensures
            r == self.spec_pos(),
    {
        self.cursor.position()
    }

    /// Sets the current read/write position.
    pub fn set_position(&mut self, pos: u64)
        ensures
            final(self).spec_io() == old(self).spec_io(),
            final(self).spec_pos() == pos,
    {
        self.cursor.set_position(pos)
    }

    /// Seeks to a new position. `Start` and `Current` behave exactly as
    /// on a plain `Cursor`. `End` asks the backend for its size: a
    /// backend that reports no known size yields `InvalidData`, an error
    /// from the size query itself is passed through, and a resulting
    /// position that would be negative or out of range is rejected as
    /// `InvalidInput`.
    pub fn seek(&mut self, from: SeekFrom) -> (r: Result<u64, IoError>)
        ensures
            final(self).spec_io() == old(self).spec_io(),
            match r {
                Ok(p) => p == final(self).spec_pos(),
                Err(_) => final(self).spec_pos() == old(self).spec_pos(),
            },
            match from {
                SeekFrom::Start(p) => r == Ok::<u64, IoError>(p),
                SeekFrom::Current(d) => match seek_target(old(self).spec_pos() as int, d as int) {
                    Option::Some(p) => r == Ok::<u64, IoError>(p),
                    Option::None => r == Err::<u64, IoError>(IoError::InvalidInput),
                },
                SeekFrom::End(d) => {
                    &&& (old(self).spec_io().size_spec() matches Some(s) ==> (r matches Ok(_)
                        ==> match seek_target(s as int, d as int) {
                        Option::Some(p) => r == Ok::<u64, IoError>(p),
                        Option::None => false,
                    }))
                    &&& (old(self).spec_io().size_reliable() ==> match old(self).spec_io().size_spec() {
                        Option::None => r == Err::<u64, IoError>(IoError::InvalidData),
                        Option::Some(s) => match seek_target(s as int, d as int) {
                            Option::Some(p) => r == Ok::<u64, IoError>(p),
                            Option::None => r == Err::<u64, IoError>(IoError::InvalidInput),
                        },
                    })
                },
            },
    {
        match from {
            SeekFrom::End(d) => {
                match self.cursor.io.size() {
                    Ok(Some(s)) => {
                        match apply_delta(s, d) {
                            Ok(p) => {
                                self.cursor.pos = p;
                                Ok(p)
                            },
                            Err(e) => Err(e),
                        }
                    },
                    Ok(None) => Err(IoError::InvalidData),
                    Err(e) => Err(e),
                }
            },
            other => self.cursor.seek(other),
        }
    }
}

impl<I: Size + ReadAt> SizeCursor<I> {
    /// Reads sequentially at the current position and advances it, just
    /// as the embedded cursor does.
    pub fn read(&mut self, buf: &mut [u8]) -> (r: Result<usize, IoError>)
        ensures
            final(self).spec_io() == old(self).spec_io(),
            final(buf)@.len() == old(buf)@.len(),
            match r {
                Ok(n) => {
                    &&& n <= old(buf)@.len()
                    &&& final(self).spec_pos() == old(self).spec_pos() + n
                    &&& (n != 0 ==> old(self).spec_pos() + n <= old(self).spec_io().readable().len())
                    &&& (forall|i: int|
                        0 <= i < n ==> final(buf)@[i] == old(self).spec_io().readable()[old(self).spec_pos() + i])
                    &&& (forall|i: int|
                        n <= i < old(buf)@.len() ==> final(buf)@[i] == old(buf)@[i])
                    &&& (n == 0 && old(buf)@.len() > 0 ==> old(self).spec_pos() >= old(self).spec_io().readable().len())
                },
                Err(_) => final(self).spec_pos() == old(self).spec_pos(),
            },
            old(self).spec_io().reads_exactly() ==> (r matches Ok(n) && n == avail_of(
                old(self).spec_io().readable().len() as int,
                old(self).spec_pos() as int,
                old(buf)@.len() as int,
            )),
    {
        self.cursor.read(buf)
    }
}

impl<I: Size + WriteAt> SizeCursor<I> {
    /// Writes sequentially at the current position and advances it, just
    /// as the embedded cursor does.
    pub fn write(&mut self, buf: &[u8]) -> (r: Result<usize, IoError>)
        ensures
            final(self).spec_io().writes_in_bounds() == old(self).spec_io().writes_in_bounds(),
            final(self).spec_io().auto_extends() == old(self).spec_io().auto_extends(),
            final(self).spec_io().writes_clamped() == old(self).spec_io().writes_clamped(),
            match r {
                Ok(n) => {
                    &&& n <= buf@.len()
                    &&& final(self).spec_pos() == old(self).spec_pos() + n
                    &&& (n > 0 ==> final(self).spec_io().writable() == write_result(
                        old(self).spec_io().writable(),
                        old(self).spec_pos() as int,
                        buf@.take(n as int),
                    ))
                    &&& (n == 0 && buf@.len() > 0 ==> final(self).spec_io().writable() == old(self).spec_io().writable())
                },
                Err(_) => final(self).spec_pos() == old(self).spec_pos() && final(self).spec_io().writable() == old(self).spec_io().writable(),
            },
            old(self).spec_io().writes_in_bounds() && old(self).spec_pos() + buf@.len() <= old(self).spec_io().writable().len() ==> (r matches Ok(n) && n == buf@.len()),
            old(self).spec_io().auto_extends() && old(self).spec_pos() + buf@.len() <= usize::MAX
                ==> (r matches Ok(n) && n == buf@.len()),
            old(self).spec_io().writes_clamped() ==> (r matches Ok(n) && n == avail_of(
                old(self).spec_io().writable().len() as int,
                old(self).spec_pos() as int,
                buf@.len() as int,
            )),
    {
        self.cursor.write(buf)
    }

    /// Flushes the backend; the cursor position and the backend's visible
    /// contents do not change.
    pub fn flush(&mut self) -> (r: Result<(), IoError>)
        ensures
            final(self).spec_pos() == old(self).spec_pos(),
            final(self).spec_io().writable() == old(self).spec_io().writable(),
            final(self).spec_io().writes_in_bounds() == old(self).spec_io().writes_in_bounds(),
            final(self).spec_io().auto_extends() == old(self).spec_io().auto_extends(),
            final(self).spec_io().writes_clamped() == old(self).spec_io().writes_clamped(),
    {
        self.cursor.flush()
    }
}

} // verus!
