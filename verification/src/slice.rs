//! A bounded or unbounded positional window over another backend.

use vstd::prelude::*;

use crate::{avail_of, write_result, IoError, ReadAt, Size, WriteAt};

verus! {

/// The bytes of `data` that a window at `offset`, optionally capped at
/// `size` bytes, exposes. An offset at or past the end yields an empty
/// window; a cap reaching past the end is cut at the end.
pub open spec fn window(data: Seq<u8>, offset: int, size: Option<u64>) -> Seq<u8> {
    let lo = if offset <= data.len() {
        offset
    } else {
        data.len() as int
    };
    let hi = match size {
        Option::None => data.len() as int,
        Option::Some(s) => if offset + s <= data.len() {
            offset + s
        } else {
            data.len() as int
        },
    };
    data.subrange(lo, hi)
}

/// How many of `req` bytes requested at window position `pos` stay inside
/// a configured cap of `size`; an unbounded window caps nothing.
pub open spec fn slice_avail(size: Option<u64>, pos: int, req: int) -> int {
    match size {
        Option::None => req,
        Option::Some(s) => avail_of(s as int, pos, req),
    }
}

/// A window into another `ReadAt` or `WriteAt`: every access at
/// caller-relative position `p` lands at `p + offset` on the backend, and
/// a configured size caps how far reads and writes may reach.
pub struct Slice<I> {
    io: I,
    offset: u64,
    size: Option<u64>,
}

impl<I> Slice<I> {
    /// The wrapped backend.
    pub closed spec fn spec_io(&self) -> I {
        self.io
    }

    /// The position on the backend where this window starts.
    pub closed spec fn spec_offset(&self) -> u64 {
        self.offset
    }

    /// The configured cap: `None` leaves the window unbounded.
    pub closed spec fn spec_size(&self) -> Option<u64> {
        self.size
    }

    /// Creates a new window of `size` bytes starting at `offset` in `io`;
    /// passing no size leaves the window unbounded.
    pub fn new(io: I, offset: u64, size: Option<u64>) -> (r: Self)
        ensures
            r.spec_io() == io,
            r.spec_offset() == offset,
            r.spec_size() == size,
    {
        Slice { io, offset, size }
    }

    /// How many of `bytes` requested at window position `pos` stay inside
    /// the configured cap.
    fn avail(&self, pos: u64, bytes: usize) -> (r: usize)
        ensures
            r == slice_avail(self.spec_size(), pos as int, bytes as int),
            r <= bytes,
    {
        match self.size {
            Option::None => bytes,
            Option::Some(size) => {
                if pos >= size {
                    0
                } else if (bytes as u64) <= size - pos {
                    bytes
                } else {
                    (size - pos) as usize
                }
            },
        }
    }
}

impl<I: Size> Slice<I> {
    /// Creates a window from `offset` to the end of `io`, asking `io` for
    /// its size; a backend with no known size yields `InvalidData`. The
    /// caller must keep `offset` within the backend's size.
    pub fn new_to_end(io: I, offset: u64) -> (r: Result<Self, IoError>)
        requires
            io.size_spec() matches Some(s) ==> offset <= s,
        ensures
            r matches Ok(sl) ==> {
                &&& io.size_spec() matches Some(s) && sl.spec_size() == Some((s - offset) as u64)
                &&& sl.spec_io() == io
                &&& sl.spec_offset() == offset
            },
            io.size_reliable() ==> (r matches Ok(_) <==> io.size_spec() matches Some(_)),
            io.size_reliable() && io.size_spec() is None ==> r == Err::<Self, IoError>(
                IoError::InvalidData,
            ),
    {
        match io.size() {
            Ok(Some(size)) => Ok(Self::new(io, offset, Some(size - offset))),
            Ok(None) => Err(IoError::InvalidData),
            Err(e) => Err(e),
        }
    }
}

impl<I: ReadAt> ReadAt for Slice<I> {
    open spec fn readable(&self) -> Seq<u8> {
        window(self.spec_io().readable(), self.spec_offset() as int, self.spec_size())
    }

    open spec fn reads_exactly(&self) -> bool {
        self.spec_io().reads_exactly() && match self.spec_size() {
            Option::None => true,
            Option::Some(s) => self.spec_offset() + s <= u64::MAX,
        }
    }

    proof fn readable_fits(&self) {
        self.spec_io().readable_fits();
    }

    fn read_at(&self, pos: u64, buf: &mut [u8]) -> (r: Result<usize, IoError>) {
        let bytes = self.avail(pos, buf.len());
        if bytes == 0 {
            return Ok(0);
        }
        if pos > u64::MAX - self.offset {
            // The backend cannot be addressed at `pos + offset`. With an
            // unbounded window this can only happen at or past the end of
            // the window, which is a plain end-of-data; with a cap this
            // far out the offset is out of the backend's address range.
            proof {
                self.spec_io().readable_fits();
            }
            match self.size {
                Option::None => {
                    return Ok(0);
                },
                Option::Some(_) => {
                    return Err(IoError::InvalidInput);
                },
            }
        }
        let inner_pos = pos + self.offset;
        // The cap truncates the buffer before the backend sees it: only
        // the front `bytes` bytes are handed down, the tail stays as the
        // caller left it.
        let pair = buf.split_at_mut(bytes);
        let chunk = pair.0;
        let n = match self.io.read_at(inner_pos, chunk) {
            Ok(n) => n,
            Err(e) => {
                return Err(e);
            },
        };
        proof {
            self.spec_io().readable_fits();
        }
        Ok(n)
    }
}

impl<I: WriteAt> WriteAt for Slice<I> {
    open spec fn writable(&self) -> Seq<u8> {
        window(self.spec_io().writable(), self.spec_offset() as int, self.spec_size())
    }

    open spec fn writes_in_bounds(&self) -> bool {
        self.spec_io().writes_in_bounds()
    }

    open spec fn auto_extends(&self) -> bool {
        false
    }

    open spec fn writes_clamped(&self) -> bool {
        self.spec_io().writes_clamped()
    }

    proof fn writable_fits(&self) {
        self.spec_io().writable_fits();
    }

    fn write_at(&mut self, pos: u64, buf: &[u8]) -> (r: Result<usize, IoError>)
        ensures
            final(self).spec_offset() == old(self).spec_offset(),
            final(self).spec_size() == old(self).spec_size(),
            final(self).spec_io().writes_in_bounds() == old(self).spec_io().writes_in_bounds(),
            final(self).spec_io().auto_extends() == old(self).spec_io().auto_extends(),
            final(self).spec_io().writes_clamped() == old(self).spec_io().writes_clamped(),
            match r {
                Ok(n) => {
                    &&& (n > 0 ==> final(self).spec_io().writable() == write_result(
                        old(self).spec_io().writable(),
                        old(self).spec_offset() + pos,
                        buf@.take(n as int),
                    ))
                    &&& (n == 0 ==> final(self).spec_io().writable() == old(
                        self,
                    ).spec_io().writable())
                },
                Err(_) => final(self).spec_io().writable() == old(self).spec_io().writable(),
            },
            old(self).spec_io().auto_extends() && old(self).spec_offset() + pos + buf@.len()
                <= usize::MAX ==> (r matches Ok(n) && n == slice_avail(
                old(self).spec_size(),
                pos as int,
                buf@.len() as int,
            )),
            old(self).spec_io().writes_in_bounds() && pos + slice_avail(
                old(self).spec_size(),
                pos as int,
                buf@.len() as int,
            ) <= window(
                old(self).spec_io().writable(),
                old(self).spec_offset() as int,
                old(self).spec_size(),
            ).len() ==> (r matches Ok(n) && n == slice_avail(
                old(self).spec_size(),
                pos as int,
                buf@.len() as int,
            )),
    {
        let bytes = self.avail(pos, buf.len());
        if bytes == 0 {
            return Ok(0);
        }
        if pos > u64::MAX - self.offset {
            // Out of the backend's address range: nothing can land there,
            // which mirrors how a fixed-capacity backend clamps to zero.
            proof {
                self.spec_io().writable_fits();
            }
            return Ok(0);
        }
        let inner_pos = pos + self.offset;
        let chunk = buf.split_at(bytes).0;
        let n = match self.io.write_at(inner_pos, chunk) {
            Ok(n) => n,
            Err(e) => {
                return Err(e);
            },
        };
        proof {
            self.spec_io().writable_fits();
            if n > 0 {
                assert(chunk@.take(n as int) =~= buf@.take(n as int));
                lemma_window_write(
                    old(self).spec_io().writable(),
                    self.spec_offset() as int,
                    self.spec_size(),
                    pos as int,
                    buf@.take(n as int),
                );
            }
        }
        Ok(n)
    }

    fn flush(&mut self) -> (r: Result<(), IoError>)
        ensures
            final(self).spec_offset() == old(self).spec_offset(),
            final(self).spec_size() == old(self).spec_size(),
            final(self).spec_io().writable() == old(self).spec_io().writable(),
            final(self).spec_io().writes_in_bounds() == old(self).spec_io().writes_in_bounds(),
            final(self).spec_io().auto_extends() == old(self).spec_io().auto_extends(),
            final(self).spec_io().writes_clamped() == old(self).spec_io().writes_clamped(),
    {
        self.io.flush()
    }
}

/// Writing a chunk through a window lands the same bytes as writing it to
/// the backend at the window's offset, as long as the chunk stays under
/// the window's cap.
proof fn lemma_window_write(inner: Seq<u8>, offset: int, size: Option<u64>, pos: int, chunk: Seq<
    u8,
>)
    requires
        0 <= offset,
        0 <= pos,
        chunk.len() > 0,
        size matches Some(s) ==> pos + chunk.len() <= s,
    ensures
        window(write_result(inner, offset + pos, chunk), offset, size) == write_result(
            window(inner, offset, size),
            pos,
            chunk,
        ),
{
    assert(window(write_result(inner, offset + pos, chunk), offset, size) =~= write_result(
        window(inner, offset, size),
        pos,
        chunk,
    ));
}

impl<I> Size for Slice<I> {
    open spec fn size_spec(&self) -> Option<u64> {
        self.spec_size()
    }

    open spec fn size_reliable(&self) -> bool {
        true
    }

    fn size(&self) -> (r: Result<Option<u64>, IoError>) {
        Ok(self.size)
    }
}

} // verus!
