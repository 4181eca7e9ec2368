//! In-memory backends: borrowed byte slices (fixed capacity) and growable
//! byte vectors.
//!
//! A `&[u8]` or `&mut [u8]` backend clamps every access to the room that
//! remains and never extends. A `Vec<u8>` backend reads like the slice view
//! of its current contents and auto-extends on writes, zero-filling any gap
//! between its old end and the write offset.

use vstd::prelude::*;

use crate::{avail_of, write_result, IoError, ReadAt, Size, WriteAt};

verus! {

/// Copies `n` bytes from `src[src_at ..]` into `dst[dst_at ..]`.
fn copy_bytes(dst: &mut [u8], dst_at: usize, src: &[u8], src_at: usize, n: usize)
    requires
        dst_at + n <= old(dst)@.len(),
        src_at + n <= src@.len(),
    ensures
        final(dst)@.len() == old(dst)@.len(),
        forall|j: int|
            dst_at <= j < dst_at + n ==> #[trigger] final(dst)@[j] == src@[j - dst_at + src_at],
        forall|j: int|
            0 <= j < old(dst)@.len() && !(dst_at <= j < dst_at + n) ==> #[trigger] final(dst)@[j]
                == old(dst)@[j],
{
    // Pin both lengths as machine words so the index sums below are known
    // not to overflow.
    let _dst_len = dst.len();
    let _src_len = src.len();
    let mut k: usize = 0;
    while k < n
        invariant
            k <= n,
            dst_at + n <= dst@.len(),
            src_at + n <= src@.len(),
            dst@.len() == old(dst)@.len(),
            dst@.len() <= usize::MAX,
            src@.len() <= usize::MAX,
            forall|j: int|
                dst_at <= j < dst_at + k ==> #[trigger] dst@[j] == src@[j - dst_at + src_at],
            forall|j: int|
                0 <= j < old(dst)@.len() && !(dst_at <= j < dst_at + k) ==> #[trigger] dst@[j]
                    == old(dst)@[j],
        decreases n - k,
    {
        dst[dst_at + k] = src[src_at + k];
        k += 1;
    }
}

/// Reads from the byte slice `data` with clamp-at-the-end semantics; the
/// shared body of the borrowed-slice and vector backends.
fn slice_read_at(data: &[u8], pos: u64, buf: &mut [u8]) -> (r: usize)
    ensures
        final(buf)@.len() == old(buf)@.len(),
        r == avail_of(data@.len() as int, pos as int, old(buf)@.len() as int),
        forall|i: int| 0 <= i < r ==> #[trigger] final(buf)@[i] == data@[pos + i],
        forall|i: int| r <= i < old(buf)@.len() ==> #[trigger] final(buf)@[i] == old(buf)@[i],
{
    if pos >= data.len() as u64 {
        return 0;
    }
    let p = pos as usize;
    let n = if buf.len() <= data.len() - p {
        buf.len()
    } else {
        data.len() - p
    };
    copy_bytes(buf, 0, data, p, n);
    n
}

impl ReadAt for &[u8] {
    open spec fn readable(&self) -> Seq<u8> {
        self@
    }

    open spec fn reads_exactly(&self) -> bool {
        true
    }

    proof fn readable_fits(&self) {
        let len: usize = vstd::slice::spec_slice_len(*self);
        assert(len == self@.len());
    }

    fn read_at(&self, pos: u64, buf: &mut [u8]) -> (r: Result<usize, IoError>) {
        Ok(slice_read_at(self, pos, buf))
    }
}

impl Size for &[u8] {
    open spec fn size_spec(&self) -> Option<u64> {
        Some(self@.len() as u64)
    }

    open spec fn size_reliable(&self) -> bool {
        true
    }

    fn size(&self) -> (r: Result<Option<u64>, IoError>) {
        Ok(Some(self.len() as u64))
    }
}

impl ReadAt for &mut [u8] {
    open spec fn readable(&self) -> Seq<u8> {
        self@
    }

    open spec fn reads_exactly(&self) -> bool {
        true
    }

    proof fn readable_fits(&self) {
        let len: usize = vstd::slice::spec_slice_len(*self);
        assert(len == self@.len());
    }

    fn read_at(&self, pos: u64, buf: &mut [u8]) -> (r: Result<usize, IoError>) {
        Ok(slice_read_at(self, pos, buf))
    }
}

impl WriteAt for &mut [u8] {
    open spec fn writable(&self) -> Seq<u8> {
        self@
    }

    open spec fn writes_in_bounds(&self) -> bool {
        true
    }

    open spec fn auto_extends(&self) -> bool {
        false
    }

    open spec fn writes_clamped(&self) -> bool {
        true
    }

    proof fn writable_fits(&self) {
        let len: usize = vstd::slice::spec_slice_len(*self);
        assert(len == self@.len());
    }

    fn write_at(&mut self, pos: u64, buf: &[u8]) -> (r: Result<usize, IoError>)
        ensures
            r matches Ok(n) && n == avail_of(
                old(self)@.len() as int,
                pos as int,
                buf@.len() as int,
            ),
    {
        if pos >= self.len() as u64 {
            return Ok(0);
        }
        let p = pos as usize;
        let n = if buf.len() <= self.len() - p {
            buf.len()
        } else {
            self.len() - p
        };
        copy_bytes(self, p, buf, 0, n);
        proof {
            if n > 0 {
                assert(self@ =~= write_result(old(self)@, pos as int, buf@.take(n as int)));
            }
        }
        Ok(n)
    }

    fn flush(&mut self) -> (r: Result<(), IoError>)
        ensures
            r == Ok::<(), IoError>(()),
    {
        Ok(())
    }
}

impl Size for &mut [u8] {
    open spec fn size_spec(&self) -> Option<u64> {
        Some(self@.len() as u64)
    }

    open spec fn size_reliable(&self) -> bool {
        true
    }

    fn size(&self) -> (r: Result<Option<u64>, IoError>) {
        Ok(Some(self.len() as u64))
    }
}

impl ReadAt for Vec<u8> {
    open spec fn readable(&self) -> Seq<u8> {
        self@
    }

    open spec fn reads_exactly(&self) -> bool {
        true
    }

    proof fn readable_fits(&self) {
        let len: usize = vstd::std_specs::vec::spec_vec_len(self);
        assert(len == self@.len());
    }

    fn read_at(&self, pos: u64, buf: &mut [u8]) -> (r: Result<usize, IoError>) {
        Ok(slice_read_at(self.as_slice(), pos, buf))
    }
}

impl WriteAt for Vec<u8> {
    open spec fn writable(&self) -> Seq<u8> {
        self@
    }

    open spec fn writes_in_bounds(&self) -> bool {
        true
    }

    open spec fn auto_extends(&self) -> bool {
        true
    }

    open spec fn writes_clamped(&self) -> bool {
        false
    }

    proof fn writable_fits(&self) {
        let len: usize = vstd::std_specs::vec::spec_vec_len(self);
        assert(len == self@.len());
    }

    fn write_at(&mut self, pos: u64, buf: &[u8]) -> (r: Result<usize, IoError>)
        ensures
            pos <= usize::MAX ==> (r matches Ok(n) && n == buf@.len() && final(self)@
                == write_result(old(self)@, pos as int, buf@)),
            pos > usize::MAX ==> r == Err::<usize, IoError>(IoError::InvalidInput) && final(self)@ == old(self)@,
    {
        if pos > usize::MAX as u64 {
            proof {
                let len: usize = vstd::std_specs::vec::spec_vec_len(self);
                assert(len == self@.len());
            }
            return Err(IoError::InvalidInput);
        }
        let p = pos as usize;
        // Zero-fill up to the write offset when it lies beyond the end.
        if p >= self.len() {
            self.resize(p, 0);
        }
        // Overwrite whatever fits into existing space.
        let room = self.len() - p;
        let avail = if room <= buf.len() {
            room
        } else {
            buf.len()
        };
        if avail > 0 {
            copy_bytes(self.as_mut_slice(), p, buf, 0, avail);
        }
        // Append whatever is left over.
        if avail < buf.len() {
            let tail = buf.split_at(avail).1;
            self.extend_from_slice(tail);
        }
        proof {
            if buf@.len() > 0 {
                assert(self@ =~= write_result(old(self)@, pos as int, buf@.take(buf@.len() as int)));
                assert(buf@.take(buf@.len() as int) =~= buf@);
            } else {
                assert(buf@ =~= Seq::<u8>::empty());
                assert(self@ =~= write_result(old(self)@, pos as int, Seq::empty()));
            }
        }
        Ok(buf.len())
    }

    fn flush(&mut self) -> (r: Result<(), IoError>)
        ensures
            r == Ok::<(), IoError>(()),
    {
        Ok(())
    }
}

impl Size for Vec<u8> {
    open spec fn size_spec(&self) -> Option<u64> {
        Some(self@.len() as u64)
    }

    open spec fn size_reliable(&self) -> bool {
        true
    }

    fn size(&self) -> (r: Result<Option<u64>, IoError>) {
        Ok(Some(self.len() as u64))
    }
}

} // verus!
