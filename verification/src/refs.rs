//! Forwarding implementations: a borrowed reference, a mutable borrowed
//! reference, a heap-owned box, or a reference-counted handle of a backend
//! satisfies the capability traits by delegating every operation unchanged
//! to the wrapped value. The reference-counted handle forwards the
//! read-only capabilities, so several readers can share one backend.

use std::sync::Arc;

use vstd::prelude::*;

use crate::{IoError, ReadAt, Size, WriteAt};

verus! {

impl<R: ReadAt> ReadAt for &R {
    open spec fn readable(&self) -> Seq<u8> {
        (**self).readable()
    }

    open spec fn reads_exactly(&self) -> bool {
        (**self).reads_exactly()
    }

    proof fn readable_fits(&self) {
        (**self).readable_fits();
    }

    fn read_at(&self, pos: u64, buf: &mut [u8]) -> (r: Result<usize, IoError>) {
        (**self).read_at(pos, buf)
    }
}

impl<R: ReadAt> ReadAt for &mut R {
    open spec fn readable(&self) -> Seq<u8> {
        (**self).readable()
    }

    open spec fn reads_exactly(&self) -> bool {
        (**self).reads_exactly()
    }

    proof fn readable_fits(&self) {
        (**self).readable_fits();
    }

    fn read_at(&self, pos: u64, buf: &mut [u8]) -> (r: Result<usize, IoError>) {
        (**self).read_at(pos, buf)
    }
}

impl<W: WriteAt> WriteAt for &mut W {
    open spec fn writable(&self) -> Seq<u8> {
        (**self).writable()
    }

    open spec fn writes_in_bounds(&self) -> bool {
        (**self).writes_in_bounds()
    }

    open spec fn auto_extends(&self) -> bool {
        (**self).auto_extends()
    }

    open spec fn writes_clamped(&self) -> bool {
        (**self).writes_clamped()
    }

    proof fn writable_fits(&self) {
        (**self).writable_fits();
    }

    fn write_at(&mut self, pos: u64, buf: &[u8]) -> (r: Result<usize, IoError>) {
        (**self).write_at(pos, buf)
    }

    fn flush(&mut self) -> (r: Result<(), IoError>) {
        (**self).flush()
    }
}

impl<S: Size> Size for &S {
    open spec fn size_spec(&self) -> Option<u64> {
        (**self).size_spec()
    }

    open spec fn size_reliable(&self) -> bool {
        (**self).size_reliable()
    }

    fn size(&self) -> (r: Result<Option<u64>, IoError>) {
        (**self).size()
    }
}

impl<S: Size> Size for &mut S {
    open spec fn size_spec(&self) -> Option<u64> {
        (**self).size_spec()
    }

    open spec fn size_reliable(&self) -> bool {
        (**self).size_reliable()
    }

    fn size(&self) -> (r: Result<Option<u64>, IoError>) {
        (**self).size()
    }
}

impl<R: ReadAt> ReadAt for Box<R> {
    open spec fn readable(&self) -> Seq<u8> {
        (**self).readable()
    }

    open spec fn reads_exactly(&self) -> bool {
        (**self).reads_exactly()
    }

    proof fn readable_fits(&self) {
        (**self).readable_fits();
    }

    fn read_at(&self, pos: u64, buf: &mut [u8]) -> (r: Result<usize, IoError>) {
        (**self).read_at(pos, buf)
    }
}

impl<W: WriteAt> WriteAt for Box<W> {
    open spec fn writable(&self) -> Seq<u8> {
        (**self).writable()
    }

    open spec fn writes_in_bounds(&self) -> bool {
        (**self).writes_in_bounds()
    }

    open spec fn auto_extends(&self) -> bool {
        (**self).auto_extends()
    }

    open spec fn writes_clamped(&self) -> bool {
        (**self).writes_clamped()
    }

    proof fn writable_fits(&self) {
        (**self).writable_fits();
    }

    fn write_at(&mut self, pos: u64, buf: &[u8]) -> (r: Result<usize, IoError>) {
        (**self).write_at(pos, buf)
    }

    fn flush(&mut self) -> (r: Result<(), IoError>) {
        (**self).flush()
    }
}

impl<S: Size> Size for Box<S> {
    open spec fn size_spec(&self) -> Option<u64> {
        (**self).size_spec()
    }

    open spec fn size_reliable(&self) -> bool {
        (**self).size_reliable()
    }

    fn size(&self) -> (r: Result<Option<u64>, IoError>) {
        (**self).size()
    }
}

impl<R: ReadAt> ReadAt for Arc<R> {
    open spec fn readable(&self) -> Seq<u8> {
        (**self).readable()
    }

    open spec fn reads_exactly(&self) -> bool {
        (**self).reads_exactly()
    }

    proof fn readable_fits(&self) {
        (**self).readable_fits();
    }

    fn read_at(&self, pos: u64, buf: &mut [u8]) -> (r: Result<usize, IoError>) {
        (**self).read_at(pos, buf)
    }
}

impl<S: Size> Size for Arc<S> {
    open spec fn size_spec(&self) -> Option<u64> {
        (**self).size_spec()
    }

    open spec fn size_reliable(&self) -> bool {
        (**self).size_reliable()
    }

    fn size(&self) -> (r: Result<Option<u64>, IoError>) {
        (**self).size()
    }
}

} // verus!
