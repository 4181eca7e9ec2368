//! The laws that tie the write model to the read model: what a completed
//! write leaves behind, and what a subsequent exact read gives back.

use vstd::prelude::*;

use crate::write_result;

verus! {

/// Exact fill round-trip: after a write of `s` at offset `pos` lands in
/// full — which is what `write_all_at` guarantees whenever the write fits
/// the backend, and what a growable backend guarantees always — reading
/// `s.len()` bytes back at `pos` yields exactly `s`. Together with the
/// contracts of `write_all_at` and `read_exact_at`, which state their
/// effects over `write_result` and `subrange` of the same byte sequence,
/// this gives the round trip on every backend whose reads and writes act
/// on the same bytes.
pub proof fn lemma_exact_fill_round_trip(data: Seq<u8>, pos: int, s: Seq<u8>)
    requires
        0 <= pos,
    ensures
        write_result(data, pos, s).subrange(pos, pos + s.len()) == s,
{
    assert(write_result(data, pos, s).subrange(pos, pos + s.len()) =~= s);
}

/// Auto-extension: writing `s` at an offset `pos` at or beyond the end of
/// a backend holding `data` leaves a backend of length `pos + s.len()`
/// whose old bytes are kept, whose gap up to `pos` is all zeroes, and
/// where `s` itself sits at `pos`. This is the shape `write_at` on a
/// growable backend guarantees through `write_result`.
pub proof fn lemma_auto_extension(data: Seq<u8>, pos: int, s: Seq<u8>)
    requires
        data.len() <= pos,
    ensures
        write_result(data, pos, s).len() == pos + s.len(),
        forall|i: int| 0 <= i < data.len() ==> #[trigger] write_result(data, pos, s)[i] == data[i],
        forall|i: int| data.len() <= i < pos ==> #[trigger] write_result(data, pos, s)[i] == 0,
        forall|i: int|
            0 <= i < s.len() ==> #[trigger] write_result(data, pos, s)[pos + i] == s[i],
{
}

} // verus!
