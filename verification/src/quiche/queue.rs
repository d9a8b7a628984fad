//! Chunks of a stream that wait their turn.

use bytes::Bytes;
use vstd::prelude::*;

use crate::buffer::contents;

verus! {

/// The bytes of each chunk.
pub open spec fn chunks(q: Seq<Bytes>) -> Seq<Seq<u8>> {
    q.map_values(|b: Bytes| contents(b))
}

/// The bytes of all chunks, one after the other.
pub open spec fn joined(c: Seq<Seq<u8>>) -> Seq<u8>
    decreases c.len(),
{
    if c.len() == 0 {
        Seq::empty()
    } else {
        c[0] + joined(c.drop_first())
    }
}

/// A chunk at the back adds its bytes at the end.
pub proof fn lemma_joined_push(c: Seq<Seq<u8>>, chunk: Seq<u8>)
    ensures
        joined(c.push(chunk)) == joined(c) + chunk,
    decreases c.len(),
{
    if c.len() == 0 {
        assert(c.push(chunk).drop_first() =~= c);
        assert(joined(c) =~= Seq::<u8>::empty());
        assert(joined(c.push(chunk)) =~= chunk + joined(c));
        assert(joined(c) + chunk =~= chunk + joined(c));
    } else {
        lemma_joined_push(c.drop_first(), chunk);
        assert(c.push(chunk).drop_first() =~= c.drop_first().push(chunk));
        assert(joined(c.push(chunk)) =~= joined(c) + chunk);
    }
}

/// A chunk at the front adds its bytes at the start.
pub proof fn lemma_joined_front(c: Seq<Seq<u8>>, chunk: Seq<u8>)
    ensures
        joined(seq![chunk] + c) == chunk + joined(c),
{
    assert((seq![chunk] + c).drop_first() =~= c);
}

} // verus!
