//! Stream identifiers.

use vstd::prelude::*;

use super::proto::varint::{VARINT_MAX, VarInt};

verus! {

/// Whether a stream carries data both ways.
#[derive(Debug, Clone, Copy, PartialEq, Eq, Structural)]
pub enum StreamDir {
    Bi,
    Uni,
}

/// The largest index a stream can have: two of the 62 bits of an identifier say
/// who opened it and which way it goes.
pub const STREAM_INDEX_MAX: u64 = 0x0fff_ffff_ffff_ffff;

/// The identifier of a stream: bit 0 is set for server-initiated streams, bit 1
/// for unidirectional ones, and the rest is the index among those.
#[derive(Debug, Clone, Copy, PartialEq, Eq, Structural, PartialOrd, Ord, Hash)]
pub struct StreamId(pub VarInt);

/// Whether the server opened stream `id`.
pub open spec fn by_server(id: u64) -> bool {
    id % 2 == 1
}

/// The direction of stream `id`.
pub open spec fn dir_of(id: u64) -> StreamDir {
    if id / 2 % 2 == 1 {
        StreamDir::Uni
    } else {
        StreamDir::Bi
    }
}

/// The index of stream `id` among those of its kind.
pub open spec fn index_of(id: u64) -> u64 {
    id / 4
}

/// Whether an endpoint receives data on stream `id`.
pub open spec fn receivable(id: u64, is_server: bool) -> bool {
    dir_of(id) is Bi || by_server(id) != is_server
}

/// Whether an endpoint sends data on stream `id`.
pub open spec fn sendable(id: u64, is_server: bool) -> bool {
    dir_of(id) is Bi || by_server(id) == is_server
}

/// The identifier with the given index, direction and opener.
pub open spec fn make_id(index: u64, dir: StreamDir, is_server: bool) -> u64 {
    (index * 4 + (if dir is Uni {
        2int
    } else {
        0int
    }) + (if is_server {
        1int
    } else {
        0int
    })) as u64
}

impl View for StreamId {
    type V = u64;

    open spec fn view(&self) -> u64 {
        self.0@
    }
}

impl StreamId {
    /// The identifier with the given index, direction and opener.
    pub fn new(index: u64, dir: StreamDir, is_server: bool) -> (r: StreamId)
        requires
            index <= STREAM_INDEX_MAX,
        ensures
            r@ == make_id(index, dir, is_server),
    {
        let way: u64 = match dir {
            StreamDir::Uni => 2,
            StreamDir::Bi => 0,
        };
        let opener: u64 = if is_server {
            1
        } else {
            0
        };
        let id: u64 = index * 4 + way + opener;
        match VarInt::from_u64(id) {
            Ok(v) => StreamId(v),
            Err(_) => {
                assert(false);
                StreamId(VarInt::from_u32(0))
            },
        }
    }

    /// The direction.
    pub fn dir(&self) -> (r: StreamDir)
        ensures
            r == dir_of(self@),
    {
        if self.0.into_inner() / 2 % 2 == 1 {
            StreamDir::Uni
        } else {
            StreamDir::Bi
        }
    }

    /// Whether the server opened the stream.
    pub fn server_initiated(&self) -> (r: bool)
        ensures
            r == by_server(self@),
    {
        self.0.into_inner() % 2 == 1
    }

    /// The index among the streams of the same direction and opener.
    pub fn index(&self) -> (r: u64)
        ensures
            r == index_of(self@),
            r <= STREAM_INDEX_MAX,
    {
        self.0.into_inner() / 4
    }

    /// Whether an endpoint receives data on this stream.
    pub fn can_recv(&self, is_server: bool) -> (r: bool)
        ensures
            r == receivable(self@, is_server),
    {
        matches!(self.dir(), StreamDir::Bi) || self.server_initiated() != is_server
    }

    /// Whether an endpoint sends data on this stream.
    pub fn can_send(&self, is_server: bool) -> (r: bool)
        ensures
            r == sendable(self@, is_server),
    {
        matches!(self.dir(), StreamDir::Bi) || self.server_initiated() == is_server
    }
}

/// Law: an identifier tells its index, direction and opener, and no other
/// identifier tells the same.
pub proof fn lemma_id_parts(index: u64, dir: StreamDir, is_server: bool)
    requires
        index <= STREAM_INDEX_MAX,
    ensures
        make_id(index, dir, is_server) <= VARINT_MAX,
        index_of(make_id(index, dir, is_server)) == index,
        dir_of(make_id(index, dir, is_server)) == dir,
        by_server(make_id(index, dir, is_server)) == is_server,
{
}

/// Law: every identifier is the one made of its parts.
pub proof fn lemma_id_from_parts(id: u64)
    requires
        id <= VARINT_MAX,
    ensures
        make_id(index_of(id), dir_of(id), by_server(id)) == id,
        index_of(id) <= STREAM_INDEX_MAX,
{
}

/// Law: an endpoint can send or receive on every stream, and its peer does the
/// other: what one side sends on, the other receives on.
pub proof fn lemma_ends_agree(id: u64, is_server: bool)
    ensures
        sendable(id, is_server) == receivable(id, !is_server),
        sendable(id, is_server) || receivable(id, is_server),
{
}

/// Law: the two low bits of an identifier say who opened the stream and which way it
/// goes, and the rest is its index. The four kinds are 0 and 1 for streams that the
/// client and the server open both ways, and 2 and 3 for those that go one way. Only
/// its opener sends on the latter.
pub proof fn lemma_id_bits(id: u64, is_server: bool)
    ensures
        by_server(id) == (id % 4 == 1 || id % 4 == 3),
        dir_of(id) is Uni == (id % 4 == 2 || id % 4 == 3),
        dir_of(id) is Bi == (id % 4 == 0 || id % 4 == 1),
        index_of(id) == id / 4,
        id % 4 < 2 ==> sendable(id, is_server) && receivable(id, is_server),
        id % 4 == 2 ==> sendable(id, is_server) == !is_server && receivable(id, is_server)
            == is_server,
        id % 4 == 3 ==> sendable(id, is_server) == is_server && receivable(id, is_server)
            == !is_server,
{
}

/// Law: identifiers of one kind are four apart and start at the number of the kind.
pub proof fn lemma_id_numbers(index: u64)
    requires
        index <= STREAM_INDEX_MAX,
    ensures
        make_id(index, StreamDir::Bi, false) == 4 * index,
        make_id(index, StreamDir::Bi, true) == 4 * index + 1,
        make_id(index, StreamDir::Uni, false) == 4 * index + 2,
        make_id(index, StreamDir::Uni, true) == 4 * index + 3,
{
}

} // verus!
