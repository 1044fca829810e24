//! Wire framing for session datagrams: a one-byte tag, little-endian
//! 64-bit fields, and the payload bytes as the remainder. Decoding is
//! exact: it returns a datagram exactly when the bytes are the encoding
//! of one, so a malformed datagram is recognised and can be dropped
//! without tearing a session down.

use vstd::prelude::*;
use vstd::bytes::{
    lemma_auto_spec_u64_to_from_le_bytes, spec_u64_from_le_bytes, spec_u64_to_le_bytes,
    u64_from_le_bytes, u64_to_le_bytes,
};
use vstd::slice::{slice_subrange, slice_to_vec};
use vstd::string::StringSliceAdditionalSpecFns;
use vstd::utf8::{is_ascii_chars, is_ascii_chars_encode_utf8};
use crate::channel::{clone_bytes, ChannelKind};
use crate::generation::{generated_block, is_generated, lemma_flat_index_inverse, ChunkCoordinate};
use crate::session::{Datagram, DatagramModel};
use crate::storage::{BlockIdent, RawChunk, CHUNK_SIZE, CHUNK_VOLUME};

verus! {

/// The tag byte that names a datagram's variant on the wire.
pub open spec fn tag_of(d: DatagramModel) -> u8 {
    match d {
        DatagramModel::ConnectRequest { .. } => 1u8,
        DatagramModel::ConnectAccept { .. } => 2u8,
        DatagramModel::ConnectDeny { .. } => 3u8,
        DatagramModel::KeepAlive { .. } => 4u8,
        DatagramModel::Payload { channel, .. } => if channel is Reliable {
            5u8
        } else {
            6u8
        },
        DatagramModel::Ack { .. } => 7u8,
        DatagramModel::Disconnect { .. } => 8u8,
    }
}

/// The wire form of a datagram: its tag, its fixed 64-bit fields in
/// little-endian order, and, for a payload, the message bytes as the
/// remainder of the packet.
pub open spec fn spec_encode_datagram(d: DatagramModel) -> Seq<u8> {
    match d {
        DatagramModel::ConnectRequest { client_id, protocol_id } => seq![1u8]
            + spec_u64_to_le_bytes(client_id) + spec_u64_to_le_bytes(protocol_id),
        DatagramModel::ConnectAccept { client_id } => seq![2u8] + spec_u64_to_le_bytes(
            client_id,
        ),
        DatagramModel::ConnectDeny { client_id } => seq![3u8] + spec_u64_to_le_bytes(client_id),
        DatagramModel::KeepAlive { client_id } => seq![4u8] + spec_u64_to_le_bytes(client_id),
        DatagramModel::Payload { client_id, channel, seq, data } => seq![
            if channel is Reliable {
                5u8
            } else {
                6u8
            },
        ] + spec_u64_to_le_bytes(client_id) + spec_u64_to_le_bytes(seq) + data,
        DatagramModel::Ack { client_id, next_seq } => seq![7u8] + spec_u64_to_le_bytes(
            client_id,
        ) + spec_u64_to_le_bytes(next_seq),
        DatagramModel::Disconnect { client_id } => seq![8u8] + spec_u64_to_le_bytes(client_id),
    }
}

/// Shape facts about every encoding: its first byte is the tag and its
/// length is fixed by the tag (plus the payload for message datagrams).
proof fn lemma_encode_shape(d: DatagramModel)
    ensures
        spec_encode_datagram(d).len() >= 9,
        spec_encode_datagram(d)[0] == tag_of(d),
        1 <= tag_of(d) <= 8,
        (tag_of(d) == 1 || tag_of(d) == 7) ==> spec_encode_datagram(d).len() == 17,
        (tag_of(d) == 2 || tag_of(d) == 3 || tag_of(d) == 4 || tag_of(d) == 8)
            ==> spec_encode_datagram(d).len() == 9,
        (tag_of(d) == 5 || tag_of(d) == 6) ==> spec_encode_datagram(d).len() >= 17,
{
    lemma_auto_spec_u64_to_from_le_bytes();
}

/// Encodes one datagram for the wire.
pub fn encode_datagram(d: &Datagram) -> (out: Vec<u8>)
    ensures
        out@ == spec_encode_datagram(d@),
{
    proof {
        lemma_auto_spec_u64_to_from_le_bytes();
    }
    match d {
        Datagram::ConnectRequest { client_id, protocol_id } => {
            let mut out: Vec<u8> = Vec::new();
            out.push(1);
            let mut cid = u64_to_le_bytes(*client_id);
            out.append(&mut cid);
            let mut pid = u64_to_le_bytes(*protocol_id);
            out.append(&mut pid);
            proof {
                assert(out@ =~= spec_encode_datagram(d@));
            }
            out
        },
        Datagram::ConnectAccept { client_id } => {
            let mut out: Vec<u8> = Vec::new();
            out.push(2);
            let mut cid = u64_to_le_bytes(*client_id);
            out.append(&mut cid);
            proof {
                assert(out@ =~= spec_encode_datagram(d@));
            }
            out
        },
        Datagram::ConnectDeny { client_id } => {
            let mut out: Vec<u8> = Vec::new();
            out.push(3);
            let mut cid = u64_to_le_bytes(*client_id);
            out.append(&mut cid);
            proof {
                assert(out@ =~= spec_encode_datagram(d@));
            }
            out
        },
        Datagram::KeepAlive { client_id } => {
            let mut out: Vec<u8> = Vec::new();
            out.push(4);
            let mut cid = u64_to_le_bytes(*client_id);
            out.append(&mut cid);
            proof {
                assert(out@ =~= spec_encode_datagram(d@));
            }
            out
        },
        Datagram::Payload { client_id, channel, seq, data } => {
            let mut out: Vec<u8> = Vec::new();
            let tag: u8 = match channel {
                ChannelKind::Reliable => 5,
                ChannelKind::Unreliable => 6,
            };
            out.push(tag);
            let mut cid = u64_to_le_bytes(*client_id);
            out.append(&mut cid);
            let mut sq = u64_to_le_bytes(*seq);
            out.append(&mut sq);
            let mut body = clone_bytes(data);
            out.append(&mut body);
            proof {
                assert(out@ =~= spec_encode_datagram(d@));
            }
            out
        },
        Datagram::Ack { client_id, next_seq } => {
            let mut out: Vec<u8> = Vec::new();
            out.push(7);
            let mut cid = u64_to_le_bytes(*client_id);
            out.append(&mut cid);
            let mut nxt = u64_to_le_bytes(*next_seq);
            out.append(&mut nxt);
            proof {
                assert(out@ =~= spec_encode_datagram(d@));
            }
            out
        },
        Datagram::Disconnect { client_id } => {
            let mut out: Vec<u8> = Vec::new();
            out.push(8);
            let mut cid = u64_to_le_bytes(*client_id);
            out.append(&mut cid);
            proof {
                assert(out@ =~= spec_encode_datagram(d@));
            }
            out
        },
    }
}

/// Decodes one wire packet. Returns a datagram exactly when the bytes are
/// the encoding of one; anything else is malformed and yields nothing.
pub fn decode_datagram(bytes: &[u8]) -> (r: Option<Datagram>)
    ensures
        match r {
            Some(d) => bytes@ == spec_encode_datagram(d@),
            None => forall|dm: DatagramModel| bytes@ != spec_encode_datagram(dm),
        },
{
    proof {
        lemma_auto_spec_u64_to_from_le_bytes();
    }
    let n = bytes.len();
    if n < 9 {
        proof {
            assert forall|dm: DatagramModel| bytes@ != spec_encode_datagram(dm) by {
                lemma_encode_shape(dm);
            }
        }
        return None;
    }
    let tag = *vstd::slice::slice_index_get(bytes, 0);
    let client_id = u64_from_le_bytes(slice_subrange(bytes, 1, 9));
    proof {
        assert(spec_u64_to_le_bytes(client_id) == bytes@.subrange(1, 9));
    }
    let r: Option<Datagram> = if tag == 1 && n == 17 {
        let protocol_id = u64_from_le_bytes(slice_subrange(bytes, 9, 17));
        proof {
            assert(spec_u64_to_le_bytes(protocol_id) == bytes@.subrange(9, 17));
        }
        let d = Datagram::ConnectRequest { client_id, protocol_id };
        proof {
            assert(bytes@ =~= spec_encode_datagram(d@));
        }
        Some(d)
    } else if tag == 2 && n == 9 {
        let d = Datagram::ConnectAccept { client_id };
        proof {
            assert(bytes@ =~= spec_encode_datagram(d@));
        }
        Some(d)
    } else if tag == 3 && n == 9 {
        let d = Datagram::ConnectDeny { client_id };
        proof {
            assert(bytes@ =~= spec_encode_datagram(d@));
        }
        Some(d)
    } else if tag == 4 && n == 9 {
        let d = Datagram::KeepAlive { client_id };
        proof {
            assert(bytes@ =~= spec_encode_datagram(d@));
        }
        Some(d)
    } else if (tag == 5 || tag == 6) && n >= 17 {
        let seq = u64_from_le_bytes(slice_subrange(bytes, 9, 17));
        proof {
            assert(spec_u64_to_le_bytes(seq) == bytes@.subrange(9, 17));
        }
        let data = slice_to_vec(slice_subrange(bytes, 17, n));
        let channel = if tag == 5 {
            ChannelKind::Reliable
        } else {
            ChannelKind::Unreliable
        };
        let d = Datagram::Payload { client_id, channel, seq, data };
        proof {
            assert(bytes@ =~= spec_encode_datagram(d@));
        }
        Some(d)
    } else if tag == 7 && n == 17 {
        let next_seq = u64_from_le_bytes(slice_subrange(bytes, 9, 17));
        proof {
            assert(spec_u64_to_le_bytes(next_seq) == bytes@.subrange(9, 17));
        }
        let d = Datagram::Ack { client_id, next_seq };
        proof {
            assert(bytes@ =~= spec_encode_datagram(d@));
        }
        Some(d)
    } else if tag == 8 && n == 9 {
        let d = Datagram::Disconnect { client_id };
        proof {
            assert(bytes@ =~= spec_encode_datagram(d@));
        }
        Some(d)
    } else {
        proof {
            assert forall|dm: DatagramModel| bytes@ != spec_encode_datagram(dm) by {
                lemma_encode_shape(dm);
                if spec_encode_datagram(dm) == bytes@ {
                    assert(bytes@[0] == tag_of(dm));
                }
            }
        }
        None
    };
    r
}

/// The wire form is unambiguous: equal encodings name equal datagrams, so
/// decoding an encoded datagram returns exactly the datagram that was
/// sent.
pub proof fn lemma_encode_injective(d1: DatagramModel, d2: DatagramModel)
    requires
        spec_encode_datagram(d1) == spec_encode_datagram(d2),
    ensures
        d1 == d2,
{
    lemma_auto_spec_u64_to_from_le_bytes();
    lemma_encode_shape(d1);
    lemma_encode_shape(d2);
    let e = spec_encode_datagram(d1);
    assert(tag_of(d1) == e[0] && tag_of(d2) == e[0]);
    lemma_encode_fields(d1);
    lemma_encode_fields(d2);
}

/// Every 64-bit field of a datagram can be read back from its encoding.
proof fn lemma_encode_fields(d: DatagramModel)
    ensures
        match d {
            DatagramModel::ConnectRequest { client_id, protocol_id } => {
                &&& spec_u64_from_le_bytes(spec_encode_datagram(d).subrange(1, 9)) == client_id
                &&& spec_u64_from_le_bytes(spec_encode_datagram(d).subrange(9, 17))
                    == protocol_id
            },
            DatagramModel::ConnectAccept { client_id } => spec_u64_from_le_bytes(
                spec_encode_datagram(d).subrange(1, 9),
            ) == client_id,
            DatagramModel::ConnectDeny { client_id } => spec_u64_from_le_bytes(
                spec_encode_datagram(d).subrange(1, 9),
            ) == client_id,
            DatagramModel::KeepAlive { client_id } => spec_u64_from_le_bytes(
                spec_encode_datagram(d).subrange(1, 9),
            ) == client_id,
            DatagramModel::Payload { client_id, channel, seq, data } => {
                &&& spec_u64_from_le_bytes(spec_encode_datagram(d).subrange(1, 9)) == client_id
                &&& spec_u64_from_le_bytes(spec_encode_datagram(d).subrange(9, 17)) == seq
                &&& spec_encode_datagram(d).subrange(17, spec_encode_datagram(d).len() as int)
                    == data
            },
            DatagramModel::Ack { client_id, next_seq } => {
                &&& spec_u64_from_le_bytes(spec_encode_datagram(d).subrange(1, 9)) == client_id
                &&& spec_u64_from_le_bytes(spec_encode_datagram(d).subrange(9, 17)) == next_seq
            },
            DatagramModel::Disconnect { client_id } => spec_u64_from_le_bytes(
                spec_encode_datagram(d).subrange(1, 9),
            ) == client_id,
        },
{
    lemma_auto_spec_u64_to_from_le_bytes();
    match d {
        DatagramModel::ConnectRequest { client_id, protocol_id } => {
            assert(spec_encode_datagram(d).subrange(1, 9) =~= spec_u64_to_le_bytes(client_id));
            assert(spec_encode_datagram(d).subrange(9, 17) =~= spec_u64_to_le_bytes(
                protocol_id,
            ));
        },
        DatagramModel::ConnectAccept { client_id } => {
            assert(spec_encode_datagram(d).subrange(1, 9) =~= spec_u64_to_le_bytes(client_id));
        },
        DatagramModel::ConnectDeny { client_id } => {
            assert(spec_encode_datagram(d).subrange(1, 9) =~= spec_u64_to_le_bytes(client_id));
        },
        DatagramModel::KeepAlive { client_id } => {
            assert(spec_encode_datagram(d).subrange(1, 9) =~= spec_u64_to_le_bytes(client_id));
        },
        DatagramModel::Payload { client_id, channel, seq, data } => {
            assert(spec_encode_datagram(d).subrange(1, 9) =~= spec_u64_to_le_bytes(client_id));
            assert(spec_encode_datagram(d).subrange(9, 17) =~= spec_u64_to_le_bytes(seq));
            assert(spec_encode_datagram(d).subrange(
                17,
                spec_encode_datagram(d).len() as int,
            ) =~= data);
        },
        DatagramModel::Ack { client_id, next_seq } => {
            assert(spec_encode_datagram(d).subrange(1, 9) =~= spec_u64_to_le_bytes(client_id));
            assert(spec_encode_datagram(d).subrange(9, 17) =~= spec_u64_to_le_bytes(next_seq));
        },
        DatagramModel::Disconnect { client_id } => {
            assert(spec_encode_datagram(d).subrange(1, 9) =~= spec_u64_to_le_bytes(client_id));
        },
    }
}


/// A block identifier fits one wire slot: ASCII characters and a
/// canonical form of at most 255 of them.
pub open spec fn ident_fits(id: BlockIdent) -> bool {
    &&& id.canonical().len() <= 255
    &&& is_ascii_chars(id.canonical())
}

/// Wire form of one identifier: its length, then its characters as bytes.
pub open spec fn spec_encode_ident(id: BlockIdent) -> Seq<u8> {
    seq![(id.canonical().len() as u8)] + Seq::new(
        id.canonical().len(),
        |i: int| id.canonical()[i] as u8,
    )
}

/// Wire form of a whole chunk: every voxel's identifier, length-prefixed,
/// in flat table order. The bytes are a function of the chunk contents
/// alone, so equal chunks serialize identically on every machine.
pub open spec fn spec_encode_chunk(v: Seq<BlockIdent>) -> Seq<u8>
    decreases v.len(),
{
    if v.len() == 0 {
        Seq::empty()
    } else {
        spec_encode_chunk(v.drop_last()) + spec_encode_ident(v.last())
    }
}

/// Encodes a whole chunk for the wire, voxel by voxel in table order.
pub fn encode_chunk(chunk: &RawChunk) -> (out: Vec<u8>)
    requires
        chunk.wf(),
        forall|i: int| 0 <= i < chunk@.len() ==> ident_fits(#[trigger] chunk@[i]),
    ensures
        out@ == spec_encode_chunk(chunk@),
{
    let mut out: Vec<u8> = Vec::new();
    proof {
        assert(out@ =~= spec_encode_chunk(chunk@.take(0)));
    }
    let mut i: usize = 0;
    while i < CHUNK_VOLUME as usize
        invariant
            chunk.wf(),
            forall|j: int| 0 <= j < chunk@.len() ==> ident_fits(#[trigger] chunk@[j]),
            i <= CHUNK_VOLUME,
            out@ == spec_encode_chunk(chunk@.take(i as int)),
        decreases CHUNK_VOLUME - i,
    {
        proof {
            assert(chunk@.take(i as int + 1).drop_last() =~= chunk@.take(i as int));
            assert(chunk@.take(i as int + 1).last() == chunk@[i as int]);
        }
        let ident = chunk.get_block_at(i).identifier();
        let ident_str = ident.as_str();
        proof {
            is_ascii_chars_encode_utf8(ident_str@);
        }
        let bytes = ident_str.as_bytes();
        out.push(bytes.len() as u8);
        out.extend_from_slice(bytes);
        proof {
            assert(bytes@ =~= Seq::new(
                chunk@[i as int].canonical().len(),
                |k: int| chunk@[i as int].canonical()[k] as u8,
            ));
            assert(out@ =~= spec_encode_chunk(chunk@.take(i as int + 1)));
        }
        i = i + 1;
    }
    proof {
        assert(chunk@.take(chunk@.len() as int) =~= chunk@);
    }
    out
}

/// Every identifier the terrain generator writes fits the wire encoding,
/// so a generated chunk can always be serialized.
pub proof fn lemma_generated_idents_fit(
    c: RawChunk, pos: ChunkCoordinate, hm: Seq<i64>, i: int,
)
    requires
        is_generated(c, pos, hm),
        0 <= i < c@.len(),
    ensures
        ident_fits(c@[i]),
{
    lemma_flat_index_inverse(i);
    let x = i / ((CHUNK_SIZE * CHUNK_SIZE) as int);
    let y = (i % ((CHUNK_SIZE * CHUNK_SIZE) as int)) / (CHUNK_SIZE as int);
    let z = i % (CHUNK_SIZE as int);
    assert(c.spec_block(x, y, z) == generated_block(pos, hm, x, y, z));
    reveal_strlit("vinox");
    reveal_strlit("air");
    reveal_strlit("cobblestone");
    reveal_strlit("grass");
    reveal_strlit(":");
    assert(ident_fits(crate::storage::air_ident()));
    assert(ident_fits(crate::storage::cobblestone_ident()));
    assert(ident_fits(crate::storage::grass_ident()));
}

} // verus!
