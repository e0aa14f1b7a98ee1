//! The upload engine: how a file is cut into chunks, and what is sent for each.
//!
//! A file is announced, cut into chunks of one size picked by the file's size,
//! and each chunk is sent with its sequence number and its checksum. When all
//! chunks are through, the upload is closed with the checksum of the whole
//! file, which is taken from the file's bytes and so does not depend on where
//! the chunks were cut.

use vstd::prelude::*;
use vstd::slice::{slice_subrange, slice_to_vec};
use crate::biz::{FinishReq, SendReq};
use crate::checksum::{crc32, crc32_of};
use crate::control::ControlBlock;
use crate::error::Operation;
use crate::req::Payload;
use crate::units::{GB, KB, MB};

verus! {

/// The chunk size for a file of `size` bytes, by the five size tiers.
pub open spec fn chunk_size(size: nat) -> nat {
    if size < 16 * MB {
        128 * KB as nat
    } else if size < 64 * MB {
        512 * KB as nat
    } else if size < 128 * MB {
        2 * MB as nat
    } else if size < GB {
        8 * MB as nat
    } else {
        16 * MB as nat
    }
}

/// The chunks that `data` is cut into: each `granularity` bytes long but the
/// last, which holds what is left. Empty data has no chunk.
pub open spec fn chunks_of(data: Seq<u8>, granularity: nat) -> Seq<Seq<u8>>
    decreases data.len(),
{
    if data.len() == 0 || granularity == 0 {
        Seq::empty()
    } else if data.len() <= granularity {
        seq![data]
    } else {
        seq![data.take(granularity as int)] + chunks_of(
            data.skip(granularity as int),
            granularity,
        )
    }
}

/// A larger file never gets smaller chunks.
pub proof fn lemma_chunk_size_monotonic(smaller: nat, larger: nat)
    requires
        smaller <= larger,
    ensures
        chunk_size(smaller) <= chunk_size(larger),
{
}

/// The chunks of a file, put together in their order, are the file.
pub proof fn lemma_chunks_join(data: Seq<u8>, granularity: nat)
    requires
        granularity > 0,
    ensures
        chunks_of(data, granularity).flatten() == data,
    decreases data.len(),
{
    let chunks = chunks_of(data, granularity);
    if data.len() == 0 {
        assert(chunks.flatten() =~= data);
    } else if data.len() <= granularity {
        chunks.lemma_flatten_one_element();
    } else {
        let rest = chunks_of(data.skip(granularity as int), granularity);
        lemma_chunks_join(data.skip(granularity as int), granularity);
        assert(chunks.drop_first() =~= rest);
        assert(chunks.first() == data.take(granularity as int));
        assert(chunks.flatten() =~= data.take(granularity as int) + rest.flatten());
        assert(data.take(granularity as int) + data.skip(granularity as int) =~= data);
    }
}

/// The checksum that closes an upload is that of the file's bytes, whatever
/// chunk size the bytes were sent in.
pub proof fn lemma_whole_checksum_ignores_chunking(data: Seq<u8>, one: nat, other: nat)
    requires
        one > 0,
        other > 0,
    ensures
        crc32_of(chunks_of(data, one).flatten()) == crc32_of(data),
        crc32_of(chunks_of(data, one).flatten()) == crc32_of(chunks_of(data, other).flatten()),
{
    lemma_chunks_join(data, one);
    lemma_chunks_join(data, other);
}

/// Picks the chunk size for a file of `size` bytes.
pub fn calcu_granularity(size: usize) -> (granularity: usize)
    ensures
        granularity == chunk_size(size as nat),
        granularity > 0,
{
    if size < 16 * MB {
        return 128 * KB;
    }
    if size < 64 * MB {
        return 512 * KB;
    }
    if size < 128 * MB {
        return 2 * MB;
    }
    if size < 1 * GB {
        return 8 * MB;
    }
    16 * MB
}

/// Cuts `data` into its chunks. A chunk size of zero cuts no chunk.
pub fn split_chunks(data: &[u8], granularity: usize) -> (chunks: Vec<Vec<u8>>)
    ensures
        chunks@.len() == chunks_of(data@, granularity as nat).len(),
        forall|i: int|
            0 <= i < chunks@.len() ==> (#[trigger] chunks@[i])@ == chunks_of(
                data@,
                granularity as nat,
            )[i],
{
    let mut chunks: Vec<Vec<u8>> = Vec::new();
    if granularity == 0 {
        return chunks;
    }
    let mut position: usize = 0;
    let ghost mut done: Seq<Seq<u8>> = Seq::empty();
    proof {
        assert(data@.skip(0) =~= data@);
        assert(done + chunks_of(data@, granularity as nat) =~= chunks_of(data@, granularity as nat));
    }
    while position < data.len()
        invariant
            granularity > 0,
            position <= data@.len(),
            done.len() == chunks@.len(),
            forall|i: int| 0 <= i < chunks@.len() ==> (#[trigger] chunks@[i])@ == done[i],
            done + chunks_of(data@.skip(position as int), granularity as nat) == chunks_of(
                data@,
                granularity as nat,
            ),
        decreases data@.len() - position,
    {
        let left = data.len() - position;
        let len = if left < granularity {
            left
        } else {
            granularity
        };
        let chunk = slice_to_vec(slice_subrange(data, position, position + len));
        proof {
            let rest = data@.skip(position as int);
            let tail = chunks_of(data@.skip(position as int + len), granularity as nat);
            assert(chunk@ =~= rest.take(len as int));
            assert(rest.skip(len as int) =~= data@.skip(position as int + len));
            if rest.len() <= granularity {
                assert(rest.take(len as int) =~= rest);
                assert(tail =~= Seq::<Seq<u8>>::empty());
            }
            assert(chunks_of(rest, granularity as nat) =~= seq![chunk@] + tail);
            assert(done.push(chunk@) + tail =~= done + (seq![chunk@] + tail));
            done = done.push(chunk@);
        }
        chunks.push(chunk);
        position = position + len;
    }
    proof {
        assert(chunks_of(data@.skip(position as int), granularity as nat) =~= Seq::<
            Seq<u8>,
        >::empty());
        assert(done =~= chunks_of(data@, granularity as nat));
    }
    chunks
}

/// The request that carries the chunk numbered `block_id`, with the checksum
/// of its bytes.
pub fn chunk_payload(block: ControlBlock, file_id: u32, block_id: u64, data: Vec<u8>) -> (payload:
    Payload<SendReq>)
    ensures
        payload.method@ == Operation::Send.method_text(),
        payload.block == Some(block),
        payload.content == Some(
            SendReq { file_id, block_id, block_checksum: crc32_of(data@), block_payload: data },
        ),
{
    let block_checksum = crc32(data.as_slice());
    crate::biz::send_payload(block, file_id, block_id, block_checksum, data)
}

/// The request that closes the upload of a file whose bytes are `data`, with
/// the checksum of those bytes: the same for the same bytes, however they
/// were cut into chunks.
pub fn closing_payload(block: ControlBlock, file_id: u32, data: &[u8]) -> (payload: Payload<
    FinishReq,
>)
    ensures
        payload.method@ == Operation::Finish.method_text(),
        payload.block == Some(block),
        payload.content == Some(FinishReq { file_id, file_checksum: crc32_of(data@) }),
{
    crate::biz::finish_payload(block, file_id, crc32(data))
}

} // verus!
