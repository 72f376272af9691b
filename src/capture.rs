//! The capture side: slicing what the input callback delivers into bounded
//! chunks and handing them on without blocking.
use vstd::prelude::*;
use crate::handoff::{HandoffQueue, Offer, offer_post};

verus! {

/// Frames per chunk; a chunk holds this many samples per channel at most.
pub const FRAME_SIZE: usize = 1024;

/// How many of `available` captured samples one chunk takes.
pub open spec fn chunk_len_of(available: nat, channels: nat) -> nat {
    let cap = (FRAME_SIZE * channels) as nat;
    if available <= cap {
        available
    } else {
        cap
    }
}

/// How many of `available` captured samples one chunk takes: all of them, up
/// to `FRAME_SIZE` frames of `channels` samples.
pub fn chunk_len(available: usize, channels: u16) -> (r: usize)
    ensures
        r == chunk_len_of(available as nat, channels as nat),
        4 * r <= u32::MAX,
{
    let cap: usize = FRAME_SIZE * (channels as usize);
    if available <= cap {
        available
    } else {
        cap
    }
}

/// The chunk taken from one callback's captured samples: their first
/// `chunk_len` samples, in order.
pub fn capture_chunk(data: &[u32], channels: u16) -> (r: Vec<u32>)
    ensures
        r@ == data@.take(chunk_len_of(data@.len(), channels as nat) as int),
        4 * r@.len() <= u32::MAX,
{
    let n = chunk_len(data.len(), channels);
    let mut out: Vec<u32> = Vec::new();
    let mut i: usize = 0;
    while i < n
        invariant
            n <= data@.len(),
            i <= n,
            out@ == data@.take(i as int),
        decreases n - i,
    {
        out.push(data[i]);
        assert(out@ =~= data@.take(i + 1));
        i = i + 1;
    }
    out
}

/// Slices one callback's captured samples into a chunk and offers it to the
/// queue towards the network sender; never blocks.
pub fn capture_into(queue: &mut HandoffQueue, data: &[u32], channels: u16) -> (r: Offer)
    requires
        old(queue).wf(),
    ensures
        offer_post(
            *old(queue),
            *final(queue),
            data@.take(chunk_len_of(data@.len(), channels as nat) as int),
            r,
        ),
{
    let chunk = capture_chunk(data, channels);
    queue.offer(chunk)
}

} // verus!
