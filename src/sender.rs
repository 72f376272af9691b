//! The sending side: turning queued chunks into frames, one at a time and in
//! the order they were queued.
use vstd::prelude::*;
use crate::codec::{FrameError, encode_chunk, frame_bytes};
use crate::handoff::HandoffQueue;

verus! {

/// Takes the oldest queued chunk, if any, and encodes it stamped with
/// `now_ms`, the sender's wall-clock time in milliseconds.
pub fn next_frame(queue: &mut HandoffQueue, now_ms: u64) -> (r: Option<
    Result<Vec<u8>, FrameError>,
>)
    requires
        old(queue).wf(),
    ensures
        final(queue).wf(),
        final(queue).spec_capacity() == old(queue).spec_capacity(),
        final(queue).spec_policy() == old(queue).spec_policy(),
        old(queue).contents().len() == 0 <==> r is None,
        old(queue).contents().len() == 0 ==> final(queue).contents() == old(queue).contents(),
        old(queue).contents().len() > 0 ==> {
            let c = old(queue).contents()[0];
            &&& final(queue).contents() == old(queue).contents().drop_first()
            &&& 4 * c.len() <= u32::MAX ==> (r matches Some(Ok(b)) && b@ == frame_bytes(c, now_ms))
            &&& 4 * c.len() > u32::MAX ==> r == Some(
                Err::<Vec<u8>, FrameError>(FrameError::PayloadTooLarge),
            )
        },
{
    match queue.take() {
        None => None,
        Some(chunk) => Some(encode_chunk(&chunk, now_ms)),
    }
}

} // verus!
