//! The jitter buffer: an ordered backlog of samples that is refilled from the
//! handoff queue and drained one sample per output slot, with silence on
//! underrun.
use std::collections::VecDeque;
use vstd::prelude::*;
use crate::handoff::HandoffQueue;

verus! {

/// The bit pattern of the silent sample, `0.0`.
pub const SILENCE: u32 = 0;

/// All samples of `chunks`, in order.
pub open spec fn flatten(chunks: Seq<Seq<u32>>) -> Seq<u32>
    decreases chunks.len(),
{
    if chunks.len() == 0 {
        Seq::empty()
    } else {
        flatten(chunks.drop_last()) + chunks.last()
    }
}

/// The `n` samples played from backlog `buf`: the backlog's head, then
/// silence once it runs out.
pub open spec fn playback_output(buf: Seq<u32>, n: nat) -> Seq<u32> {
    Seq::new(n, |i: int| if i < buf.len() { buf[i] } else { SILENCE })
}

/// The backlog left after `n` samples were played from `buf`.
pub open spec fn playback_rest(buf: Seq<u32>, n: nat) -> Seq<u32> {
    if n >= buf.len() {
        Seq::empty()
    } else {
        buf.subrange(n as int, buf.len() as int)
    }
}

/// The number of samples that output periods of sizes `periods` request.
pub open spec fn total(periods: Seq<nat>) -> nat
    decreases periods.len(),
{
    if periods.len() == 0 {
        0
    } else {
        periods[0] + total(periods.drop_first())
    }
}

/// Everything played from backlog `buf` over output periods of the given
/// sizes, one after the other.
pub open spec fn play_periods(buf: Seq<u32>, periods: Seq<nat>) -> Seq<u32>
    decreases periods.len(),
{
    if periods.len() == 0 {
        Seq::empty()
    } else {
        playback_output(buf, periods[0]) + play_periods(
            playback_rest(buf, periods[0]),
            periods.drop_first(),
        )
    }
}

/// Samples awaiting playback, oldest first. The buffer itself never drops a
/// sample; a caller that wants to bound the backlog under sustained
/// oversupply does so explicitly with `drop_oldest_beyond`.
pub struct JitterBuffer {
    samples: VecDeque<u32>,
}

impl View for JitterBuffer {
    type V = Seq<u32>;

    closed spec fn view(&self) -> Seq<u32> {
        self.samples@
    }
}

impl JitterBuffer {
    /// An empty buffer.
    pub fn new() -> (r: JitterBuffer)
        ensures
            r@ == Seq::<u32>::empty(),
    {
        JitterBuffer { samples: VecDeque::new() }
    }

    /// The number of samples awaiting playback.
    pub fn len(&self) -> (r: usize)
        ensures
            r == self@.len(),
    {
        self.samples.len()
    }

    /// Whether no sample awaits playback.
    pub fn is_empty(&self) -> (r: bool)
        ensures
            r == (self@.len() == 0),
    {
        self.samples.len() == 0
    }

    /// Appends a chunk's samples to the tail, in order.
    pub fn push_chunk(&mut self, chunk: &[u32])
        ensures
            final(self)@ == old(self)@ + chunk@,
    {
        let n: usize = chunk.len();
        let mut i: usize = 0;
        while i < n
            invariant
                n == chunk@.len(),
                i <= n,
                self@ == old(self)@ + chunk@.take(i as int),
            decreases n - i,
        {
            self.samples.push_back(chunk[i]);
            assert(self@ =~= old(self)@ + chunk@.take(i + 1));
            i = i + 1;
        }
        assert(chunk@.take(n as int) =~= chunk@);
    }

    /// Moves every chunk queued in `queue` to the tail, in arrival order,
    /// leaving the queue empty.
    pub fn refill_from(&mut self, queue: &mut HandoffQueue)
        requires
            old(queue).wf(),
        ensures
            final(queue).wf(),
            final(queue).contents() == Seq::<Seq<u32>>::empty(),
            final(queue).spec_capacity() == old(queue).spec_capacity(),
            final(queue).spec_policy() == old(queue).spec_policy(),
            final(self)@ == old(self)@ + flatten(old(queue).contents()),
    {
        let ghost all = old(queue).contents();
        let ghost mut taken: int = 0;
        loop
            invariant
                queue.wf(),
                queue.spec_capacity() == old(queue).spec_capacity(),
                queue.spec_policy() == old(queue).spec_policy(),
                0 <= taken <= all.len(),
                queue.contents() == all.subrange(taken, all.len() as int),
                self@ == old(self)@ + flatten(all.take(taken)),
            ensures
                queue.contents().len() == 0,
                self@ == old(self)@ + flatten(all),
            decreases queue.contents().len(),
        {
            match queue.take() {
                None => {
                    assert(all.take(taken) =~= all);
                    break ;
                },
                Some(chunk) => {
                    self.push_chunk(&chunk);
                    proof {
                        assert(all.take(taken + 1).drop_last() =~= all.take(taken));
                        assert(all.take(taken + 1).last() == all[taken]);
                        taken = taken + 1;
                    }
                },
            }
        }
        assert(queue.contents() =~= Seq::<Seq<u32>>::empty());
    }

    /// Bounds the backlog: drops the oldest samples until at most `max`
    /// remain, and returns how many were dropped. What stays keeps its order.
    pub fn drop_oldest_beyond(&mut self, max: usize) -> (r: usize)
        ensures
            old(self)@.len() <= max ==> r == 0 && final(self)@ == old(self)@,
            old(self)@.len() > max ==> r == old(self)@.len() - max && final(self)@ == old(
                self,
            )@.subrange(old(self)@.len() - max, old(self)@.len() as int),
    {
        let n0: usize = self.samples.len();
        let mut dropped: usize = 0;
        while self.samples.len() > max
            invariant
                n0 == old(self)@.len(),
                n0 <= max ==> dropped == 0,
                n0 > max ==> dropped <= n0 - max,
                self@ == old(self)@.subrange(dropped as int, old(self)@.len() as int),
            decreases self@.len(),
        {
            let _ = self.samples.pop_front();
            dropped = dropped + 1;
        }
        dropped
    }

    /// The next sample to play: the head of the backlog, or silence when it
    /// is empty.
    pub fn next_sample(&mut self) -> (r: u32)
        ensures
            r == playback_output(old(self)@, 1)[0],
            final(self)@ == playback_rest(old(self)@, 1),
    {
        match self.samples.pop_front() {
            Some(x) => x,
            None => SILENCE,
        }
    }

    /// Fills every slot of `out` in order from the head of the backlog, and
    /// with silence once the backlog runs out.
    pub fn fill_output(&mut self, out: &mut [u32])
        ensures
            final(out)@ == playback_output(old(self)@, old(out)@.len()),
            final(self)@ == playback_rest(old(self)@, old(out)@.len()),
    {
        let ghost buf = old(self)@;
        let n: usize = out.len();
        let mut i: usize = 0;
        while i < n
            invariant
                n == out@.len(),
                n == old(out)@.len(),
                i <= n,
                out@.take(i as int) == playback_output(buf, i as nat),
                self@ == playback_rest(buf, i as nat),
            decreases n - i,
        {
            proof {
                if i < buf.len() {
                    assert(playback_rest(buf, i as nat)[0] == buf[i as int]);
                }
            }
            let x = self.next_sample();
            let ghost before = out@;
            out[i] = x;
            assert(out@ == before.update(i as int, x));
            assert(x == playback_output(buf, (i + 1) as nat)[i as int]);
            assert forall|j: int| 0 <= j < i implies out@[j] == playback_output(buf, (i + 1) as nat)[j] by {
                assert(before.take(i as int)[j] == playback_output(buf, i as nat)[j]);
            }
            assert(out@.take(i + 1) =~= playback_output(buf, (i + 1) as nat));
            assert(self@ =~= playback_rest(buf, (i + 1) as nat));
            i = i + 1;
        }
        assert(out@.take(n as int) =~= out@);
    }
}

proof fn lemma_output_split(buf: Seq<u32>, a: nat, m: nat)
    ensures
        playback_output(buf, a) + playback_output(playback_rest(buf, a), m) == playback_output(
            buf,
            a + m,
        ),
{
    let lhs = playback_output(buf, a) + playback_output(playback_rest(buf, a), m);
    let rhs = playback_output(buf, a + m);
    assert forall|i: int| 0 <= i < a + m implies lhs[i] == rhs[i] by {
        if i >= a && a < buf.len() && i < buf.len() {
            assert(playback_rest(buf, a)[i - a] == buf[i]);
        }
    }
    assert(lhs =~= rhs);
}

/// Draining over any number of output periods plays exactly what a single
/// period of the same total size would: the backlog in order, then silence.
pub proof fn lemma_periods_concatenate(buf: Seq<u32>, periods: Seq<nat>)
    ensures
        play_periods(buf, periods) == playback_output(buf, total(periods)),
    decreases periods.len(),
{
    if periods.len() == 0 {
        assert(playback_output(buf, 0) =~= Seq::<u32>::empty());
    } else {
        lemma_periods_concatenate(playback_rest(buf, periods[0]), periods.drop_first());
        lemma_output_split(buf, periods[0], total(periods.drop_first()));
    }
}

/// Chunks queued in order are played as their exact concatenation, however
/// many output periods the drain is spread across, as long as the periods
/// ask for no more samples than the chunks hold.
pub proof fn lemma_playback_order(chunks: Seq<Seq<u32>>, periods: Seq<nat>)
    requires
        total(periods) <= flatten(chunks).len(),
    ensures
        play_periods(flatten(chunks), periods) == flatten(chunks).take(total(periods) as int),
{
    lemma_periods_concatenate(flatten(chunks), periods);
    assert(playback_output(flatten(chunks), total(periods)) =~= flatten(chunks).take(
        total(periods) as int,
    ));
}

/// From an empty backlog every one of `n` requested samples is silence, and
/// the backlog stays empty.
pub proof fn lemma_underrun_silence(n: nat)
    ensures
        playback_output(Seq::empty(), n) == Seq::new(n, |i: int| SILENCE),
        playback_rest(Seq::empty(), n) == Seq::<u32>::empty(),
{
    assert(playback_output(Seq::empty(), n) =~= Seq::new(n, |i: int| SILENCE));
}

} // verus!
