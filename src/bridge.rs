use vstd::prelude::*;
use std::collections::VecDeque;

verus! {

/// The hand-off between the capture thread and the consumer task: the
/// queued samples, whether capture has shut down, and whether the consumer
/// is parked waiting to be woken.
pub struct SampleBridge {
    queue: VecDeque<i16>,
    shutdown: bool,
    waiting: bool,
}

pub struct BridgeView {
    pub queue: Seq<i16>,
    pub shutdown: bool,
    pub waiting: bool,
}

/// Result of one poll by the consumer.
#[derive(Clone, Copy, Debug, PartialEq, Eq, Structural)]
pub enum PollResult {
    /// The oldest queued sample.
    Ready(i16),
    /// Nothing queued yet; the consumer is now registered to be woken.
    Pending,
    /// Capture has shut down and everything queued has been delivered.
    Finished,
}

impl View for SampleBridge {
    type V = BridgeView;

    closed spec fn view(&self) -> BridgeView {
        BridgeView { queue: self.queue@, shutdown: self.shutdown, waiting: self.waiting }
    }
}

impl SampleBridge {
    pub fn new() -> (r: SampleBridge)
        ensures
            r@.queue == Seq::<i16>::empty(),
            !r@.shutdown,
            !r@.waiting,
    {
        SampleBridge { queue: VecDeque::new(), shutdown: false, waiting: false }
    }

    /// Producer side: appends a hardware batch behind what is queued and
    /// claims the consumer's wake-up registration; the result says whether
    /// the consumer has to be woken.
    pub fn push_batch(&mut self, batch: &[i16]) -> (wake: bool)
        ensures
            final(self)@.queue == old(self)@.queue + batch@,
            final(self)@.shutdown == old(self)@.shutdown,
            !final(self)@.waiting,
            wake == old(self)@.waiting,
    {
        let mut i: usize = 0;
        while i < batch.len()
            invariant
                i <= batch@.len(),
                self.queue@ == old(self).queue@ + batch@.subrange(0, i as int),
                self.shutdown == old(self).shutdown,
                self.waiting == old(self).waiting,
            decreases batch@.len() - i,
        {
            self.queue.push_back(batch[i]);
            assert(self.queue@ =~= old(self).queue@ + batch@.subrange(0, i + 1));
            i = i + 1;
        }
        assert(batch@.subrange(0, batch@.len() as int) =~= batch@);
        let wake = self.waiting;
        self.waiting = false;
        wake
    }

    /// Consumer side: the oldest sample if any; else the end of the stream
    /// once capture has shut down; else registers to be woken.
    pub fn poll_next(&mut self) -> (r: PollResult)
        ensures
            old(self)@.queue.len() > 0 ==> r == PollResult::Ready(old(self)@.queue[0])
                && final(self)@ == (BridgeView { queue: old(self)@.queue.drop_first(), ..old(self)@ }),
            old(self)@.queue.len() == 0 && old(self)@.shutdown ==> r == PollResult::Finished
                && final(self)@ == old(self)@,
            old(self)@.queue.len() == 0 && !old(self)@.shutdown ==> r == PollResult::Pending
                && final(self)@ == (BridgeView { waiting: true, ..old(self)@ }),
    {
        match self.queue.pop_front() {
            Some(sample) => PollResult::Ready(sample),
            None => {
                if self.shutdown {
                    PollResult::Finished
                } else {
                    self.waiting = true;
                    PollResult::Pending
                }
            },
        }
    }

    /// Teardown: marks the stream shut down and claims the consumer's
    /// registration so it can be woken to observe the end.
    pub fn shut_down(&mut self) -> (wake: bool)
        ensures
            final(self)@ == (BridgeView { shutdown: true, waiting: false, ..old(self)@ }),
            wake == old(self)@.waiting,
    {
        self.shutdown = true;
        let wake = self.waiting;
        self.waiting = false;
        wake
    }

    /// Whether capture has shut down (the capture loop exits on this).
    pub fn is_shut_down(&self) -> (r: bool)
        ensures
            r == self@.shutdown,
    {
        self.shutdown
    }
}

/// Sum of the first `n` samples of frame `k` of an interleaved buffer.
pub open spec fn frame_sum(interleaved: Seq<i16>, channels: int, k: int, n: int) -> int
    decreases n,
{
    if n <= 0 {
        0
    } else {
        frame_sum(interleaved, channels, k, n - 1) + interleaved[k * channels + n - 1] as int
    }
}

/// Mono mix of interleaved frames: each output sample is the mean of its
/// frame's channels, rounded down. A trailing partial frame is dropped.
pub open spec fn downmix(interleaved: Seq<i16>, channels: int) -> Seq<i16> {
    Seq::new(
        (interleaved.len() as int / channels) as nat,
        |k: int| (frame_sum(interleaved, channels, k, channels) / channels) as i16,
    )
}

proof fn lemma_frame_sum_bounds(interleaved: Seq<i16>, channels: int, k: int, n: int)
    requires
        0 <= k,
        0 <= n <= channels,
        (k + 1) * channels <= interleaved.len(),
    ensures
        -32768 * n <= frame_sum(interleaved, channels, k, n) <= 32767 * n,
    decreases n,
{
    if n > 0 {
        lemma_frame_sum_bounds(interleaved, channels, k, n - 1);
        assert(k * channels + n - 1 < interleaved.len()) by (nonlinear_arith)
            requires
                (k + 1) * channels <= interleaved.len(),
                n <= channels,
                n > 0,
        ;
    }
}

/// Mixes interleaved multi-channel samples down to mono by averaging each frame.
pub fn downmix_to_mono(interleaved: &[i16], channels: u16) -> (r: Vec<i16>)
    requires
        channels >= 1,
    ensures
        r@ == downmix(interleaved@, channels as int),
{
    let ch = channels as usize;
    let total = interleaved.len();
    let frames = total / ch;
    let mut out: Vec<i16> = Vec::new();
    let mut k: usize = 0;
    while k < frames
        invariant
            ch == channels as int,
            ch >= 1,
            total == interleaved@.len(),
            frames == interleaved@.len() as int / (ch as int),
            k <= frames,
            out@ =~= downmix(interleaved@, ch as int).subrange(0, k as int),
        decreases frames - k,
    {
        assert((k + 1) * ch <= interleaved@.len()) by (nonlinear_arith)
            requires
                k < frames,
                frames == interleaved@.len() as int / (ch as int),
                ch >= 1,
        ;
        assert(k * ch <= (k + 1) * ch) by (nonlinear_arith);
        let base = k * ch;
        let mut sum: i64 = 0;
        let mut c: usize = 0;
        while c < ch
            invariant
                ch == channels as int,
                ch >= 1,
                (k + 1) * ch <= interleaved@.len(),
                total == interleaved@.len(),
                base == k * ch,
                c <= ch,
                sum == frame_sum(interleaved@, ch as int, k as int, c as int),
            decreases ch - c,
        {
            proof {
                lemma_frame_sum_bounds(interleaved@, ch as int, k as int, c as int);
            }
            assert(c <= 65535);
            assert(base + c < interleaved@.len()) by (nonlinear_arith)
                requires
                    (k + 1) * ch <= interleaved@.len(),
                    base == k * ch,
                    c < ch,
            ;
            sum = sum + interleaved[base + c] as i64;
            c = c + 1;
        }
        proof {
            lemma_frame_sum_bounds(interleaved@, ch as int, k as int, ch as int);
        }
        let offset: i64 = 32768 * (ch as i64);
        let shifted: u64 = (sum + offset) as u64;
        let mean: i64 = (shifted / (ch as u64)) as i64 - 32768;
        assert(mean == (sum as int) / (ch as int)) by (nonlinear_arith)
            requires
                shifted == sum + 32768 * ch,
                sum + 32768 * ch >= 0,
                mean == (shifted as int) / (ch as int) - 32768,
                ch >= 1,
        ;
        assert(-32768 <= mean <= 32767) by (nonlinear_arith)
            requires
                mean == (sum as int) / (ch as int),
                -32768 * ch <= sum <= 32767 * ch,
                ch >= 1,
        ;
        out.push(mean as i16);
        k = k + 1;
    }
    out
}

/// One captured packet as mono samples: a packet flagged silent stands for
/// `frames` zero samples, so timing stays intact; otherwise the frames are
/// mixed down.
pub fn packet_to_mono(silent: bool, frames: usize, interleaved: &[i16], channels: u16) -> (r: Vec<
    i16,
>)
    requires
        channels >= 1,
    ensures
        silent ==> r@ == Seq::new(frames as nat, |i: int| 0i16),
        !silent ==> r@ == downmix(interleaved@, channels as int),
{
    if silent {
        let mut out: Vec<i16> = Vec::new();
        let mut i: usize = 0;
        while i < frames
            invariant
                i <= frames,
                out@ =~= Seq::new(i as nat, |j: int| 0i16),
            decreases frames - i,
        {
            out.push(0);
            i = i + 1;
        }
        out
    } else {
        downmix_to_mono(interleaved, channels)
    }
}

} // verus!
