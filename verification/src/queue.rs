//! The bounded queue of audio segments awaiting transcription, and the
//! decisions of the worker that drains it.
//!
//! The queue is modelled by the sequence of its segments, oldest first. It
//! never holds more than `MAX_QUEUE_SIZE` segments.

use vstd::prelude::*;
use std::collections::VecDeque;

verus! {

/// Maximum number of segments waiting for transcription.
pub const MAX_QUEUE_SIZE: usize = 10;

/// What the worker does next.
pub enum WorkerAction<T> {
    /// Transcribe this segment, then ask again.
    Process(T),
    /// Nothing is queued yet: wait briefly, then ask again.
    Wait,
    /// The worker was stopped and the queue is drained: finish the transcript.
    Exit,
}

/// A bounded first-in, first-out queue of segments with the state of the
/// worker that processes them.
pub struct TranscriptionQueue<T> {
    queue: VecDeque<T>,
    worker_active: bool,
    segments_processed: usize,
}

impl<T> View for TranscriptionQueue<T> {
    type V = Seq<T>;

    closed spec fn view(&self) -> Seq<T> {
        self.queue@
    }
}

impl<T> TranscriptionQueue<T> {
    /// The queue never holds more than `MAX_QUEUE_SIZE` segments.
    pub open spec fn wf(&self) -> bool {
        self@.len() <= MAX_QUEUE_SIZE
    }

    /// Whether the worker is running (spec view of `is_worker_active`).
    pub closed spec fn active(&self) -> bool {
        self.worker_active
    }

    /// Number of segments the worker has finished since it was started.
    pub closed spec fn processed(&self) -> nat {
        self.segments_processed as nat
    }

    /// Create a new, empty transcription queue with no worker running.
    pub fn new() -> (q: Self)
        ensures
            q.wf(),
            q@ == Seq::<T>::empty(),
            !q.active(),
            q.processed() == 0,
    {
        TranscriptionQueue { queue: VecDeque::new(), worker_active: false, segments_processed: 0 }
    }

    /// Enqueue a segment for transcription. Returns false, leaving the queue
    /// unchanged, if the queue is full.
    pub fn enqueue(&mut self, segment: T) -> (added: bool)
        requires
            old(self).wf(),
        ensures
            final(self).wf(),
            added == (old(self)@.len() < MAX_QUEUE_SIZE),
            added ==> final(self)@ == old(self)@.push(segment),
            !added ==> final(self)@ == old(self)@,
            final(self).active() == old(self).active(),
            final(self).processed() == old(self).processed(),
    {
        if self.queue.len() >= MAX_QUEUE_SIZE {
            return false;
        }
        self.queue.push_back(segment);
        true
    }

    /// Removes and returns the oldest queued segment.
    pub fn dequeue(&mut self) -> (seg: Option<T>)
        requires
            old(self).wf(),
        ensures
            final(self).wf(),
            old(self)@.len() == 0 ==> seg is None && final(self)@ == old(self)@,
            old(self)@.len() > 0 ==> seg == Some(old(self)@[0]) && final(self)@ == old(
                self,
            )@.drop_first(),
            final(self).active() == old(self).active(),
            final(self).processed() == old(self).processed(),
    {
        self.queue.pop_front()
    }

    /// Get current queue depth.
    pub fn queue_depth(&self) -> (n: usize)
        ensures
            n == self@.len(),
    {
        self.queue.len()
    }

    /// Get total segments processed since the worker was started.
    pub fn segments_processed(&self) -> (n: usize)
        ensures
            n == self.processed(),
    {
        self.segments_processed
    }

    /// Check if the worker is active.
    pub fn is_worker_active(&self) -> (b: bool)
        ensures
            b == self.active(),
    {
        self.worker_active
    }

    /// Mark the worker as started. Returns false, changing nothing, when a
    /// worker is already running; otherwise the processed count restarts at zero.
    pub fn start_worker(&mut self) -> (started: bool)
        ensures
            started == !old(self).active(),
            final(self).active(),
            final(self)@ == old(self)@,
            started ==> final(self).processed() == 0,
            !started ==> final(self).processed() == old(self).processed(),
    {
        if self.worker_active {
            return false;
        }
        self.worker_active = true;
        self.segments_processed = 0;
        true
    }

    /// Stop the transcription worker; it drains the remaining queue first.
    pub fn stop_worker(&mut self)
        ensures
            !final(self).active(),
            final(self)@ == old(self)@,
            final(self).processed() == old(self).processed(),
    {
        self.worker_active = false;
    }

    /// Clear the queue (discard pending segments).
    pub fn clear(&mut self)
        ensures
            final(self)@ == Seq::<T>::empty(),
            final(self).active() == old(self).active(),
            final(self).processed() == old(self).processed(),
    {
        self.queue.clear();
    }

    /// Counts one more segment as processed (saturating at `usize::MAX`).
    pub fn record_processed(&mut self)
        ensures
            final(self)@ == old(self)@,
            final(self).active() == old(self).active(),
            final(self).processed() == if old(self).processed() < usize::MAX {
                old(self).processed() + 1
            } else {
                old(self).processed()
            },
    {
        if self.segments_processed < usize::MAX {
            self.segments_processed = self.segments_processed + 1;
        }
    }

    /// The worker's next step: the oldest segment if there is one; otherwise
    /// exit once the worker has been stopped, or wait while it runs.
    pub fn next_action(&mut self) -> (a: WorkerAction<T>)
        requires
            old(self).wf(),
        ensures
            final(self).wf(),
            final(self).active() == old(self).active(),
            final(self).processed() == old(self).processed(),
            old(self)@.len() > 0 ==> a == WorkerAction::Process(old(self)@[0]) && final(self)@
                == old(self)@.drop_first(),
            old(self)@.len() == 0 ==> final(self)@ == old(self)@ && (if old(self).active() {
                a is Wait
            } else {
                a is Exit
            }),
    {
        match self.dequeue() {
            Some(seg) => WorkerAction::Process(seg),
            None => if self.worker_active {
                WorkerAction::Wait
            } else {
                WorkerAction::Exit
            },
        }
    }
}

/// First in, first out: a segment enqueued behind `q` comes out of
/// `dequeue` after exactly the segments of `q`, in their order.
pub proof fn lemma_fifo<T>(q: Seq<T>, x: T, k: nat)
    requires
        k <= q.len(),
    ensures
        k < q.len() ==> drop_n(q.push(x), k)[0] == q[k as int],
        drop_n(q.push(x), q.len())[0] == x,
        drop_n(q.push(x), q.len()).len() == 1,
    decreases k,
{
    lemma_drop_n(q.push(x), k);
    lemma_drop_n(q.push(x), q.len());
}

/// The queue left after `k` dequeues.
pub open spec fn drop_n<T>(q: Seq<T>, k: nat) -> Seq<T>
    decreases k,
{
    if k == 0 || q.len() == 0 {
        q
    } else {
        drop_n(q.drop_first(), (k - 1) as nat)
    }
}

proof fn lemma_drop_n<T>(q: Seq<T>, k: nat)
    requires
        k <= q.len(),
    ensures
        drop_n(q, k) == q.subrange(k as int, q.len() as int),
    decreases k,
{
    if k == 0 {
        assert(q.subrange(0, q.len() as int) =~= q);
    } else {
        lemma_drop_n(q.drop_first(), (k - 1) as nat);
        assert(q.drop_first().subrange(k - 1, q.drop_first().len() as int) =~= q.subrange(
            k as int,
            q.len() as int,
        ));
    }
}

} // verus!
