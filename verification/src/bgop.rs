//! The background-operation pipe: two bounded one-direction mailboxes
//! (`OneBuffer`) under one lock, driven from the foreground through
//! `BgopFe` and from the background thread through `BgopBe`.

use std::sync::Arc;
use vstd::prelude::*;
use vstd::rwlock::RwLock;
use vstd::rwlock::RwLockPredicate;

verus! {

/// Capacity bound of each direction's queue: at most this many stream
/// elements may be pending at once; one extra slot may hold the
/// end-of-stream sentinel.
pub const CAPACITY: usize = 1024;

/// One element of the stream: a begin-of-unit marker carrying a tag, or a
/// data unit carrying one line of payload. The end-of-stream sentinel is
/// not an element; a queue slot holding `None` stands for it.
#[derive(Clone, Debug, PartialEq, Eq)]
pub enum BofOrWrite {
    Bof(String),
    Write(String),
}

/// A single-direction mailbox: a bounded FIFO queue of optional elements
/// (`None` is the end-of-stream sentinel) and a one-way `rclosed` flag set
/// when the consumer refuses further input.
///
/// The ghost fields record the full history of the queue: `sent` holds
/// every slot ever appended, `delivered` every slot ever handed to the
/// consumer, in order.
pub struct OneBuffer {
    pub buf: Vec<Option<BofOrWrite>>,
    pub rclosed: bool,
    pub sent: Ghost<Seq<Option<BofOrWrite>>>,
    pub delivered: Ghost<Seq<Option<BofOrWrite>>>,
}

impl OneBuffer {
    /// Queue length never exceeds the capacity plus one slot for the
    /// sentinel.
    pub open spec fn wf(&self) -> bool {
        self.buf@.len() <= CAPACITY + 1
    }

    /// While the direction has not been rejected, its history is exact:
    /// everything ever sent is everything already delivered followed by
    /// what is still queued. Rejection clears the queue and breaks this
    /// accounting, on purpose: the cleared elements are lost.
    pub open spec fn hist_ok(&self) -> bool {
        !self.rclosed ==> self.sent@ == self.delivered@ + self.buf@
    }

    pub open spec fn inv(&self) -> bool {
        self.wf() && self.hist_ok()
    }

    pub fn new() -> (r: Self)
        ensures
            r.buf@ == Seq::<Option<BofOrWrite>>::empty(),
            !r.rclosed,
            r.sent@ == Seq::<Option<BofOrWrite>>::empty(),
            r.delivered@ == Seq::<Option<BofOrWrite>>::empty(),
            r.inv(),
    {
        OneBuffer {
            buf: Vec::new(),
            rclosed: false,
            sent: Ghost(Seq::empty()),
            delivered: Ghost(Seq::empty()),
        }
    }

    /// An enqueue would find room: the direction is open and below capacity.
    pub open spec fn can_accept(&self) -> bool {
        !self.rclosed && self.buf@.len() < CAPACITY as int
    }

    /// There is room for the end-of-stream sentinel.
    pub open spec fn sentinel_room(&self) -> bool {
        self.buf@.len() <= CAPACITY as int
    }

    /// Append one element. Dropped silently if the consumer rejected the
    /// direction; queued if there is room; handed back if the queue is
    /// full, for the caller to retry once the consumer has drained.
    pub fn enqueue(&mut self, e: BofOrWrite) -> (r: EnqueueStep)
        requires
            old(self).inv(),
        ensures
            final(self).inv(),
            old(self).rclosed ==> r is Dropped && *final(self) == *old(self),
            old(self).can_accept() ==> {
                &&& r is Enqueued
                &&& final(self).buf@ == old(self).buf@.push(Some(e))
                &&& final(self).sent@ == old(self).sent@.push(Some(e))
                &&& final(self).rclosed == old(self).rclosed
                &&& final(self).delivered@ == old(self).delivered@
            },
            !old(self).rclosed && !old(self).can_accept() ==> (r matches EnqueueStep::Full(
                e2,
            ) && e2 == e && *final(self) == *old(self)),
    {
        if self.rclosed {
            return EnqueueStep::Dropped;
        }
        if self.buf.len() < CAPACITY {
            proof {
                assert(self.sent@ == self.delivered@ + self.buf@);
            }
            self.buf.push(Some(e));
            self.sent = Ghost(self.sent@.push(Some(e)));
            proof {
                assert(self.sent@ =~= self.delivered@ + self.buf@);
            }
            return EnqueueStep::Enqueued;
        }
        EnqueueStep::Full(e)
    }

    /// Remove and return the oldest queued slot, or `None` when the queue
    /// is empty. A returned `Some(None)` is the end-of-stream sentinel.
    pub fn take_front(&mut self) -> (r: Option<Option<BofOrWrite>>)
        requires
            old(self).inv(),
        ensures
            final(self).inv(),
            old(self).buf@.len() == 0 ==> r is None && *final(self) == *old(self),
            old(self).buf@.len() > 0 ==> {
                &&& r == Some(old(self).buf@[0])
                &&& final(self).buf@ == old(self).buf@.drop_first()
                &&& final(self).delivered@ == old(self).delivered@.push(old(self).buf@[0])
                &&& final(self).rclosed == old(self).rclosed
                &&& final(self).sent@ == old(self).sent@
            },
    {
        if self.buf.len() == 0 {
            return None;
        }
        let e = self.buf.remove(0);
        self.delivered = Ghost(self.delivered@.push(e));
        proof {
            assert(self.buf@ =~= old(self).buf@.drop_first());
            if !self.rclosed {
                assert(self.sent@ =~= self.delivered@ + self.buf@);
            }
        }
        Some(e)
    }

    /// Refuse further input: set the one-way `rclosed` flag and clear
    /// whatever is still queued. The cleared elements are lost; any
    /// producer blocked on a full queue finds rejection instead of room.
    pub fn reject(&mut self)
        requires
            old(self).inv(),
        ensures
            final(self).inv(),
            final(self).rclosed,
            final(self).buf@.len() == 0,
            final(self).sent@ == old(self).sent@,
            final(self).delivered@ == old(self).delivered@,
    {
        self.rclosed = true;
        self.buf.clear();
    }

    /// Append the end-of-stream sentinel. The protocol appends it at most
    /// once per direction, after which nothing further is enqueued; that
    /// is a caller obligation, not checked here. The append is skipped
    /// only in the capacity-violating state that the protocol never
    /// reaches (a sentinel already queued on top of a full queue).
    pub fn push_sentinel(&mut self)
        requires
            old(self).inv(),
        ensures
            final(self).inv(),
            old(self).sentinel_room() ==> {
                &&& final(self).buf@ == old(self).buf@.push(None)
                &&& final(self).sent@ == old(self).sent@.push(None)
                &&& final(self).rclosed == old(self).rclosed
                &&& final(self).delivered@ == old(self).delivered@
            },
            !old(self).sentinel_room() ==> *final(self) == *old(self),
    {
        if self.buf.len() <= CAPACITY {
            self.buf.push(None);
            self.sent = Ghost(self.sent@.push(None));
            proof {
                if !self.rclosed {
                    assert(self.sent@ =~= self.delivered@ + self.buf@);
                }
            }
        }
    }

    /// Remove and return everything queued, in order, delivering it all
    /// to the consumer at once.
    pub fn drain(&mut self) -> (r: Vec<Option<BofOrWrite>>)
        requires
            old(self).inv(),
        ensures
            final(self).inv(),
            r@ == old(self).buf@,
            final(self).buf@.len() == 0,
            final(self).rclosed == old(self).rclosed,
            final(self).sent@ == old(self).sent@,
            final(self).delivered@ == old(self).delivered@ + old(self).buf@,
    {
        let r = self.buf.split_off(0);
        self.delivered = Ghost(self.delivered@ + r@);
        proof {
            assert(r@ =~= old(self).buf@);
            assert(self.buf@ =~= Seq::<Option<BofOrWrite>>::empty());
            if !self.rclosed {
                assert(self.sent@ =~= self.delivered@ + self.buf@);
            }
        }
        r
    }
}

/// Outcome of one enqueue attempt on a `OneBuffer`.
pub enum EnqueueStep {
    /// The direction was rejected; the element was discarded silently.
    Dropped,
    /// The element was appended to the queue.
    Enqueued,
    /// The queue is full; the element is handed back for a later retry.
    Full(BofOrWrite),
}

/// The whole shared state of one pipe: the foreground-to-background
/// direction `fwd`, the background-to-foreground direction `rev`, and
/// `os_closed`, which becomes true exactly when the background's
/// end-of-stream sentinel has been handed out of `rev` towards the
/// foreground's sink.
pub struct BgopState {
    pub fwd: OneBuffer,
    pub rev: OneBuffer,
    pub os_closed: bool,
}

impl BgopState {
    /// The lock invariant of the pipe: both directions are well formed,
    /// and `os_closed` is never set before the reverse direction's
    /// sentinel has actually been delivered.
    pub open spec fn inv(&self) -> bool {
        &&& self.fwd.inv()
        &&& self.rev.inv()
        &&& self.os_closed ==> self.rev.delivered@.contains(None)
    }

    /// A freshly constructed direction: nothing queued, nothing in the
    /// histories, not rejected.
    pub open spec fn fresh(b: OneBuffer) -> bool {
        &&& b.buf@ == Seq::<Option<BofOrWrite>>::empty()
        &&& !b.rclosed
        &&& b.sent@ == Seq::<Option<BofOrWrite>>::empty()
        &&& b.delivered@ == Seq::<Option<BofOrWrite>>::empty()
    }

    pub fn new() -> (r: Self)
        ensures
            Self::fresh(r.fwd),
            Self::fresh(r.rev),
            !r.os_closed,
            r.inv(),
    {
        BgopState { fwd: OneBuffer::new(), rev: OneBuffer::new(), os_closed: false }
    }

    /// Drain the reverse direction for the foreground's sink, recording in
    /// `os_closed` whether the batch carries the background's end-of-stream
    /// sentinel.
    pub fn drain_rev(&mut self) -> (r: Vec<Option<BofOrWrite>>)
        requires
            old(self).inv(),
        ensures
            final(self).inv(),
            r@ == old(self).rev.buf@,
            final(self).rev.buf@.len() == 0,
            final(self).rev.rclosed == old(self).rev.rclosed,
            final(self).rev.sent@ == old(self).rev.sent@,
            final(self).rev.delivered@ == old(self).rev.delivered@ + old(self).rev.buf@,
            final(self).fwd == old(self).fwd,
            final(self).os_closed == (old(self).os_closed || old(self).rev.buf@.contains(None)),
    {
        let r = self.rev.drain();
        let mut i: usize = 0;
        while i < r.len()
            invariant
                old(self).inv(),
                i <= r@.len(),
                r@ == old(self).rev.buf@,
                self.fwd == old(self).fwd,
                self.rev.inv(),
                self.rev.buf@.len() == 0,
                self.rev.rclosed == old(self).rev.rclosed,
                self.rev.sent@ == old(self).rev.sent@,
                self.rev.delivered@ == old(self).rev.delivered@ + old(self).rev.buf@,
                self.os_closed == (old(self).os_closed || r@.take(i as int).contains(None)),
            decreases r@.len() - i,
        {
            if r[i].is_none() {
                self.os_closed = true;
                proof {
                    assert(r@.take(i as int + 1)[i as int] is None);
                }
            }
            proof {
                if self.os_closed && !(old(self).os_closed || r@.take(i as int + 1).contains(
                    None,
                )) {
                    let j = choose|j: int| 0 <= j < i && r@.take(i as int)[j] is None;
                    assert(r@.take(i as int + 1)[j] is None);
                }
            }
            i += 1;
        }
        proof {
            assert(r@.take(r@.len() as int) =~= r@);
            assert(self.rev.delivered@ == old(self).rev.delivered@ + old(self).rev.buf@);
            if self.os_closed {
                if old(self).os_closed {
                    assert(self.rev.delivered@.contains(None)) by {
                        let j = choose|j: int|
                            0 <= j < old(self).rev.delivered@.len() && old(
                                self,
                            ).rev.delivered@[j] is None;
                        assert(self.rev.delivered@[j] is None);
                    }
                } else {
                    assert(self.rev.delivered@.contains(None)) by {
                        let j = choose|j: int| 0 <= j < r@.len() && r@[j] is None;
                        assert(self.rev.delivered@[old(self).rev.delivered@.len() + j] is None);
                    }
                }
            }
        }
        r
    }
}

/// The lock predicate of the pipe: every value stored in the shared lock
/// satisfies `BgopState::inv`.
pub struct BgopPred;

impl RwLockPredicate<BgopState> for BgopPred {
    open spec fn inv(self, s: BgopState) -> bool {
        s.inv()
    }
}

/// The shared, lock-guarded pipe state that every handle references.
pub type PipeShared = Arc<RwLock<BgopState, BgopPred>>;

/// Relies on `std::sync::Arc::clone`: the clone is a handle to the same
/// allocation, so it dereferences to the same value.
#[verifier::external_body]
fn share_pipe(state: &PipeShared) -> (r: PipeShared)
    ensures
        r == *state,
{
    state.clone()
}

/// Outcome of one send attempt through a handle.
#[derive(Debug, PartialEq, Eq)]
pub enum SendStep {
    /// The element was queued, or silently dropped because the receiving
    /// side has rejected the direction; either way the send is finished.
    Done,
    /// The queue is at capacity; the element is handed back so the caller
    /// can retry after the receiver has made room.
    Busy(BofOrWrite),
}

/// Outcome of one receive attempt through the background handle.
#[derive(Debug, PartialEq, Eq)]
pub enum ReadStep {
    /// The oldest queued slot; `None` is the end-of-stream sentinel, after
    /// which `read` must not be called again.
    Ready(Option<BofOrWrite>),
    /// Nothing is queued yet; retry once the foreground has sent more.
    Pending,
}

/// The foreground's sink: each drained slot of the reverse direction is
/// handed to `accept`, the sentinel as `None`. Returning `false` rejects
/// this and all further output; the pipe then stops ferrying to the sink.
///
/// The two spec members let the pipe's contracts speak about the sink
/// abstractly: `hist` is everything the sink has been handed so far, in
/// order, and `wants` is whether it still accepts input.
pub trait Sink {
    /// Everything this sink has been handed so far, in order. The body
    /// here is only a default so that impls outside the verified world
    /// compile; a verified impl overrides it with its real record.
    open spec fn hist(&self) -> Seq<Option<BofOrWrite>> {
        Seq::empty()
    }

    /// Whether the sink still wants input.
    open spec fn wants(&self) -> bool {
        true
    }

    fn accept(&mut self, e: Option<BofOrWrite>) -> (r: bool)
        ensures
            final(self).hist() == old(self).hist().push(e),
            r == final(self).wants(),
    ;
}

/// A sink that records everything it is handed, and can be told to refuse
/// from the n-th slot on.
pub struct VecSink {
    pub log: Vec<Option<BofOrWrite>>,
    pub refuse_from: Option<usize>,
}

impl VecSink {
    pub fn new() -> (r: VecSink)
        ensures
            r.log@ == Seq::<Option<BofOrWrite>>::empty(),
            r.refuse_from is None,
    {
        VecSink { log: Vec::new(), refuse_from: None }
    }
}

impl Sink for VecSink {
    open spec fn hist(&self) -> Seq<Option<BofOrWrite>> {
        self.log@
    }

    open spec fn wants(&self) -> bool {
        match self.refuse_from {
            None => true,
            Some(n) => self.log@.len() <= n,
        }
    }

    fn accept(&mut self, e: Option<BofOrWrite>) -> (r: bool) {
        self.log.push(e);
        match self.refuse_from {
            None => true,
            Some(n) => self.log.len() <= n,
        }
    }
}

/// The background thread's handle: receive upstream input from `fwd`,
/// send produced output into `rev`, notice early rejection.
///
/// Every operation takes the shared lock once and returns; an operation
/// that cannot make progress yet reports so, and the caller retries.
/// Retrying in a loop is the caller's (unverified) concern, because it
/// can wait on another thread forever.
pub struct BgopBe {
    pub state: PipeShared,
}

impl BgopBe {
    /// One receive attempt: pop the oldest slot of `fwd` if there is one.
    /// After `Ready(None)` — the end-of-stream sentinel — the protocol
    /// forbids further calls; they would stay `Pending` forever.
    pub fn read(&self) -> ReadStep {
        let (mut s, wh) = self.state.acquire_write();
        let out = s.fwd.take_front();
        wh.release_write(s);
        match out {
            Some(e) => ReadStep::Ready(e),
            None => ReadStep::Pending,
        }
    }

    /// Refuse further input: set `fwd`'s one-way rejecting flag and clear
    /// its queue, so a foreground sender blocked on a full `fwd` finds
    /// rejection instead of waiting for room.
    pub fn rclose(&self) {
        let (mut s, wh) = self.state.acquire_write();
        s.fwd.reject();
        wh.release_write(s);
    }

    /// One send attempt into `rev`.
    fn enqueue(&self, e: BofOrWrite) -> (r: SendStep)
        ensures
            r matches SendStep::Busy(e2) ==> e2 == e,
    {
        let (mut s, wh) = self.state.acquire_write();
        let att = s.rev.enqueue(e);
        wh.release_write(s);
        match att {
            EnqueueStep::Full(e2) => SendStep::Busy(e2),
            _ => SendStep::Done,
        }
    }

    /// Send a begin-of-unit marker downstream.
    pub fn bof(&self, tag: String) -> (r: SendStep)
        ensures
            r matches SendStep::Busy(e2) ==> e2 == BofOrWrite::Bof(tag),
    {
        self.enqueue(BofOrWrite::Bof(tag))
    }

    /// Send one data unit downstream.
    pub fn write(&self, line: String) -> (r: SendStep)
        ensures
            r matches SendStep::Busy(e2) ==> e2 == BofOrWrite::Write(line),
    {
        self.enqueue(BofOrWrite::Write(line))
    }

    /// Whether the foreground has rejected the background's output; the
    /// background should poll this and stop producing early.
    pub fn rclosed(&self) -> bool {
        let rh = self.state.acquire_read();
        let r = rh.borrow().rev.rclosed;
        rh.release_read();
        r
    }

    /// Append the background's end-of-stream sentinel to `rev`. The
    /// protocol calls this exactly once per pipe lifetime.
    pub fn close(&self) {
        let (mut s, wh) = self.state.acquire_write();
        s.rev.push_sentinel();
        wh.release_write(s);
    }
}

/// The foreground's handle: send input into `fwd` and, before anything
/// that could wait, ferry whatever the background has queued in `rev` out
/// to the sink — the drain-before-block discipline that removes the
/// two-bounded-buffer deadlock (`laws::lemma_no_mutual_block`).
///
/// As with `BgopBe`, each operation takes the lock once; `Busy` outcomes
/// are retried by the caller, and every attempt ferries first.
pub struct BgopFe<OS: Sink> {
    pub os: OS,
    pub state: PipeShared,
}

impl<OS: Sink> BgopFe<OS> {
    pub fn new(os: OS) -> (r: Self)
        ensures
            r.os == os,
    {
        BgopFe {
            os,
            state: Arc::new(RwLock::<BgopState, BgopPred>::new(BgopState::new(), Ghost(BgopPred))),
        }
    }

    pub fn new_box(os: Box<OS>) -> (r: Self)
        ensures
            r.os == *os,
    {
        Self::new(*os)
    }

    /// A new background handle onto the same pipe; any number may exist,
    /// one per worker thread.
    pub fn be(&self) -> (r: BgopBe)
        ensures
            r.state == self.state,
    {
        BgopBe { state: share_pipe(&self.state) }
    }

    /// Hand one drained batch to the sink, in order. The first refusal
    /// rejects the reverse direction (one-way) and drops the rest of the
    /// batch, so the background stops being blocked on space the sink
    /// will never grant.
    ///
    /// The sink receives exactly a prefix of the batch — the whole batch
    /// unless it refused a slot, in which case it was left not wanting
    /// more.
    fn deliver(&mut self, batch: Vec<Option<BofOrWrite>>)
        ensures
            final(self).state == old(self).state,
            exists|k: int|
                0 <= k <= batch@.len() && final(self).os.hist() == old(self).os.hist()
                    + #[trigger] batch@.take(k) && (k == batch@.len() || !final(self).os.wants()),
    {
        let ghost orig = batch@;
        let mut batch = batch;
        while batch.len() > 0
            invariant_except_break
                self.state == old(self).state,
                batch@.len() <= orig.len(),
                batch@ == orig.skip(orig.len() - batch@.len()),
                self.os.hist() == old(self).os.hist() + orig.take(orig.len() - batch@.len()),
            ensures
                self.state == old(self).state,
                exists|k: int|
                    0 <= k <= orig.len() && self.os.hist() == old(self).os.hist()
                        + #[trigger] orig.take(k) && (k == orig.len() || !self.os.wants()),
            decreases batch@.len(),
        {
            let ghost done = orig.len() - batch@.len();
            let e = batch.remove(0);
            proof {
                assert(e == orig[done]);
                assert(batch@ =~= orig.skip(orig.len() - batch@.len()));
                assert(orig.take(done + 1) =~= orig.take(done).push(orig[done]));
            }
            if !self.os.accept(e) {
                let (mut s, wh) = self.state.acquire_write();
                s.rev.reject();
                wh.release_write(s);
                proof {
                    assert(self.os.hist() == old(self).os.hist() + orig.take(done + 1));
                }
                break ;
            }
        }
    }

    /// What every ferrying operation promises of the sink: the sink was
    /// handed exactly a prefix of one drained batch, in order — the whole
    /// batch unless the sink refused a slot and was left not wanting
    /// more.
    pub open spec fn ferried(pre: Self, post: Self) -> bool {
        &&& post.state == pre.state
        &&& exists|batch: Seq<Option<BofOrWrite>>, k: int|
            0 <= k <= batch.len() && post.os.hist() == pre.os.hist() + #[trigger] batch.take(k)
                && (k == batch.len() || !post.os.wants())
    }

    /// One ferry round and one send attempt into `fwd`, fused: drain
    /// `rev` for the sink first, then try to enqueue. On `Busy` the
    /// caller retries, draining again each time — so the foreground never
    /// waits for room in `fwd` while output sits undelivered in `rev`.
    fn enqueue(&mut self, e: BofOrWrite) -> (r: SendStep)
        ensures
            r matches SendStep::Busy(e2) ==> e2 == e,
            Self::ferried(*old(self), *final(self)),
    {
        let (mut s, wh) = self.state.acquire_write();
        let batch = s.drain_rev();
        let att = s.fwd.enqueue(e);
        wh.release_write(s);
        let ghost bv = batch@;
        self.deliver(batch);
        proof {
            let k = choose|k: int|
                0 <= k <= bv.len() && self.os.hist() == old(self).os.hist() + #[trigger] bv.take(k)
                    && (k == bv.len() || !self.os.wants());
            assert(0 <= k <= bv.len() && self.os.hist() == old(self).os.hist() + bv.take(k) && (k
                == bv.len() || !self.os.wants()));
        }
        match att {
            EnqueueStep::Full(e2) => SendStep::Busy(e2),
            _ => SendStep::Done,
        }
    }

    /// Send a begin-of-unit marker to the background, ferrying first.
    pub fn bof(&mut self, tag: String) -> (r: SendStep)
        ensures
            r matches SendStep::Busy(e2) ==> e2 == BofOrWrite::Bof(tag),
            Self::ferried(*old(self), *final(self)),
    {
        self.enqueue(BofOrWrite::Bof(tag))
    }

    /// Send one data unit to the background, ferrying first.
    pub fn write(&mut self, line: String) -> (r: SendStep)
        ensures
            r matches SendStep::Busy(e2) ==> e2 == BofOrWrite::Write(line),
            Self::ferried(*old(self), *final(self)),
    {
        self.enqueue(BofOrWrite::Write(line))
    }

    /// Whether the background has rejected further input.
    pub fn rclosed(&self) -> bool {
        let rh = self.state.acquire_read();
        let r = rh.borrow().fwd.rclosed;
        rh.release_read();
        r
    }

    /// Append the foreground's end-of-stream sentinel to `fwd`. The
    /// protocol calls this exactly once; afterwards the caller repeats
    /// `poll_flush` until it reports true, so that `close` plus that loop
    /// never finishes before the background's own end-of-stream has been
    /// handed to the sink.
    pub fn close(&mut self) {
        let (mut s, wh) = self.state.acquire_write();
        s.fwd.push_sentinel();
        wh.release_write(s);
    }

    /// One ferry round of the drain-to-completion shutdown: deliver
    /// whatever `rev` holds to the sink and report whether the
    /// background's end-of-stream sentinel has now been delivered
    /// (`laws::lemma_flush` ties that report to the sentinel having left
    /// the reverse queue).
    pub fn poll_flush(&mut self) -> (done: bool)
        ensures
            Self::ferried(*old(self), *final(self)),
    {
        let (mut s, wh) = self.state.acquire_write();
        let batch = s.drain_rev();
        let done = s.os_closed;
        wh.release_write(s);
        let ghost bv = batch@;
        self.deliver(batch);
        proof {
            let k = choose|k: int|
                0 <= k <= bv.len() && self.os.hist() == old(self).os.hist() + #[trigger] bv.take(k)
                    && (k == bv.len() || !self.os.wants());
            assert(0 <= k <= bv.len() && self.os.hist() == old(self).os.hist() + bv.take(k) && (k
                == bv.len() || !self.os.wants()));
        }
        done
    }
}

} // verus!
