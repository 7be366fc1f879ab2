//! The laws of the pipe, stated over the transition relations of
//! `OneBuffer` and `BgopState` and proved once and for all.
//!
//! Each relation below says exactly what the contract of the matching
//! executable step guarantees (`enqueue`, `take_front`, `reject`,
//! `push_sentinel`, `drain_rev`), so every law proved here holds of every
//! state the running pipe can reach. The sink-facing half of the ferry —
//! each drained batch reaches the sink as an in-order prefix, cut short
//! only by a refusal — is stated directly on `Sink::accept` and
//! `BgopFe::ferried` in `bgop`.

use crate::bgop::BgopState;
use crate::bgop::BofOrWrite;
use crate::bgop::OneBuffer;
use crate::bgop::CAPACITY;
use vstd::prelude::*;

verus! {

/// One send attempt, as the contract of `OneBuffer::enqueue` guarantees it:
/// dropped without effect on a rejected direction, appended below capacity,
/// and otherwise refused with the state left unchanged.
pub open spec fn enqueue_rel(pre: OneBuffer, post: OneBuffer, e: BofOrWrite) -> bool {
    if pre.rclosed {
        post == pre
    } else if pre.buf@.len() < CAPACITY as int {
        &&& post.buf@ == pre.buf@.push(Some(e))
        &&& post.sent@ == pre.sent@.push(Some(e))
        &&& post.rclosed == pre.rclosed
        &&& post.delivered@ == pre.delivered@
    } else {
        post == pre
    }
}

/// One receive attempt, as the contract of `OneBuffer::take_front`
/// guarantees it.
pub open spec fn read_rel(pre: OneBuffer, post: OneBuffer) -> bool {
    if pre.buf@.len() == 0 {
        post == pre
    } else {
        &&& post.buf@ == pre.buf@.drop_first()
        &&& post.delivered@ == pre.delivered@.push(pre.buf@[0])
        &&& post.rclosed == pre.rclosed
        &&& post.sent@ == pre.sent@
    }
}

/// Rejection, as the contract of `OneBuffer::reject` guarantees it.
pub open spec fn reject_rel(pre: OneBuffer, post: OneBuffer) -> bool {
    &&& post.rclosed
    &&& post.buf@.len() == 0
    &&& post.sent@ == pre.sent@
    &&& post.delivered@ == pre.delivered@
}

/// Appending the end-of-stream sentinel, as the contract of
/// `OneBuffer::push_sentinel` guarantees it.
pub open spec fn close_rel(pre: OneBuffer, post: OneBuffer) -> bool {
    if pre.sentinel_room() {
        &&& post.buf@ == pre.buf@.push(None)
        &&& post.sent@ == pre.sent@.push(None)
        &&& post.rclosed == pre.rclosed
        &&& post.delivered@ == pre.delivered@
    } else {
        post == pre
    }
}

/// Draining everything queued to the consumer at once, as the contract of
/// `OneBuffer::drain` guarantees it.
pub open spec fn drain_rel(pre: OneBuffer, post: OneBuffer) -> bool {
    &&& post.buf@.len() == 0
    &&& post.rclosed == pre.rclosed
    &&& post.sent@ == pre.sent@
    &&& post.delivered@ == pre.delivered@ + pre.buf@
}

/// Any one step of a direction.
pub open spec fn step_rel(pre: OneBuffer, post: OneBuffer) -> bool {
    ||| exists|e: BofOrWrite| enqueue_rel(pre, post, e)
    ||| read_rel(pre, post)
    ||| reject_rel(pre, post)
    ||| close_rel(pre, post)
    ||| drain_rel(pre, post)
}

/// Any one step of the whole pipe: a queue step on one direction — only
/// the ferry drain of the reverse direction touches `os_closed`, and it
/// only ever sets it, exactly when the batch it hands towards the sink
/// carries the background's end-of-stream sentinel.
pub open spec fn pipe_step_rel(pre: BgopState, post: BgopState) -> bool {
    ||| (step_rel(pre.fwd, post.fwd) && post.rev == pre.rev && post.os_closed == pre.os_closed)
    ||| (step_rel(pre.rev, post.rev) && post.fwd == pre.fwd && post.os_closed == pre.os_closed)
    ||| (drain_rel(pre.rev, post.rev) && post.fwd == pre.fwd && post.os_closed == (pre.os_closed
        || pre.rev.buf@.contains(None)))
}

/// Closure of the machine, one transition at a time: a send preserves
/// the direction invariant.
pub proof fn lemma_enqueue_preserves_inv(pre: OneBuffer, post: OneBuffer, e: BofOrWrite)
    requires
        pre.inv(),
        enqueue_rel(pre, post, e),
    ensures
        post.inv(),
{
    if !pre.rclosed && pre.buf@.len() < CAPACITY as int {
        assert((pre.delivered@ + pre.buf@).push(Some(e)) =~= pre.delivered@ + pre.buf@.push(
            Some(e),
        ));
    }
}

/// A receive preserves the direction invariant.
pub proof fn lemma_read_preserves_inv(pre: OneBuffer, post: OneBuffer)
    requires
        pre.inv(),
        read_rel(pre, post),
    ensures
        post.inv(),
{
    if pre.buf@.len() > 0 && !pre.rclosed {
        assert(pre.sent@ =~= pre.delivered@.push(pre.buf@[0]) + pre.buf@.drop_first());
    }
}

/// Appending the sentinel preserves the direction invariant.
pub proof fn lemma_close_preserves_inv(pre: OneBuffer, post: OneBuffer)
    requires
        pre.inv(),
        close_rel(pre, post),
    ensures
        post.inv(),
{
    if pre.sentinel_room() && !pre.rclosed {
        assert((pre.delivered@ + pre.buf@).push(None) =~= pre.delivered@ + pre.buf@.push(None));
    }
}

/// Rejection and the ferry drain preserve the direction invariant.
pub proof fn lemma_drain_preserves_inv(pre: OneBuffer, post: OneBuffer)
    requires
        pre.inv(),
        reject_rel(pre, post) || drain_rel(pre, post),
    ensures
        post.inv(),
{
    if drain_rel(pre, post) && !pre.rclosed {
        assert(pre.sent@ =~= (pre.delivered@ + pre.buf@) + post.buf@);
    }
}

/// Any step preserves the direction invariant, so the laws here speak
/// about every state a running pipe can reach.
pub proof fn lemma_step_preserves_inv(pre: OneBuffer, post: OneBuffer)
    requires
        pre.inv(),
        step_rel(pre, post),
    ensures
        post.inv(),
{
    if read_rel(pre, post) {
        lemma_read_preserves_inv(pre, post);
    } else if reject_rel(pre, post) || drain_rel(pre, post) {
        lemma_drain_preserves_inv(pre, post);
    } else if close_rel(pre, post) {
        lemma_close_preserves_inv(pre, post);
    } else {
        let e = choose|e: BofOrWrite| enqueue_rel(pre, post, e);
        lemma_enqueue_preserves_inv(pre, post, e);
    }
}

/// No step forgets a delivery: the delivery history only ever grows, so
/// anything once observed by a receiver stays observed.
pub proof fn lemma_delivered_grows(pre: OneBuffer, post: OneBuffer)
    requires
        step_rel(pre, post),
    ensures
        pre.delivered@.len() <= post.delivered@.len(),
        forall|i: int|
            0 <= i < pre.delivered@.len() ==> #[trigger] post.delivered@[i] == pre.delivered@[i],
{
    if !(read_rel(pre, post) || reject_rel(pre, post) || drain_rel(pre, post) || close_rel(
        pre,
        post,
    )) {
        let e = choose|e: BofOrWrite| enqueue_rel(pre, post, e);
        assert(post.delivered@ == pre.delivered@);
    }
}

/// The same closure for the whole pipe: in particular, the flush fact of
/// `lemma_flush` stays justified because nothing ever removes the
/// sentinel from the reverse direction's delivery history.
pub proof fn lemma_pipe_step_preserves_inv(pre: BgopState, post: BgopState)
    requires
        pre.inv(),
        pipe_step_rel(pre, post),
    ensures
        post.inv(),
{
    if step_rel(pre.fwd, post.fwd) && post.rev == pre.rev && post.os_closed == pre.os_closed {
        lemma_step_preserves_inv(pre.fwd, post.fwd);
    } else {
        lemma_step_preserves_inv(pre.rev, post.rev);
        lemma_delivered_grows(pre.rev, post.rev);
        if post.os_closed {
            if pre.os_closed {
                let j = choose|j: int|
                    0 <= j < pre.rev.delivered@.len() && pre.rev.delivered@[j] is None;
                assert(post.rev.delivered@[j] is None);
            } else {
                // Only the ferry drain sets the flag, and only when the
                // batch it delivers carries the sentinel.
                let j = choose|j: int| 0 <= j < pre.rev.buf@.len() && pre.rev.buf@[j] is None;
                assert(post.rev.delivered@[pre.rev.delivered@.len() + j] is None);
            }
        }
    }
}

/// How many end-of-stream sentinels a history carries.
pub open spec fn sentinel_count(s: Seq<Option<BofOrWrite>>) -> nat
    decreases s.len(),
{
    if s.len() == 0 {
        0
    } else {
        sentinel_count(s.drop_last()) + (if s.last() is None {
            1nat
        } else {
            0nat
        })
    }
}

pub proof fn lemma_sentinel_count_push(s: Seq<Option<BofOrWrite>>, x: Option<BofOrWrite>)
    ensures
        sentinel_count(s.push(x)) == sentinel_count(s) + (if x is None {
            1nat
        } else {
            0nat
        }),
{
    assert(s.push(x).drop_last() =~= s);
    assert(s.push(x).last() == x);
}

pub proof fn lemma_sentinel_count_zero(s: Seq<Option<BofOrWrite>>)
    ensures
        sentinel_count(s) == 0 <==> !s.contains(None),
    decreases s.len(),
{
    if s.len() == 0 {
    } else {
        lemma_sentinel_count_zero(s.drop_last());
        if s.contains(None) {
            let i = choose|i: int| 0 <= i < s.len() && s[i] is None;
            if i < s.len() - 1 {
                assert(s.drop_last()[i] is None);
                assert(s.drop_last().contains(None));
            }
        }
        if s.drop_last().contains(None) {
            let i = choose|i: int| 0 <= i < s.drop_last().len() && s.drop_last()[i] is None;
            assert(s[i] is None);
        }
    }
}

/// FIFO: while a direction has not been rejected, what the receiver has
/// observed is exactly the oldest prefix of what was sent, in sending
/// order; and one receive from a non-empty queue hands over precisely the
/// oldest element not yet observed.
pub proof fn lemma_fifo(b: OneBuffer, post: OneBuffer)
    requires
        b.inv(),
        !b.rclosed,
    ensures
        b.delivered@.len() <= b.sent@.len(),
        forall|i: int| 0 <= i < b.delivered@.len() ==> b.delivered@[i] == b.sent@[i],
        read_rel(b, post) && b.buf@.len() > 0 ==> post.delivered@ == b.delivered@.push(
            b.sent@[b.delivered@.len() as int],
        ),
{
    assert forall|i: int| 0 <= i < b.delivered@.len() implies b.delivered@[i] == b.sent@[i] by {
        assert(b.sent@[i] == (b.delivered@ + b.buf@)[i]);
    }
    if b.buf@.len() > 0 {
        assert(b.buf@[0] == (b.delivered@ + b.buf@)[b.delivered@.len() as int]);
    }
}

/// Capacity bound: a send finds room only below the capacity, so the
/// queue never overflows; a pending send on a full, open direction leaves
/// the state entirely unchanged (the sender must wait); and as soon as
/// the receiver removes one element, a waiting send finds room again.
pub proof fn lemma_capacity_bound(pre: OneBuffer, post: OneBuffer, e: BofOrWrite)
    requires
        pre.inv(),
    ensures
        enqueue_rel(pre, post, e) && pre.can_accept() ==> post.buf@.len() == pre.buf@.len() + 1
            <= CAPACITY as int,
        enqueue_rel(pre, post, e) && !pre.rclosed && !pre.can_accept() ==> post == pre,
        !pre.rclosed && pre.buf@.len() == CAPACITY as int && read_rel(pre, post)
            ==> post.can_accept(),
{
}

/// Sentinel-once: a direction that has never carried the end-of-stream
/// sentinel carries exactly one after a close; ordinary sends, receives,
/// drains and rejection never add one; and a second close would append a
/// second sentinel — the protocol violation the pipe's users must avoid.
pub proof fn lemma_sentinel_once(pre: OneBuffer, post: OneBuffer, e: BofOrWrite)
    requires
        pre.inv(),
        pre.sentinel_room(),
    ensures
        !pre.sent@.contains(None) && close_rel(pre, post) ==> sentinel_count(post.sent@) == 1
            && post.sent@.last() is None,
        pre.sent@.contains(None) && close_rel(pre, post) ==> sentinel_count(post.sent@) >= 2,
        enqueue_rel(pre, post, e) ==> sentinel_count(post.sent@) == sentinel_count(pre.sent@),
        read_rel(pre, post) || reject_rel(pre, post) || drain_rel(pre, post) ==> post.sent@
            == pre.sent@,
{
    lemma_sentinel_count_zero(pre.sent@);
    if close_rel(pre, post) {
        lemma_sentinel_count_push(pre.sent@, None);
        if pre.sent@.contains(None) {
            assert(sentinel_count(pre.sent@) >= 1) by {
                lemma_sentinel_count_zero(pre.sent@);
            }
        }
    }
    if enqueue_rel(pre, post, e) && !pre.rclosed && pre.buf@.len() < CAPACITY as int {
        lemma_sentinel_count_push(pre.sent@, Some(e));
    }
}

/// Monotonic rejection: no step of the machine ever clears a direction's
/// rejecting flag; the queue is emptied at the very transition that sets
/// it; and a send on a rejected direction returns at once, appending
/// nothing and changing nothing.
pub proof fn lemma_monotonic_rejection(pre: OneBuffer, post: OneBuffer, e: BofOrWrite)
    ensures
        step_rel(pre, post) && pre.rclosed ==> post.rclosed,
        reject_rel(pre, post) ==> post.rclosed && post.buf@.len() == 0,
        pre.rclosed && enqueue_rel(pre, post, e) ==> post == pre,
{
}

/// Deterministic flush: `os_closed` — the fact the foreground's
/// drain-to-completion shutdown waits for — is never set before the
/// background's end-of-stream sentinel has actually been handed out of
/// the reverse queue towards the sink. So a shutdown that returns has
/// flushed the whole stream, sentinel included.
pub proof fn lemma_flush(s: BgopState)
    requires
        s.inv(),
        s.os_closed,
    ensures
        s.rev.delivered@.contains(None),
{
}

/// Once the flush fact is recorded it never reverts, so a shutdown that
/// has seen it is final.
pub proof fn lemma_os_closed_monotonic(pre: BgopState, post: BgopState)
    requires
        pipe_step_rel(pre, post),
        pre.os_closed,
    ensures
        post.os_closed,
{
}

/// The foreground is out of room: its fused ferry-and-send round found
/// the forward queue full and, having drained first, left nothing in the
/// reverse queue. Only the background can unblock it.
pub open spec fn fe_send_blocked(s: BgopState) -> bool {
    &&& !s.fwd.rclosed
    &&& s.fwd.buf@.len() >= CAPACITY as int
    &&& s.rev.buf@.len() == 0
}

/// The foreground's shutdown is still waiting for the background's
/// end-of-stream, with nothing left to ferry.
pub open spec fn fe_flush_blocked(s: BgopState) -> bool {
    &&& !s.os_closed
    &&& s.rev.buf@.len() == 0
}

/// The background cannot place output: the reverse queue is full and the
/// foreground has not rejected it.
pub open spec fn be_send_blocked(s: BgopState) -> bool {
    !s.rev.rclosed && s.rev.buf@.len() >= CAPACITY as int
}

/// The background has no input to read.
pub open spec fn be_read_blocked(s: BgopState) -> bool {
    s.fwd.buf@.len() == 0
}

/// Deadlock freedom of the two-bounded-buffer core: because the
/// foreground drains the reverse queue before every wait, no reachable
/// state has the foreground waiting for room or for the flush while the
/// background is itself waiting for room; and a foreground blocked on a
/// full forward queue always has a background with input to consume.
pub proof fn lemma_no_mutual_block(s: BgopState)
    requires
        s.inv(),
    ensures
        !(fe_send_blocked(s) && be_send_blocked(s)),
        !(fe_send_blocked(s) && be_read_blocked(s)),
        !(fe_flush_blocked(s) && be_send_blocked(s)),
{
}

/// The remaining pair: the foreground waits for the flush while the
/// background finds the forward queue empty. Then the background has
/// already been handed the foreground's end-of-stream sentinel, so a
/// background that honours the protocol — close exactly once after
/// consuming its input — is not blocked in `read` at all: it proceeds to
/// close, which puts the sentinel into the reverse queue and lets the
/// flush finish. A state in which the background still reads after
/// receiving the sentinel violates the read-after-sentinel precondition.
pub proof fn lemma_flush_progress(s: BgopState)
    requires
        s.inv(),
        !s.fwd.rclosed,
        s.fwd.sent@.len() > 0,
        s.fwd.sent@.last() is None,
        fe_flush_blocked(s),
        be_read_blocked(s),
    ensures
        s.fwd.delivered@.contains(None),
{
    assert(s.fwd.sent@ =~= s.fwd.delivered@);
    assert(s.fwd.delivered@.last() is None);
}

} // verus!
