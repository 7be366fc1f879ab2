use r4::bgop::BgopFe;
use r4::bgop::BgopState;
use r4::bgop::BofOrWrite;
use r4::bgop::EnqueueStep;
use r4::bgop::OneBuffer;
use r4::bgop::ReadStep;
use r4::bgop::SendStep;
use r4::bgop::VecSink;
use r4::bgop::CAPACITY;

fn w(s: &str) -> BofOrWrite {
    BofOrWrite::Write(s.to_owned())
}

/// Background sends three elements then closes; the sink sees them, then
/// the sentinel, in order, exactly once each, and the close-flush finishes.
#[test]
fn scenario_background_close_flush() {
    let mut fe = BgopFe::new(VecSink::new());
    let be = fe.be();
    assert_eq!(be.write("e1".to_owned()), SendStep::Done);
    assert_eq!(be.write("e2".to_owned()), SendStep::Done);
    assert_eq!(be.write("e3".to_owned()), SendStep::Done);
    be.close();
    fe.close();
    assert!(fe.poll_flush());
    assert_eq!(
        fe.os.log,
        vec![Some(w("e1")), Some(w("e2")), Some(w("e3")), None]
    );
}

/// After the background rejects its input, foreground sends are accepted
/// and dropped without blocking, and the foreground sees the rejection.
#[test]
fn scenario_rclose_drops_sends() {
    let mut fe = BgopFe::new(VecSink::new());
    let be = fe.be();
    be.rclose();
    assert!(fe.rclosed());
    assert_eq!(fe.write("dropped".to_owned()), SendStep::Done);
    assert_eq!(fe.bof("tag".to_owned()), SendStep::Done);
    // Nothing ever reaches the background.
    assert_eq!(be.read(), ReadStep::Pending);
}

/// Filling the forward queue to capacity succeeds; the next send reports
/// `Busy`; after the background reads one element (the oldest), the
/// retried send completes.
#[test]
fn scenario_capacity_block_unblock() {
    let mut fe = BgopFe::new(VecSink::new());
    let be = fe.be();
    for i in 0..CAPACITY {
        assert_eq!(fe.write(format!("x{}", i)), SendStep::Done);
    }
    let overflow = fe.write("overflow".to_owned());
    let e = match overflow {
        SendStep::Busy(e) => e,
        SendStep::Done => panic!("the send past capacity must not complete"),
    };
    assert_eq!(e, w("overflow"));
    assert_eq!(be.read(), ReadStep::Ready(Some(w("x0"))));
    assert_eq!(
        match e {
            BofOrWrite::Write(s) => fe.write(s),
            BofOrWrite::Bof(s) => fe.bof(s),
        },
        SendStep::Done
    );
}

/// Elements cross each direction in first-in, first-out order.
#[test]
fn fifo_both_directions() {
    let mut fe = BgopFe::new(VecSink::new());
    let be = fe.be();
    assert_eq!(fe.bof("begin".to_owned()), SendStep::Done);
    assert_eq!(fe.write("a".to_owned()), SendStep::Done);
    assert_eq!(fe.write("b".to_owned()), SendStep::Done);
    assert_eq!(be.read(), ReadStep::Ready(Some(BofOrWrite::Bof("begin".to_owned()))));
    assert_eq!(be.read(), ReadStep::Ready(Some(w("a"))));
    assert_eq!(be.read(), ReadStep::Ready(Some(w("b"))));
    assert_eq!(be.read(), ReadStep::Pending);

    assert_eq!(be.write("r1".to_owned()), SendStep::Done);
    assert_eq!(be.write("r2".to_owned()), SendStep::Done);
    assert!(!fe.poll_flush());
    assert_eq!(fe.os.log, vec![Some(w("r1")), Some(w("r2"))]);
}

/// The foreground's sentinel reaches the background as `Ready(None)`.
#[test]
fn close_delivers_sentinel_to_background() {
    let mut fe = BgopFe::new(VecSink::new());
    let be = fe.be();
    assert_eq!(fe.write("last".to_owned()), SendStep::Done);
    fe.close();
    assert_eq!(be.read(), ReadStep::Ready(Some(w("last"))));
    assert_eq!(be.read(), ReadStep::Ready(None));
}

/// A sink that refuses from the second slot on: the batch stops there,
/// the reverse direction is rejected one-way, and later background sends
/// are silently dropped.
#[test]
fn sink_refusal_rejects_reverse() {
    let mut sink = VecSink::new();
    sink.refuse_from = Some(1);
    let mut fe = BgopFe::new(sink);
    let be = fe.be();
    assert_eq!(be.write("a".to_owned()), SendStep::Done);
    assert_eq!(be.write("b".to_owned()), SendStep::Done);
    assert_eq!(be.write("c".to_owned()), SendStep::Done);
    assert!(!fe.poll_flush());
    // "a" was accepted; "b" was handed over and refused; "c" was dropped.
    assert_eq!(fe.os.log, vec![Some(w("a")), Some(w("b"))]);
    assert!(be.rclosed());
    // Further background output is dropped without blocking.
    assert_eq!(be.write("d".to_owned()), SendStep::Done);
    assert!(!fe.poll_flush());
    assert_eq!(fe.os.log, vec![Some(w("a")), Some(w("b"))]);
}

/// The queue steps themselves: enqueue, take_front, reject, sentinel.
#[test]
fn one_buffer_steps() {
    let mut b = OneBuffer::new();
    assert!(matches!(b.enqueue(w("a")), EnqueueStep::Enqueued));
    assert!(matches!(b.enqueue(w("b")), EnqueueStep::Enqueued));
    assert_eq!(b.take_front(), Some(Some(w("a"))));
    b.push_sentinel();
    assert_eq!(b.take_front(), Some(Some(w("b"))));
    assert_eq!(b.take_front(), Some(None));
    assert_eq!(b.take_front(), None);

    b.reject();
    assert!(b.rclosed);
    assert_eq!(b.buf.len(), 0);
    assert!(matches!(b.enqueue(w("c")), EnqueueStep::Dropped));
    assert_eq!(b.buf.len(), 0);
}

/// Enqueue refuses exactly at the capacity bound and hands the element
/// back; a removal makes room again.
#[test]
fn one_buffer_capacity() {
    let mut b = OneBuffer::new();
    for i in 0..CAPACITY {
        assert!(matches!(b.enqueue(w(&format!("{}", i))), EnqueueStep::Enqueued));
    }
    assert_eq!(b.buf.len(), CAPACITY);
    match b.enqueue(w("full")) {
        EnqueueStep::Full(e) => assert_eq!(e, w("full")),
        _ => panic!("enqueue at capacity must hand the element back"),
    }
    assert_eq!(b.buf.len(), CAPACITY);
    assert_eq!(b.take_front(), Some(Some(w("0"))));
    assert!(matches!(b.enqueue(w("full")), EnqueueStep::Enqueued));
}

/// Draining the reverse direction records the sentinel in `os_closed`.
#[test]
fn drain_rev_marks_os_closed() {
    let mut s = BgopState::new();
    assert!(matches!(s.rev.enqueue(w("x")), EnqueueStep::Enqueued));
    let batch = s.drain_rev();
    assert_eq!(batch, vec![Some(w("x"))]);
    assert!(!s.os_closed);
    s.rev.push_sentinel();
    let batch = s.drain_rev();
    assert_eq!(batch, vec![None]);
    assert!(s.os_closed);
}

/// The reverse direction has the same capacity bound: the background's
/// send past capacity reports `Busy`, and one ferry round makes room.
#[test]
fn reverse_capacity_block_unblock() {
    let mut fe = BgopFe::new(VecSink::new());
    let be = fe.be();
    for i in 0..CAPACITY {
        assert_eq!(be.write(format!("y{}", i)), SendStep::Done);
    }
    let e = match be.write("overflow".to_owned()) {
        SendStep::Busy(e) => e,
        SendStep::Done => panic!("the send past capacity must not complete"),
    };
    assert_eq!(e, w("overflow"));
    assert!(!fe.poll_flush());
    assert_eq!(fe.os.log.len(), CAPACITY);
    assert_eq!(fe.os.log[0], Some(w("y0")));
    match e {
        BofOrWrite::Write(s) => assert_eq!(be.write(s), SendStep::Done),
        BofOrWrite::Bof(s) => assert_eq!(be.bof(s), SendStep::Done),
    }
}
