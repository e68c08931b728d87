use m3kernel::error::Code;
use m3kernel::sendqueue::SendQueue;

#[test]
fn replies_reach_their_own_request() {
    let mut q = SendQueue::new(1, 2);
    let e1 = q.send(6, 0, vec![1]).unwrap();
    let e2 = q.send(6, 0, vec![2]).unwrap();
    assert_ne!(e1, e2);
    assert_eq!(q.reply_arrived(e1, vec![10]), Ok(()));
    assert_eq!(q.receive_async(e2), None);
    assert_eq!(q.receive_async(e1), Some(vec![10]));
    assert_eq!(q.receive_async(e1), None);
    assert_eq!(q.reply_arrived(e2, vec![20]), Ok(()));
    assert_eq!(q.receive_async(e2), Some(vec![20]));
}

#[test]
fn requests_wait_for_credits() {
    let mut q = SendQueue::new(1, 1);
    let e1 = q.send(6, 5, vec![1]).unwrap();
    let e2 = q.send(6, 5, vec![2]).unwrap();
    let out = q.take_outbox();
    assert_eq!(out.len(), 1);
    assert_eq!(out[0].event, e1);
    assert_eq!(out[0].label, 5);
    // the second request has no credit yet, so a reply for it is refused
    assert_eq!(q.reply_arrived(e2, vec![0]).unwrap_err().code, Code::InvArgs);
    assert_eq!(q.reply_arrived(e1, vec![0]), Ok(()));
    let out = q.take_outbox();
    assert_eq!(out.len(), 1);
    assert_eq!(out[0].event, e2);
    assert_eq!(out[0].msg, vec![2]);
}

#[test]
fn unknown_replies_are_refused() {
    let mut q = SendQueue::new(1, 1);
    assert_eq!(q.reply_arrived(99, vec![0]).unwrap_err().code, Code::InvArgs);
    assert_eq!(q.queue_id(), 1);
}
