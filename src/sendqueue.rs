use vstd::prelude::*;
use crate::error::{Code, Error};

verus! {

/// A message that the queue hands to the transport.
pub struct Outgoing {
    /// The correlation token that the reply will carry.
    pub event: u64,
    /// Receive endpoint that the message is addressed to.
    pub ep: u16,
    pub label: u64,
    pub msg: Vec<u64>,
}

/// A reply that arrived and waits for the thread that issued its request.
pub struct Reply {
    pub event: u64,
    pub msg: Vec<u64>,
}

/// The abstract state of a send queue.
pub ghost struct QueueModel {
    /// The token that the next request gets.
    pub next_event: u64,
    /// How many requests may be outstanding on the transport at once.
    pub credits: nat,
    /// Tokens of the requests that went out and have no reply yet.
    pub in_flight: Seq<u64>,
    /// Requests that wait for credits, oldest first.
    pub pending: Seq<Outgoing>,
    /// Requests handed to the transport, oldest first.
    pub outbox: Seq<Outgoing>,
    /// Replies that nobody has fetched yet.
    pub replies: Seq<Reply>,
}

/// A bounded request/reply multiplexer: requests get a fresh token each, at most
/// `credits` of them are outstanding on the transport, and each reply goes to the
/// request whose token it carries.
pub struct SendQueue {
    id: u64,
    next_event: u64,
    credits: u64,
    in_flight: Vec<u64>,
    pending: Vec<Outgoing>,
    outbox: Vec<Outgoing>,
    replies: Vec<Reply>,
}

/// Index of the reply with token `e`, if any.
pub open spec fn find_reply(rs: Seq<Reply>, e: u64) -> Option<int> {
    if exists|i: int| 0 <= i < rs.len() && rs[i].event == e {
        Some(choose|i: int| 0 <= i < rs.len() && rs[i].event == e)
    } else {
        None
    }
}

impl View for SendQueue {
    type V = QueueModel;

    closed spec fn view(&self) -> QueueModel {
        QueueModel {
            next_event: self.next_event,
            credits: self.credits as nat,
            in_flight: self.in_flight@,
            pending: self.pending@,
            outbox: self.outbox@,
            replies: self.replies@,
        }
    }
}

impl QueueModel {
    /// Every token in use was handed out before and is in use once.
    pub open spec fn wf(&self) -> bool {
        &&& self.credits > 0
        &&& self.in_flight.len() <= self.credits
        &&& self.pending.len() > 0 ==> self.in_flight.len() == self.credits
        &&& forall|i: int| 0 <= i < self.in_flight.len() ==> self.in_flight[i] < self.next_event
        &&& forall|i: int| 0 <= i < self.pending.len() ==> self.pending[i].event < self.next_event
        &&& forall|i: int| 0 <= i < self.replies.len() ==> self.replies[i].event < self.next_event
        &&& forall|i: int, j: int| 0 <= i < j < self.in_flight.len() ==> self.in_flight[i] != self.in_flight[j]
        &&& forall|i: int, j: int| 0 <= i < j < self.replies.len() ==> self.replies[i].event != self.replies[j].event
        &&& forall|i: int, j: int| 0 <= i < self.in_flight.len() && 0 <= j < self.replies.len()
                ==> self.in_flight[i] != self.replies[j].event
        &&& forall|i: int, j: int| 0 <= i < self.in_flight.len() && 0 <= j < self.pending.len()
                ==> self.in_flight[i] != self.pending[j].event
        &&& forall|i: int, j: int| 0 <= i < j < self.pending.len() ==> self.pending[i].event != self.pending[j].event
        &&& forall|i: int, j: int| 0 <= i < self.pending.len() && 0 <= j < self.replies.len()
                ==> self.pending[i].event != self.replies[j].event
    }
}

/// What `send` does: the request gets the next token, and goes out at once if a credit
/// is free, else it waits behind the others.
pub open spec fn send_post(o: QueueModel, n: QueueModel, ep: u16, label: u64, msg: Seq<u64>, r: Result<u64, Error>) -> bool {
    &&& o.next_event == u64::MAX ==> r == Err::<u64, Error>(Error { code: Code::NoSpace }) && n == o
    &&& o.next_event < u64::MAX ==> r == Ok::<u64, Error>(o.next_event) && ({
        &&& n.next_event == o.next_event + 1
        &&& n.credits == o.credits
        &&& n.replies == o.replies
        &&& if o.in_flight.len() < o.credits {
            &&& n.in_flight == o.in_flight.push(o.next_event)
            &&& n.pending == o.pending
            &&& n.outbox.len() == o.outbox.len() + 1
            &&& n.outbox.drop_last() == o.outbox
            &&& n.outbox.last().event == o.next_event
            &&& n.outbox.last().ep == ep
            &&& n.outbox.last().label == label
            &&& n.outbox.last().msg@ == msg
        } else {
            &&& n.in_flight == o.in_flight
            &&& n.outbox == o.outbox
            &&& n.pending.len() == o.pending.len() + 1
            &&& n.pending.drop_last() == o.pending
            &&& n.pending.last().event == o.next_event
            &&& n.pending.last().ep == ep
            &&& n.pending.last().label == label
            &&& n.pending.last().msg@ == msg
        }
    })
}

impl SendQueue {
    /// Creates a queue that allows `credits` outstanding requests.
    pub fn new(id: u64, credits: u64) -> (r: SendQueue)
        requires
            credits > 0,
        ensures
            r@.wf(),
            r.id() == id,
            r@.credits == credits,
            r@.next_event == 1,
            r@.in_flight.len() == 0,
            r@.pending.len() == 0,
            r@.outbox.len() == 0,
            r@.replies.len() == 0,
    {
        SendQueue {
            id,
            next_event: 1,
            credits,
            in_flight: Vec::new(),
            pending: Vec::new(),
            outbox: Vec::new(),
            replies: Vec::new(),
        }
    }

    pub closed spec fn id(&self) -> u64 {
        self.id
    }

    /// Returns the id of this queue.
    pub fn queue_id(&self) -> (r: u64)
        ensures
            r == self.id(),
    {
        self.id
    }

    /// Enqueues a request to endpoint `ep` and returns its token without waiting. If all
    /// credits are in use, the request waits in the queue until a reply frees one.
    pub fn send(&mut self, ep: u16, label: u64, msg: Vec<u64>) -> (r: Result<u64, Error>)
        requires
            old(self)@.wf(),
        ensures
            final(self)@.wf(),
            final(self).id() == old(self).id(),
            send_post(old(self)@, final(self)@, ep, label, msg@, r),
    {
        if self.next_event == u64::MAX {
            return Err(Error::new(Code::NoSpace));
        }
        let ghost o = self@;
        let event = self.next_event;
        self.next_event = self.next_event + 1;
        let out = Outgoing { event, ep, label, msg };
        if (self.in_flight.len() as u64) < self.credits {
            self.in_flight.push(event);
            self.outbox.push(out);
        } else {
            self.pending.push(out);
        }
        proof {
            let n = self@;
            assert(n.outbox.drop_last() =~= o.outbox || n.outbox =~= o.outbox);
            assert(n.pending.drop_last() =~= o.pending || n.pending =~= o.pending);
            assert(n.in_flight =~= o.in_flight.push(o.next_event) || n.in_flight =~= o.in_flight);
            assert forall|i: int| 0 <= i < n.in_flight.len() implies n.in_flight[i] < n.next_event by {
                if i < o.in_flight.len() {
                    assert(n.in_flight[i] == o.in_flight[i]);
                }
            }
            assert forall|i: int| 0 <= i < n.pending.len() implies n.pending[i].event < n.next_event by {
                if i < o.pending.len() {
                    assert(n.pending[i] == o.pending[i]);
                }
            }
            assert forall|i: int, j: int| 0 <= i < j < n.in_flight.len() implies n.in_flight[i] != n.in_flight[j] by {
                if j < o.in_flight.len() {
                    assert(n.in_flight[j] == o.in_flight[j]);
                    assert(n.in_flight[i] == o.in_flight[i]);
                } else {
                    assert(n.in_flight[i] == o.in_flight[i]);
                }
            }
            assert forall|i: int, j: int| 0 <= i < j < n.pending.len() implies n.pending[i].event != n.pending[j].event by {
                if j < o.pending.len() {
                    assert(n.pending[j] == o.pending[j]);
                    assert(n.pending[i] == o.pending[i]);
                } else {
                    assert(n.pending[i] == o.pending[i]);
                }
            }
            assert forall|i: int, j: int| 0 <= i < n.in_flight.len() && 0 <= j < n.pending.len()
                implies n.in_flight[i] != n.pending[j].event by {
                if i < o.in_flight.len() && j < o.pending.len() {
                    assert(n.in_flight[i] == o.in_flight[i]);
                    assert(n.pending[j] == o.pending[j]);
                } else if i < o.in_flight.len() {
                    assert(n.in_flight[i] == o.in_flight[i]);
                } else {
                    assert(n.pending[j] == o.pending[j]);
                }
            }
            assert forall|i: int, j: int| 0 <= i < n.in_flight.len() && 0 <= j < n.replies.len()
                implies n.in_flight[i] != n.replies[j].event by {
                assert(n.replies[j] == o.replies[j]);
                assert(o.replies[j].event < o.next_event);
                if i < o.in_flight.len() {
                    assert(n.in_flight[i] == o.in_flight[i]);
                }
            }
            assert forall|i: int, j: int| 0 <= i < n.pending.len() && 0 <= j < n.replies.len()
                implies n.pending[i].event != n.replies[j].event by {
                assert(n.replies[j] == o.replies[j]);
                assert(o.replies[j].event < o.next_event);
                if i < o.pending.len() {
                    assert(n.pending[i] == o.pending[i]);
                }
            }
        }
        Ok(event)
    }

    /// Hands the reply `msg` to the request with token `event`. A reply for a token that is
    /// not on the transport is refused. The credit it frees lets the oldest waiting
    /// request go out.
    pub fn reply_arrived(&mut self, event: u64, msg: Vec<u64>) -> (r: Result<(), Error>)
        requires
            old(self)@.wf(),
        ensures
            final(self)@.wf(),
            final(self).id() == old(self).id(),
            r is Ok <==> old(self)@.in_flight.contains(event),
            r is Err ==> r->Err_0.code == Code::InvArgs && final(self)@ == old(self)@,
            r is Ok ==> ({
                let o = old(self)@;
                let n = final(self)@;
                &&& n.next_event == o.next_event
                &&& n.credits == o.credits
                &&& n.replies.len() == o.replies.len() + 1
                &&& n.replies.drop_last() == o.replies
                &&& n.replies.last().event == event
                &&& n.replies.last().msg@ == msg@
                &&& !n.in_flight.contains(event)
                &&& if o.pending.len() == 0 {
                    &&& n.pending == o.pending
                    &&& n.outbox == o.outbox
                    &&& n.in_flight.to_set() == o.in_flight.to_set().remove(event)
                } else {
                    &&& n.pending == o.pending.drop_first()
                    &&& n.outbox == o.outbox.push(o.pending[0])
                    &&& n.in_flight.to_set() == o.in_flight.to_set().remove(event).insert(o.pending[0].event)
                }
            }),
    {
        let mut idx: usize = 0;
        while idx < self.in_flight.len()
            invariant
                idx <= self.in_flight.len(),
                forall|j: int| 0 <= j < idx ==> self.in_flight@[j] != event,
            ensures
                idx <= self.in_flight.len(),
                forall|j: int| 0 <= j < idx ==> self.in_flight@[j] != event,
                idx < self.in_flight.len() ==> self.in_flight@[idx as int] == event,
            decreases self.in_flight.len() - idx,
        {
            if self.in_flight[idx] == event {
                break;
            }
            idx = idx + 1;
        }
        if idx == self.in_flight.len() {
            return Err(Error::new(Code::InvArgs));
        }
        let ghost o = self@;
        self.in_flight.remove(idx);
        assert(self.in_flight@ == o.in_flight.remove(idx as int));
        proof {
            assert forall|j: int| 0 <= j < self.in_flight.len() implies self.in_flight@[j] != event by {
                if j < idx {
                } else {
                    assert(self.in_flight@[j] == o.in_flight[j + 1]);
                }
            }
            assert(self.in_flight@.to_set() =~= o.in_flight.to_set().remove(event)) by {
                assert forall|x: u64| self.in_flight@.to_set().contains(x) <==> o.in_flight.to_set().remove(event).contains(x) by {
                    if o.in_flight.contains(x) && x != event {
                        let k = choose|k: int| 0 <= k < o.in_flight.len() && o.in_flight[k] == x;
                        if k < idx {
                            assert(self.in_flight@[k] == x);
                        } else {
                            assert(k != idx);
                            assert(self.in_flight@[k - 1] == x);
                        }
                    }
                    if self.in_flight@.contains(x) {
                        let k = choose|k: int| 0 <= k < self.in_flight.len() && self.in_flight@[k] == x;
                        if k < idx {
                            assert(o.in_flight[k] == x);
                        } else {
                            assert(o.in_flight[k + 1] == x);
                        }
                    }
                }
            }
        }
        self.replies.push(Reply { event, msg });
        if self.pending.len() > 0 {
            let next = self.pending.remove(0);
            let ghost s1 = self.in_flight@;
            self.in_flight.push(next.event);
            self.outbox.push(next);
            proof {
                assert(self.in_flight@.to_set() =~= s1.to_set().insert(o.pending[0].event)) by {
                    assert forall|x: u64| self.in_flight@.to_set().contains(x) <==> s1.to_set().insert(o.pending[0].event).contains(x) by {
                        if s1.contains(x) {
                            let k = choose|k: int| 0 <= k < s1.len() && s1[k] == x;
                            assert(self.in_flight@[k] == x);
                        }
                        if x == o.pending[0].event {
                            assert(self.in_flight@[s1.len() as int] == x);
                        }
                        if self.in_flight@.contains(x) {
                            let k = choose|k: int| 0 <= k < self.in_flight.len() && self.in_flight@[k] == x;
                            if k < s1.len() {
                                assert(s1[k] == x);
                            }
                        }
                    }
                }
                assert(self.pending@ =~= o.pending.drop_first());
            }
        }
        proof {
            assert(!self.in_flight@.contains(event)) by {
                if self.in_flight@.contains(event) {
                    let k = choose|k: int| 0 <= k < self.in_flight.len() && self.in_flight@[k] == event;
                    if o.pending.len() > 0 && k == self.in_flight.len() - 1 {
                        assert(o.pending[0].event != event);
                    }
                }
            }
            let n = self@;
            let m = o.in_flight.len() - 1;
            // where each outstanding token of the new state came from
            assert forall|k: int| 0 <= k < n.in_flight.len() implies
                (k < m && n.in_flight[k] == o.in_flight[if k < idx { k } else { k + 1 }])
                || (k == m && o.pending.len() > 0 && n.in_flight[k] == o.pending[0].event) by {
                if k < m {
                    assert(n.in_flight[k] == o.in_flight.remove(idx as int)[k]);
                }
            }
            assert forall|k: int| 0 <= k < n.pending.len() implies n.pending[k] == o.pending[k + (if o.pending.len() > 0 { 1int } else { 0 })] by {}
            assert forall|k: int| 0 <= k < n.replies.len() implies
                (k < o.replies.len() && n.replies[k] == o.replies[k]) || (k == o.replies.len() && n.replies[k].event == event) by {}
            assert forall|i: int, j: int| 0 <= i < j < n.in_flight.len() implies n.in_flight[i] != n.in_flight[j] by {
                if j < m {
                    let a = if i < idx { i } else { i + 1 };
                    let b = if j < idx { j } else { j + 1 };
                    assert(o.in_flight[a] != o.in_flight[b]);
                } else {
                    let a = if i < idx { i } else { i + 1 };
                    assert(o.in_flight[a] != o.pending[0].event);
                }
            }
            assert forall|i: int, j: int| 0 <= i < n.in_flight.len() && 0 <= j < n.replies.len()
                implies n.in_flight[i] != n.replies[j].event by {
                let a = if i < idx { i } else { i + 1 };
                if i < m && j < o.replies.len() {
                    assert(o.in_flight[a] != o.replies[j].event);
                } else if i < m {
                    assert(a != idx);
                    assert(o.in_flight[a] != o.in_flight[idx as int]);
                } else if j < o.replies.len() {
                    assert(o.pending[0].event != o.replies[j].event);
                } else {
                    assert(o.in_flight[idx as int] != o.pending[0].event);
                }
            }
            assert forall|i: int, j: int| 0 <= i < n.in_flight.len() && 0 <= j < n.pending.len()
                implies n.in_flight[i] != n.pending[j].event by {
                let a = if i < idx { i } else { i + 1 };
                if i < m {
                    assert(o.in_flight[a] != o.pending[j + 1].event);
                } else {
                    assert(o.pending[0].event != o.pending[j + 1].event);
                }
            }
            assert forall|i: int, j: int| 0 <= i < j < n.pending.len() implies n.pending[i].event != n.pending[j].event by {
                let d: int = if o.pending.len() > 0 { 1 } else { 0 };
                assert(o.pending[i + d].event != o.pending[j + d].event);
            }
            assert forall|i: int, j: int| 0 <= i < n.pending.len() && 0 <= j < n.replies.len()
                implies n.pending[i].event != n.replies[j].event by {
                let d: int = if o.pending.len() > 0 { 1 } else { 0 };
                if j < o.replies.len() {
                    assert(o.pending[i + d].event != o.replies[j].event);
                } else {
                    assert(o.in_flight[idx as int] != o.pending[i + d].event);
                }
            }
            assert forall|i: int, j: int| 0 <= i < j < n.replies.len() implies n.replies[i].event != n.replies[j].event by {
                if j < o.replies.len() {
                } else {
                    assert(o.in_flight[idx as int] != o.replies[i].event);
                }
            }
            assert forall|i: int| 0 <= i < n.in_flight.len() implies n.in_flight[i] < n.next_event by {
                let a = if i < idx { i } else { i + 1 };
                if i < m {
                    assert(o.in_flight[a] < o.next_event);
                }
            }
            assert forall|i: int| 0 <= i < n.replies.len() implies n.replies[i].event < n.next_event by {
                assert(o.in_flight[idx as int] < o.next_event);
            }
        }
        Ok(())
    }

    /// Takes the reply to the request with token `event`, if it has arrived; a thread that
    /// gets `None` waits and asks again.
    pub fn receive_async(&mut self, event: u64) -> (r: Option<Vec<u64>>)
        requires
            old(self)@.wf(),
        ensures
            final(self)@.wf(),
            final(self).id() == old(self).id(),
            r is Some <==> find_reply(old(self)@.replies, event) is Some,
            r is None ==> final(self)@ == old(self)@,
            r is Some ==> ({
                let i = find_reply(old(self)@.replies, event)->Some_0;
                &&& r->Some_0@ == old(self)@.replies[i].msg@
                &&& final(self)@ == (QueueModel { replies: old(self)@.replies.remove(i), ..old(self)@ })
            }),
    {
        let mut idx: usize = 0;
        while idx < self.replies.len()
            invariant
                idx <= self.replies.len(),
                forall|j: int| 0 <= j < idx ==> self.replies@[j].event != event,
            ensures
                idx <= self.replies.len(),
                forall|j: int| 0 <= j < idx ==> self.replies@[j].event != event,
                idx < self.replies.len() ==> self.replies@[idx as int].event == event,
            decreases self.replies.len() - idx,
        {
            if self.replies[idx].event == event {
                break;
            }
            idx = idx + 1;
        }
        if idx == self.replies.len() {
            return None;
        }
        let ghost o = self@;
        proof {
            assert(find_reply(o.replies, event) == Some(idx as int)) by {
                let c = choose|i: int| 0 <= i < o.replies.len() && o.replies[i].event == event;
                assert(c == idx as int);
            }
        }
        let rep = self.replies.remove(idx);
        proof {
            assert(self@.replies =~= o.replies.remove(idx as int));
            assert forall|i: int, j: int| 0 <= i < j < self@.replies.len() implies self@.replies[i].event != self@.replies[j].event by {
                let a = if i < idx { i } else { i + 1 };
                let b = if j < idx { j } else { j + 1 };
                assert(self@.replies[i] == o.replies[a]);
                assert(self@.replies[j] == o.replies[b]);
            }
        }
        Some(rep.msg)
    }

    /// Removes and returns the requests that the transport has to carry, oldest first.
    pub fn take_outbox(&mut self) -> (r: Vec<Outgoing>)
        requires
            old(self)@.wf(),
        ensures
            final(self)@.wf(),
            final(self).id() == old(self).id(),
            r@ == old(self)@.outbox,
            final(self)@ == (QueueModel { outbox: Seq::empty(), ..old(self)@ }),
    {
        let mut out: Vec<Outgoing> = Vec::new();
        std::mem::swap(&mut out, &mut self.outbox);
        out
    }
}

/// Two requests issued one after the other, with no reply taken in between, get different
/// tokens; once the reply to the first has arrived, it is there for the first request and
/// a thread waiting for the second finds nothing.
pub proof fn lemma_reply_goes_to_its_request(q0: QueueModel, q1: QueueModel, q2: QueueModel, q3: QueueModel, e1: u64, e2: u64)
    requires
        q0.wf(),
        e1 == q0.next_event,
        q1.next_event == q0.next_event + 1,
        q1.replies == q0.replies,
        e2 == q1.next_event,
        q2.next_event == q1.next_event + 1,
        q2.replies == q1.replies,
        q3.replies.len() == q2.replies.len() + 1,
        q3.replies.drop_last() == q2.replies,
        q3.replies.last().event == e1,
    ensures
        e1 != e2,
        find_reply(q3.replies, e1) is Some,
        find_reply(q3.replies, e2) is None,
{
    let last = q3.replies.len() - 1;
    assert(q3.replies[last].event == e1);
    assert forall|i: int| 0 <= i < q3.replies.len() implies q3.replies[i].event != e2 by {
        if i < last {
            assert(q3.replies[i] == q0.replies[i]);
            assert(q0.replies[i].event < q0.next_event);
        }
    }
}

} // verus!
