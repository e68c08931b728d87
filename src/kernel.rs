use vstd::prelude::*;
use crate::cap::{CapNode, CapSpace, after_revoke, caps_wf, holds, in_subtree, lookup, revoke_order};
use crate::error::{Code, Error, code_of};
use crate::kobj::{CapRngDesc, CapSel, CapType, KObject, MGateObject, TileObject};
use crate::sendqueue::{QueueModel, SendQueue, send_post};
use crate::tcu::ActId;

verus! {

/// Selector of an activity's tile capability.
pub const SEL_TILE: u64 = 0;
/// Selector of an activity's kernel-memory capability.
pub const SEL_KMEM: u64 = 1;
/// Selector of an activity's capability to itself; this and the ones below cannot be revoked.
pub const SEL_ACT: u64 = 2;
/// Service operation that asks a service for capabilities.
pub const SERV_OBTAIN: u64 = 2;
/// Service operation that hands capabilities to a service.
pub const SERV_DELEGATE: u64 = 3;
/// Outstanding requests the kernel allows towards services.
pub const SERV_CREDITS: u64 = 4;

/// Whether `act` has no capability in name space `rng.ty` within the range.
pub open spec fn range_unused(nodes: Seq<CapNode>, act: ActId, rng: CapRngDesc) -> bool {
    forall|i: int| 0 <= i < nodes.len() ==> !(#[trigger] nodes[i].alive && nodes[i].act == act
        && nodes[i].obj.cap_type() == rng.ty && rng.start <= nodes[i].sel < rng.start + rng.count)
}

/// Whether a range lies within the selector space.
pub open spec fn range_fits(rng: CapRngDesc) -> bool {
    rng.start + rng.count <= u64::MAX
}

/// Whether an exchange between `a1`'s range `c1` and `a2`'s range `c2` may go ahead: two
/// different activities, one name space, counts that match (with `obtain`, the first range
/// may be longer), and a destination range that is free.
pub open spec fn exchange_valid(nodes: Seq<CapNode>, a1: ActId, a2: ActId, c1: CapRngDesc, c2: CapRngDesc, obtain: bool) -> bool {
    let dst = if obtain { a1 } else { a2 };
    let dst_rng = if obtain { c1 } else { c2 };
    &&& a1 != a2
    &&& c1.ty == c2.ty
    &&& if obtain { c2.count <= c1.count } else { c2.count == c1.count }
    &&& range_fits(c1) && range_fits(c2)
    &&& range_unused(nodes, dst, dst_rng)
}

/// The capabilities after copying the first `k` selectors of `src`'s range from `ss` to
/// `dst`'s range from `ds`; selectors without a capability are skipped.
pub open spec fn copied(nodes: Seq<CapNode>, src: ActId, dst: ActId, ty: CapType, ss: u64, ds: u64, k: nat) -> Seq<CapNode>
    decreases k,
{
    if k == 0 {
        nodes
    } else {
        let prev = copied(nodes, src, dst, ty, ss, ds, (k - 1) as nat);
        match lookup(nodes, src, ty, (ss + k - 1) as u64) {
            Some(p) => prev.push(CapNode {
                act: dst,
                sel: (ds + k - 1) as u64,
                obj: nodes[p].obj,
                parent: Some(p as usize),
                alive: true,
            }),
            None => prev,
        }
    }
}

/// The capabilities after a valid exchange.
pub open spec fn exchanged(nodes: Seq<CapNode>, a1: ActId, a2: ActId, c1: CapRngDesc, c2: CapRngDesc, obtain: bool) -> Seq<CapNode> {
    let src = if obtain { a2 } else { a1 };
    let dst = if obtain { a1 } else { a2 };
    let src_rng = if obtain { c2 } else { c1 };
    let dst_rng = if obtain { c1 } else { c2 };
    copied(nodes, src, dst, c1.ty, src_rng.start, dst_rng.start, c2.count as nat)
}

/// The activity that capability `sel` of `act` refers to, if it refers to one.
pub open spec fn act_cap(nodes: Seq<CapNode>, act: ActId, sel: CapSel) -> Option<ActId> {
    match lookup(nodes, act, CapType::Object, sel) {
        Some(i) => match nodes[i].obj {
            KObject::Activity(v) => Some(v),
            _ => None,
        },
        None => None,
    }
}

/// The capabilities and the removal order after revoking the first `k` selectors of a range.
pub open spec fn revoke_range(nodes: Seq<CapNode>, v: ActId, ty: CapType, start: u64, k: nat, own: bool) -> (Seq<CapNode>, Seq<usize>)
    decreases k,
{
    if k == 0 {
        (nodes, Seq::empty())
    } else {
        let prev = revoke_range(nodes, v, ty, start, (k - 1) as nat, own);
        match lookup(prev.0, v, ty, (start + k - 1) as u64) {
            Some(r) => (after_revoke(prev.0, r, own), prev.1 + revoke_order(prev.0, r, own, r, prev.0.len() as int)),
            None => prev,
        }
    }
}

/// Whether the activities that `obj` names have ids below `next`.
pub open spec fn obj_acts_below(obj: KObject, next: ActId) -> bool {
    match obj {
        KObject::Activity(v) => v < next,
        KObject::Serv(sv) => sv.owner < next,
        KObject::Sess(se) => se.serv.owner < next,
        _ => true,
    }
}

/// The objects among the removed capabilities `log` whose revocation has to reach a
/// remote tile, in removal order.
pub open spec fn remote_objs(nodes: Seq<CapNode>, log: Seq<usize>) -> Seq<KObject>
    decreases log.len(),
{
    if log.len() == 0 {
        Seq::empty()
    } else {
        let rest = remote_objs(nodes, log.drop_last());
        let o = nodes[log.last() as int].obj;
        if o.needs_remote_inval() { rest.push(o) } else { rest }
    }
}

/// The capabilities and the removal order after revoking, in creation order, every live
/// capability of `act` among the first `k` ones, each with its subtree.
pub open spec fn teardown(nodes: Seq<CapNode>, act: ActId, k: nat) -> (Seq<CapNode>, Seq<usize>)
    decreases k,
{
    if k == 0 {
        (nodes, Seq::empty())
    } else {
        let prev = teardown(nodes, act, (k - 1) as nat);
        let i = k - 1;
        if i < prev.0.len() && prev.0[i].alive && prev.0[i].act == act {
            (after_revoke(prev.0, i, true), prev.1 + revoke_order(prev.0, i, true, i, prev.0.len() as int))
        } else {
            prev
        }
    }
}

/// Tearing an activity down leaves it no capability, and changes no capability's owner or
/// object.
pub proof fn lemma_teardown_leaves_nothing(nodes: Seq<CapNode>, act: ActId, k: nat)
    requires
        k <= nodes.len(),
    ensures
        teardown(nodes, act, k).0.len() == nodes.len(),
        forall|j: int| 0 <= j < nodes.len() ==> #[trigger] teardown(nodes, act, k).0[j].act == nodes[j].act
            && teardown(nodes, act, k).0[j].obj == nodes[j].obj,
        forall|j: int| 0 <= j < k ==> !(#[trigger] teardown(nodes, act, k).0[j].alive
            && teardown(nodes, act, k).0[j].act == act),
    decreases k,
{
    if k > 0 {
        lemma_teardown_leaves_nothing(nodes, act, (k - 1) as nat);
        let prev = teardown(nodes, act, (k - 1) as nat).0;
        let i = k - 1;
        let cur = teardown(nodes, act, k).0;
        if prev[i].alive && prev[i].act == act {
            assert(in_subtree(prev, i, i));
            assert forall|j: int| 0 <= j < nodes.len() implies #[trigger] cur[j].act == nodes[j].act
                && cur[j].obj == nodes[j].obj by {
                assert(cur[j].act == prev[j].act && cur[j].obj == prev[j].obj);
                assert(teardown(nodes, act, (k - 1) as nat).0[j].act == nodes[j].act);
            }
            assert forall|j: int| 0 <= j < k implies !(#[trigger] cur[j].alive && cur[j].act == act) by {
                assert(cur[j].act == prev[j].act);
            }
        } else {
            assert(cur == prev);
        }
    }
}

/// An exchange over a session that waits for the service's answer.
pub struct PendingExchange {
    /// Token of the request to the service.
    pub event: u64,
    /// The activity whose capabilities change on the client side.
    pub act: ActId,
    /// The activity that runs the service.
    pub serv_act: ActId,
    pub crd: CapRngDesc,
    pub obtain: bool,
}

/// The kernel's capability state: the capabilities of all activities and the queue on
/// which it sends requests to services.
pub struct Kernel {
    caps: CapSpace,
    next_act: ActId,
    serv_queue: SendQueue,
}

proof fn lemma_lookup_unique(nodes: Seq<CapNode>, i: int, act: ActId, ty: CapType, sel: CapSel)
    requires
        caps_wf(nodes),
        holds(nodes, i, act, ty, sel),
    ensures
        lookup(nodes, act, ty, sel) == Some(i),
{
    let c = choose|k: int| holds(nodes, k, act, ty, sel);
    assert(holds(nodes, c, act, ty, sel));
    if c != i {
        assert(nodes[c].obj.cap_type() != nodes[i].obj.cap_type());
    }
}

/// Adding capabilities of other activities does not change what `act` holds.
proof fn lemma_lookup_other(a: Seq<CapNode>, b: Seq<CapNode>, act: ActId, ty: CapType, sel: CapSel)
    requires
        caps_wf(a),
        caps_wf(b),
        a.len() <= b.len(),
        forall|i: int| 0 <= i < a.len() ==> b[i] == a[i],
        forall|i: int| a.len() <= i < b.len() ==> b[i].act != act,
    ensures
        lookup(b, act, ty, sel) == lookup(a, act, ty, sel),
{
    if exists|i: int| holds(a, i, act, ty, sel) {
        let i = choose|i: int| holds(a, i, act, ty, sel);
        lemma_lookup_unique(a, i, act, ty, sel);
        assert(holds(b, i, act, ty, sel));
        lemma_lookup_unique(b, i, act, ty, sel);
    } else {
        assert forall|i: int| !holds(b, i, act, ty, sel) by {
            if 0 <= i < a.len() {
                assert(b[i] == a[i]);
                assert(!holds(a, i, act, ty, sel));
            }
        }
    }
}

proof fn lemma_copied_len(nodes: Seq<CapNode>, src: ActId, dst: ActId, ty: CapType, ss: u64, ds: u64, k: nat)
    requires
        ds + k <= u64::MAX,
    ensures
        copied(nodes, src, dst, ty, ss, ds, k).len() >= nodes.len(),
        forall|i: int| 0 <= i < nodes.len() ==> copied(nodes, src, dst, ty, ss, ds, k)[i] == nodes[i],
        forall|i: int| nodes.len() <= i < copied(nodes, src, dst, ty, ss, ds, k).len() ==>
            (#[trigger] copied(nodes, src, dst, ty, ss, ds, k)[i]).act == dst
            && copied(nodes, src, dst, ty, ss, ds, k)[i].alive
            && ds <= copied(nodes, src, dst, ty, ss, ds, k)[i].sel < ds + k,
    decreases k,
{
    if k > 0 {
        lemma_copied_len(nodes, src, dst, ty, ss, ds, (k - 1) as nat);
    }
}

impl Kernel {
    pub closed spec fn wf(&self) -> bool {
        &&& caps_wf(self.caps@)
        &&& self.caps@.len() < usize::MAX
        &&& forall|i: int| 0 <= i < self.caps@.len() ==> self.caps@[i].act < self.next_act
            && obj_acts_below(self.caps@[i].obj, self.next_act)
        &&& self.serv_queue@.wf()
    }

    /// All capabilities, by creation order.
    pub closed spec fn caps(&self) -> Seq<CapNode> {
        self.caps@
    }

    /// The queue towards services.
    pub closed spec fn serv_queue_model(&self) -> QueueModel {
        self.serv_queue@
    }

    pub closed spec fn next_act_id(&self) -> ActId {
        self.next_act
    }

    pub fn new() -> (r: Kernel)
        ensures
            r.wf(),
            r.caps().len() == 0,
            r.next_act_id() == 0,
            r.serv_queue_model().outbox.len() == 0,
    {
        Kernel { caps: CapSpace::new(), next_act: 0, serv_queue: SendQueue::new(0, SERV_CREDITS) }
    }

    /// Returns capability `i`.
    pub fn cap(&self, i: usize) -> (r: CapNode)
        requires
            i < self.caps().len(),
        ensures
            r == self.caps()[i as int],
    {
        self.caps.node(i)
    }

    /// Finds the capability of `act` under `sel` of name space `ty`.
    pub fn get_cap(&self, act: ActId, ty: CapType, sel: CapSel) -> (r: Option<usize>)
        requires
            self.wf(),
        ensures
            r is Some <==> lookup(self.caps(), act, ty, sel) is Some,
            r is Some ==> r->Some_0 as int == lookup(self.caps(), act, ty, sel)->Some_0,
    {
        self.caps.get(act, ty, sel)
    }

    /// Takes the requests that are to go to services.
    pub fn take_service_requests(&mut self) -> (r: Vec<crate::sendqueue::Outgoing>)
        requires
            old(self).wf(),
        ensures
            final(self).wf(),
            final(self).caps() == old(self).caps(),
            r@ == old(self).serv_queue_model().outbox,
    {
        self.serv_queue.take_outbox()
    }

    /// Creates an activity on tile `tile` with its initial capabilities: the tile under
    /// `SEL_TILE`, its kernel memory under `SEL_KMEM` and itself under `SEL_ACT`.
    pub fn create_activity(&mut self, tile: TileObject, kmem: MGateObject) -> (r: Result<ActId, Error>)
        requires
            old(self).wf(),
            old(self).caps().len() + 3 < usize::MAX,
        ensures
            final(self).wf(),
            old(self).next_act_id() == u16::MAX ==> r == Err::<ActId, Error>(Error { code: Code::NoSpace })
                && final(self).caps() == old(self).caps(),
            old(self).next_act_id() < u16::MAX ==> r == Ok::<ActId, Error>(old(self).next_act_id())
                && final(self).caps() == old(self).caps()
                    .push(CapNode { act: r->Ok_0, sel: SEL_TILE, obj: KObject::Tile(tile), parent: None, alive: true })
                    .push(CapNode { act: r->Ok_0, sel: SEL_KMEM, obj: KObject::MGate(kmem), parent: None, alive: true })
                    .push(CapNode { act: r->Ok_0, sel: SEL_ACT, obj: KObject::Activity(r->Ok_0), parent: None, alive: true }),
            final(self).serv_queue_model() == old(self).serv_queue_model(),
    {
        if self.next_act == u16::MAX {
            return Err(Error::new(Code::NoSpace));
        }
        let act = self.next_act;
        proof {
            assert forall|i: int| !holds(self.caps@, i, act, CapType::Object, SEL_TILE) by {}
        }
        self.caps.insert(act, SEL_TILE, KObject::Tile(tile), None);
        proof {
            assert forall|i: int| !holds(self.caps@, i, act, CapType::Object, SEL_KMEM) by {}
        }
        self.caps.insert(act, SEL_KMEM, KObject::MGate(kmem), None);
        proof {
            assert forall|i: int| !holds(self.caps@, i, act, CapType::Object, SEL_ACT) by {}
        }
        self.caps.insert(act, SEL_ACT, KObject::Activity(act), None);
        self.next_act = act + 1;
        proof {
            assert forall|i: int| 0 <= i < self.caps@.len() implies self.caps@[i].act < self.next_act
                && obj_acts_below(self.caps@[i].obj, self.next_act) by {
                if i < old(self).caps@.len() {
                    assert(self.caps@[i] == old(self).caps@[i]);
                }
            }
        }
        Ok(act)
    }

    /// Whether `act` has no capability in the range.
    fn range_unused(&self, act: ActId, rng: &CapRngDesc) -> (r: bool)
        ensures
            r == range_unused(self.caps(), act, *rng),
    {
        let mut i: usize = 0;
        while i < self.caps.len()
            invariant
                i <= self.caps@.len(),
                forall|j: int| 0 <= j < i ==> !(#[trigger] self.caps@[j].alive && self.caps@[j].act == act
                    && self.caps@[j].obj.cap_type() == rng.ty && rng.start <= self.caps@[j].sel < rng.start + rng.count),
            decreases self.caps@.len() - i,
        {
            let n = self.caps.node(i);
            let t = match n.obj {
                KObject::Mapping(_) => CapType::Mapping,
                _ => CapType::Object,
            };
            if n.alive && n.act == act && t == rng.ty && rng.start <= n.sel && (n.sel - rng.start) < rng.count {
                return false;
            }
            i = i + 1;
        }
        true
    }

    /// Puts a capability for `obj` into the table of `act` under `sel`, as the calls that
    /// create objects do.
    pub fn create_cap(&mut self, act: ActId, sel: CapSel, obj: KObject) -> (r: Result<usize, Error>)
        requires
            old(self).wf(),
        ensures
            final(self).wf(),
            final(self).next_act_id() == old(self).next_act_id(),
            final(self).serv_queue_model() == old(self).serv_queue_model(),
            !(act < old(self).next_act_id() && obj_acts_below(obj, old(self).next_act_id())) ==>
                r == Err::<usize, Error>(Error { code: Code::InvArgs }) && final(self).caps() == old(self).caps(),
            act < old(self).next_act_id() && obj_acts_below(obj, old(self).next_act_id())
                && lookup(old(self).caps(), act, obj.cap_type(), sel) is Some ==>
                r == Err::<usize, Error>(Error { code: Code::Exists }) && final(self).caps() == old(self).caps(),
            act < old(self).next_act_id() && obj_acts_below(obj, old(self).next_act_id())
                && lookup(old(self).caps(), act, obj.cap_type(), sel) is None && old(self).caps().len() + 1 >= usize::MAX ==>
                r == Err::<usize, Error>(Error { code: Code::NoSpace }) && final(self).caps() == old(self).caps(),
            act < old(self).next_act_id() && obj_acts_below(obj, old(self).next_act_id())
                && lookup(old(self).caps(), act, obj.cap_type(), sel) is None && old(self).caps().len() + 1 < usize::MAX ==>
                r == Ok::<usize, Error>(old(self).caps().len() as usize)
                && final(self).caps() == old(self).caps().push(CapNode { act, sel, obj, parent: None, alive: true }),
    {
        let ok = act < self.next_act && match obj {
            KObject::Activity(v) => v < self.next_act,
            KObject::Serv(sv) => sv.owner < self.next_act,
            KObject::Sess(se) => se.serv.owner < self.next_act,
            _ => true,
        };
        if !ok {
            return Err(Error::new(Code::InvArgs));
        }
        let ty = match obj {
            KObject::Mapping(_) => CapType::Mapping,
            _ => CapType::Object,
        };
        if self.caps.get(act, ty, sel).is_some() {
            return Err(Error::new(Code::Exists));
        }
        if self.caps.len() >= usize::MAX - 1 {
            return Err(Error::new(Code::NoSpace));
        }
        let r = self.caps.insert(act, sel, obj, None);
        proof {
            assert forall|i: int| 0 <= i < self.caps@.len() implies self.caps@[i].act < self.next_act
                && obj_acts_below(self.caps@[i].obj, self.next_act) by {
                if i < old(self).caps@.len() {
                    assert(self.caps@[i] == old(self).caps@[i]);
                }
            }
        }
        Ok(r)
    }

    /// Copies the capabilities of one activity's range into the other's: from `a1` to
    /// `a2`, or from `a2` to `a1` if `obtain` is set.  Nothing changes unless all checks
    /// pass.
    fn do_exchange(&mut self, a1: ActId, a2: ActId, c1: &CapRngDesc, c2: &CapRngDesc, obtain: bool) -> (r: Result<(), Error>)
        requires
            old(self).wf(),
            a1 < old(self).next_act_id(),
            a2 < old(self).next_act_id(),
        ensures
            final(self).wf(),
            final(self).next_act_id() == old(self).next_act_id(),
            final(self).serv_queue_model() == old(self).serv_queue_model(),
            !exchange_valid(old(self).caps(), a1, a2, *c1, *c2, obtain) ==>
                r == Err::<(), Error>(Error { code: Code::InvArgs }) && final(self).caps() == old(self).caps(),
            exchange_valid(old(self).caps(), a1, a2, *c1, *c2, obtain) && old(self).caps().len() + c2.count + 1 >= usize::MAX ==>
                r == Err::<(), Error>(Error { code: Code::NoSpace }) && final(self).caps() == old(self).caps(),
            exchange_valid(old(self).caps(), a1, a2, *c1, *c2, obtain) && old(self).caps().len() + c2.count + 1 < usize::MAX ==>
                r is Ok && final(self).caps() == exchanged(old(self).caps(), a1, a2, *c1, *c2, obtain),
    {
        let src = if obtain { a2 } else { a1 };
        let dst = if obtain { a1 } else { a2 };
        let src_rng = if obtain { *c2 } else { *c1 };
        let dst_rng = if obtain { *c1 } else { *c2 };

        if a1 == a2 {
            return Err(Error::new(Code::InvArgs));
        }
        if c1.ty != c2.ty {
            return Err(Error::new(Code::InvArgs));
        }
        if (obtain && c2.count > c1.count) || (!obtain && c2.count != c1.count) {
            return Err(Error::new(Code::InvArgs));
        }
        if c1.start > u64::MAX - c1.count || c2.start > u64::MAX - c2.count {
            return Err(Error::new(Code::InvArgs));
        }
        if !self.range_unused(dst, &dst_rng) {
            return Err(Error::new(Code::InvArgs));
        }
        if c2.count >= (usize::MAX - 1 - self.caps.len()) as u64 {
            return Err(Error::new(Code::NoSpace));
        }

        let ghost o = self.caps@;
        let ty = c1.ty;
        let mut i: u64 = 0;
        while i < c2.count
            invariant
                old(self).wf(),
                o == old(self).caps@,
                self.next_act == old(self).next_act,
                self.serv_queue@ == old(self).serv_queue@,
                caps_wf(self.caps@),
                src != dst,
                src < self.next_act,
                dst < self.next_act,
                i <= c2.count,
                c2.count <= dst_rng.count,
                c2.count <= src_rng.count,
                src_rng.start + src_rng.count <= u64::MAX,
                dst_rng.start + dst_rng.count <= u64::MAX,
                o.len() + c2.count + 1 < usize::MAX,
                range_unused(o, dst, dst_rng),
                dst_rng.ty == ty,
                self.caps@ == copied(o, src, dst, ty, src_rng.start, dst_rng.start, i as nat),
                self.caps@.len() <= o.len() + i,
                forall|j: int| 0 <= j < self.caps@.len() ==> self.caps@[j].act < self.next_act
                    && obj_acts_below(self.caps@[j].obj, self.next_act),
            decreases c2.count - i,
        {
            let src_sel = src_rng.start + i;
            let dst_sel = dst_rng.start + i;
            proof {
                lemma_copied_len(o, src, dst, ty, src_rng.start, dst_rng.start, i as nat);
                lemma_lookup_other(o, self.caps@, src, ty, src_sel);
            }
            match self.caps.get(src, ty, src_sel) {
                Some(idx) => {
                    let obj = self.caps.node(idx).obj;
                    proof {
                        assert forall|j: int| !holds(self.caps@, j, dst, obj.cap_type(), dst_sel) by {
                            if 0 <= j < o.len() {
                                assert(self.caps@[j] == o[j]);
                            }
                        }
                    }
                    self.caps.insert(dst, dst_sel, obj, Some(idx));
                },
                None => {},
            }
            i = i + 1;
        }
        Ok(())
    }

    /// Exchanges capabilities with the activity that capability `act_sel` of `act` refers to:
    /// `own` is the range of `act`, the other range starts at `other_sel` and is as long.
    pub fn exchange(&mut self, act: ActId, act_sel: CapSel, own: CapRngDesc, other_sel: CapSel, obtain: bool) -> (r: Result<(), Error>)
        requires
            old(self).wf(),
        ensures
            final(self).wf(),
            final(self).next_act_id() == old(self).next_act_id(),
            final(self).serv_queue_model() == old(self).serv_queue_model(),
            r is Err ==> final(self).caps() == old(self).caps(),
            ({
                let other = CapRngDesc { ty: own.ty, start: other_sel, count: own.count };
                let caps = old(self).caps();
                match act_cap(caps, act, act_sel) {
                    None => r == Err::<(), Error>(Error { code: Code::InvArgs }),
                    Some(v) => {
                        &&& !exchange_valid(caps, act, v, own, other, obtain) ==> r == Err::<(), Error>(Error { code: Code::InvArgs })
                        &&& exchange_valid(caps, act, v, own, other, obtain) && caps.len() + own.count + 1 >= usize::MAX
                            ==> r == Err::<(), Error>(Error { code: Code::NoSpace })
                        &&& exchange_valid(caps, act, v, own, other, obtain) && caps.len() + own.count + 1 < usize::MAX
                            ==> r is Ok && final(self).caps() == exchanged(caps, act, v, own, other, obtain)
                    },
                }
            }),
    {
        let other = CapRngDesc { ty: own.ty, start: other_sel, count: own.count };
        match self.caps.get(act, CapType::Object, act_sel) {
            Some(i) => {
                let n = self.caps.node(i);
                match n.obj {
                    KObject::Activity(v) => self.do_exchange(act, v, &own, &other, obtain),
                    _ => Err(Error::new(Code::InvArgs)),
                }
            },
            None => Err(Error::new(Code::InvArgs)),
        }
    }

    /// Starts an exchange over session `sess_sel` of `act` with the activity that
    /// `act_sel` refers to: the session's service gets an obtain (or delegate) request for
    /// `crd.count` capabilities with the arguments `args`.  The caller waits for the reply
    /// and hands it to `exchange_over_sess_reply`.
    pub fn exchange_over_sess(&mut self, act: ActId, act_sel: CapSel, sess_sel: CapSel, crd: CapRngDesc, obtain: bool, args: &Vec<u64>) -> (r: Result<PendingExchange, Error>)
        requires
            old(self).wf(),
        ensures
            final(self).wf(),
            final(self).caps() == old(self).caps(),
            final(self).next_act_id() == old(self).next_act_id(),
            ({
                let caps = old(self).caps();
                let sess = lookup(caps, act, CapType::Object, sess_sel);
                if act_cap(caps, act, act_sel) is None || sess is None || !(caps[sess->Some_0].obj is Sess) {
                    r == Err::<PendingExchange, Error>(Error { code: Code::InvArgs })
                        && final(self).serv_queue_model() == old(self).serv_queue_model()
                } else {
                    let se = caps[sess->Some_0].obj->Sess_0;
                    let msg = seq![if obtain { SERV_OBTAIN } else { SERV_DELEGATE }, se.ident, crd.count] + args@;
                    let q = old(self).serv_queue_model();
                    &&& send_post(q, final(self).serv_queue_model(), 0, se.creator, msg,
                        match r { Ok(p) => Ok::<u64, Error>(p.event), Err(e) => Err::<u64, Error>(e) })
                    &&& r is Ok ==> r->Ok_0.act == act_cap(caps, act, act_sel)->Some_0
                        && r->Ok_0.serv_act == se.serv.owner && r->Ok_0.crd == crd && r->Ok_0.obtain == obtain
                        && r->Ok_0.act < old(self).next_act_id() && r->Ok_0.serv_act < old(self).next_act_id()
                }
            }),
    {
        let v = match self.caps.get(act, CapType::Object, act_sel) {
            Some(i) => match self.caps.node(i).obj {
                KObject::Activity(v) => v,
                _ => return Err(Error::new(Code::InvArgs)),
            },
            None => return Err(Error::new(Code::InvArgs)),
        };
        let se = match self.caps.get(act, CapType::Object, sess_sel) {
            Some(i) => match self.caps.node(i).obj {
                KObject::Sess(se) => se,
                _ => return Err(Error::new(Code::InvArgs)),
            },
            None => return Err(Error::new(Code::InvArgs)),
        };
        let op = if obtain { SERV_OBTAIN } else { SERV_DELEGATE };
        let mut msg: Vec<u64> = vec![op, se.ident, crd.count];
        let mut j: usize = 0;
        while j < args.len()
            invariant
                j <= args.len(),
                msg@ == seq![op, se.ident, crd.count] + args@.take(j as int),
            decreases args.len() - j,
        {
            msg.push(args[j]);
            j = j + 1;
            assert(msg@ =~= seq![op, se.ident, crd.count] + args@.take(j as int));
        }
        assert(args@.take(args.len() as int) =~= args@);
        match self.serv_queue.send(0, se.creator, msg) {
            Ok(event) => Ok(PendingExchange { event, act: v, serv_act: se.serv.owner, crd, obtain }),
            Err(e) => Err(e),
        }
    }

    /// Finishes an exchange over a session with the service's reply
    /// `[status, type, start, count, args...]`: a status other than 0 is the error the
    /// service reports and changes nothing; else the capabilities in the range the service
    /// names are exchanged, and the service's arguments are returned.
    pub fn exchange_over_sess_reply(&mut self, pend: &PendingExchange, reply: &Vec<u64>) -> (r: Result<Vec<u64>, Error>)
        requires
            old(self).wf(),
            pend.act < old(self).next_act_id(),
            pend.serv_act < old(self).next_act_id(),
        ensures
            final(self).wf(),
            final(self).next_act_id() == old(self).next_act_id(),
            final(self).serv_queue_model() == old(self).serv_queue_model(),
            r is Err ==> final(self).caps() == old(self).caps(),
            reply.len() < 4 ==> r == Err::<Vec<u64>, Error>(Error { code: Code::InvArgs }),
            reply.len() >= 4 && reply@[0] != 0 ==> r == Err::<Vec<u64>, Error>(
                Error { code: code_of((reply@[0] & 0xFFFF_FFFF) as u32) }),
            reply.len() >= 4 && reply@[0] == 0 ==> ({
                let caps = old(self).caps();
                let srng = CapRngDesc {
                    ty: if reply@[1] == 1 { CapType::Mapping } else { CapType::Object },
                    start: reply@[2],
                    count: reply@[3],
                };
                &&& !exchange_valid(caps, pend.act, pend.serv_act, pend.crd, srng, pend.obtain)
                    ==> r == Err::<Vec<u64>, Error>(Error { code: Code::InvArgs })
                &&& exchange_valid(caps, pend.act, pend.serv_act, pend.crd, srng, pend.obtain)
                    && caps.len() + srng.count + 1 >= usize::MAX ==> r == Err::<Vec<u64>, Error>(Error { code: Code::NoSpace })
                &&& exchange_valid(caps, pend.act, pend.serv_act, pend.crd, srng, pend.obtain)
                    && caps.len() + srng.count + 1 < usize::MAX ==> r is Ok && r->Ok_0@ == reply@.skip(4)
                    && final(self).caps() == exchanged(caps, pend.act, pend.serv_act, pend.crd, srng, pend.obtain)
            }),
    {
        if reply.len() < 4 {
            return Err(Error::new(Code::InvArgs));
        }
        let res = reply[0];
        if res != 0 {
            assert(res & 0xFFFF_FFFF <= 0xFFFF_FFFF) by (bit_vector);
            return Err(Error::new(Code::from_raw((res & 0xFFFF_FFFF) as u32)));
        }
        let srng = CapRngDesc {
            ty: if reply[1] == 1 { CapType::Mapping } else { CapType::Object },
            start: reply[2],
            count: reply[3],
        };
        self.do_exchange(pend.act, pend.serv_act, &pend.crd, &srng, pend.obtain)?;
        let mut out: Vec<u64> = Vec::new();
        let mut j: usize = 4;
        while j < reply.len()
            invariant
                4 <= j <= reply.len(),
                out@ == reply@.subrange(4, j as int),
            decreases reply.len() - j,
        {
            out.push(reply[j]);
            j = j + 1;
            assert(out@ =~= reply@.subrange(4, j as int));
        }
        Ok(out)
    }

    /// Revokes the capabilities in range `crd` of the activity that capability `act_sel` of
    /// `act` refers to, with everything derived from them; with `own` false, the
    /// capabilities in the range stay and only what was derived from them goes.  The first
    /// three object selectors cannot be revoked.  Returns the removed capabilities in
    /// removal order.
    pub fn revoke(&mut self, act: ActId, act_sel: CapSel, crd: CapRngDesc, own: bool) -> (r: Result<Vec<usize>, Error>)
        requires
            old(self).wf(),
        ensures
            final(self).wf(),
            final(self).next_act_id() == old(self).next_act_id(),
            final(self).serv_queue_model() == old(self).serv_queue_model(),
            r is Err ==> final(self).caps() == old(self).caps() && r->Err_0.code == Code::InvArgs,
            ({
                let caps = old(self).caps();
                let bad = (crd.ty == CapType::Object && crd.start <= SEL_ACT) || act_cap(caps, act, act_sel) is None
                    || !range_fits(crd);
                &&& bad <==> r is Err
                &&& r is Ok ==> ({
                    let res = revoke_range(caps, act_cap(caps, act, act_sel)->Some_0, crd.ty, crd.start, crd.count as nat, own);
                    final(self).caps() == res.0 && r->Ok_0@ == res.1
                })
            }),
    {
        if crd.ty == CapType::Object && crd.start <= SEL_ACT {
            return Err(Error::new(Code::InvArgs));
        }
        let v = match self.caps.get(act, CapType::Object, act_sel) {
            Some(i) => match self.caps.node(i).obj {
                KObject::Activity(v) => v,
                _ => return Err(Error::new(Code::InvArgs)),
            },
            None => return Err(Error::new(Code::InvArgs)),
        };
        if crd.start > u64::MAX - crd.count {
            return Err(Error::new(Code::InvArgs));
        }
        let ghost o = self.caps@;
        let mut all: Vec<usize> = Vec::new();
        let mut i: u64 = 0;
        while i < crd.count
            invariant
                old(self).wf(),
                o == old(self).caps@,
                self.next_act == old(self).next_act,
                self.serv_queue@ == old(self).serv_queue@,
                i <= crd.count,
                crd.start + crd.count <= u64::MAX,
                caps_wf(self.caps@),
                self.caps@.len() == o.len(),
                forall|j: int| 0 <= j < o.len() ==> #[trigger] self.caps@[j].act == o[j].act && self.caps@[j].obj == o[j].obj,
                (self.caps@, all@) == revoke_range(o, v, crd.ty, crd.start, i as nat, own),
            decreases crd.count - i,
        {
            let sel = crd.start + i;
            match self.caps.get(v, crd.ty, sel) {
                Some(root) => {
                    let mut log = self.caps.revoke(root, own);
                    all.append(&mut log);
                },
                None => {},
            }
            i = i + 1;
        }
        proof {
            assert forall|j: int| 0 <= j < self.caps@.len() implies self.caps@[j].act < self.next_act
                && obj_acts_below(self.caps@[j].obj, self.next_act) by {
                assert(self.caps@[j].act == o[j].act && self.caps@[j].obj == o[j].obj);
            }
        }
        Ok(all)
    }

    /// The objects among the removed capabilities `log` whose revocation has to reach a
    /// remote tile (endpoints, mappings, receive gates), in removal order.
    pub fn remote_invalidations(&self, log: &Vec<usize>) -> (r: Vec<KObject>)
        requires
            forall|k: int| 0 <= k < log.len() ==> log@[k] < self.caps().len(),
        ensures
            r@ == remote_objs(self.caps(), log@),
    {
        let mut r: Vec<KObject> = Vec::new();
        let mut k: usize = 0;
        while k < log.len()
            invariant
                k <= log.len(),
                forall|m: int| 0 <= m < log.len() ==> log@[m] < self.caps@.len(),
                r@ == remote_objs(self.caps@, log@.take(k as int)),
            decreases log.len() - k,
        {
            let o = self.caps.node(log[k]).obj;
            proof {
                assert(log@.take(k + 1).drop_last() =~= log@.take(k as int));
            }
            if o.remote_inval() {
                r.push(o);
            }
            k = k + 1;
        }
        assert(log@.take(log.len() as int) =~= log@);
        r
    }

    /// Removes activity `act`: all its capabilities are revoked, the oldest first, each
    /// together with everything derived from it.  Returns the removed capabilities in
    /// removal order.
    pub fn destroy_activity(&mut self, act: ActId) -> (r: Vec<usize>)
        requires
            old(self).wf(),
        ensures
            final(self).wf(),
            final(self).next_act_id() == old(self).next_act_id(),
            final(self).serv_queue_model() == old(self).serv_queue_model(),
            final(self).caps() == teardown(old(self).caps(), act, old(self).caps().len()).0,
            r@ == teardown(old(self).caps(), act, old(self).caps().len()).1,
            forall|j: int| 0 <= j < final(self).caps().len() ==> !(#[trigger] final(self).caps()[j].alive
                && final(self).caps()[j].act == act),
    {
        let ghost o = self.caps@;
        let mut all: Vec<usize> = Vec::new();
        let mut i: usize = 0;
        while i < self.caps.len()
            invariant
                old(self).wf(),
                o == old(self).caps@,
                self.next_act == old(self).next_act,
                self.serv_queue@ == old(self).serv_queue@,
                i <= o.len(),
                caps_wf(self.caps@),
                self.caps@.len() == o.len(),
                forall|j: int| 0 <= j < o.len() ==> #[trigger] self.caps@[j].act == o[j].act && self.caps@[j].obj == o[j].obj,
                (self.caps@, all@) == teardown(o, act, i as nat),
            decreases o.len() - i,
        {
            let n = self.caps.node(i);
            if n.alive && n.act == act {
                let mut log = self.caps.revoke(i, true);
                all.append(&mut log);
            }
            i = i + 1;
        }
        proof {
            assert forall|j: int| 0 <= j < self.caps@.len() implies self.caps@[j].act < self.next_act
                && obj_acts_below(self.caps@[j].obj, self.next_act) by {
                assert(self.caps@[j].act == o[j].act && self.caps@[j].obj == o[j].obj);
            }
            lemma_teardown_leaves_nothing(o, act, o.len());
        }
        all
    }
}

} // verus!
