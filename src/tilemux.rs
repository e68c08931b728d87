use vstd::prelude::*;
use crate::error::{Code, Error};
use crate::fabric::{Fabric, clear_ep, inv_refused, inv_unread, reg_index};
use crate::kobj::{EpObject, MGateObject, RGateObject, SGateObject, TileObject};
use crate::ktcu::{
    config_mem, config_recv, config_send, inv_replies, inv_reply_remote, invalidate_ep_remote, scan_slots,
    slot_occupied, write_ep, write_ep_remote, KPEX_EP,
};
use crate::sendqueue::{Outgoing, QueueModel, SendQueue, send_post};
use crate::tcu::{
    ActId, EpId, TileId, AVAIL_EPS, EP_REGS, FIRST_USER_EP, INVAL_ACT, KPEX_REP, KPEX_SEP,
    PMEM_PROT_EPS, TILEMUX_ACT, TMSIDE_REP, TMSIDE_RPLEP, mem_regs, recv_occupied, recv_regs,
    recv_reply_eps, send_regs,
    valid_recv_params,
};

verus! {

/// Id of the default quotas of a tile.
pub const DEF_QUOTA_ID: u64 = 1;
/// Order of the size of the multiplexer's receive buffer for kernel calls (and its messages).
pub const KPEX_RBUF_ORD: u32 = 6;
/// Order of the size of the multiplexer's receive buffer for sidecalls (and its messages).
pub const TMUP_RBUF_ORD: u32 = 7;

/// Whether endpoints `start .. start + count` are all free in `eps`.
pub open spec fn range_free(eps: Seq<bool>, start: int, count: int) -> bool {
    forall|i: int| start <= i < start + count ==> !eps[i]
}

/// Whether a run of `count` endpoints from `start` can be handed to an activity.
pub open spec fn fits(eps: Seq<bool>, start: int, count: int) -> bool {
    FIRST_USER_EP <= start && start + count <= AVAIL_EPS && range_free(eps, start, count)
}

/// `eps` with endpoints `start .. start + count` set to `used`.
pub open spec fn mark_eps(eps: Seq<bool>, start: int, count: int, used: bool) -> Seq<bool> {
    Seq::new(eps.len(), |i: int| if start <= i < start + count { used } else { eps[i] })
}

/// The endpoints that are taken when a tile is set up.
pub open spec fn initial_eps(host: bool) -> Seq<bool> {
    Seq::new(AVAIL_EPS as nat, |i: int| (i == 0 && !host) || (PMEM_PROT_EPS <= i < FIRST_USER_EP))
}

/// The kernel's representative of a tile: the activities that live there, the tile's
/// endpoints, and the queue on which the kernel sends sidecalls to the tile's multiplexer.
pub struct TileMux {
    tile: TileObject,
    acts: Vec<ActId>,
    queue: SendQueue,
    pmp: Vec<EpObject>,
    eps: Vec<bool>,
    host: bool,
}

impl TileMux {
    pub closed spec fn wf(&self) -> bool {
        &&& self.eps.len() == AVAIL_EPS
        &&& self.pmp.len() == PMEM_PROT_EPS
        &&& self.queue@.wf()
        &&& forall|i: int| 0 <= i < PMEM_PROT_EPS ==> self.pmp@[i].ep == i && self.pmp@[i].tile == self.tile.id
    }

    /// Which endpoints are taken.
    pub closed spec fn eps(&self) -> Seq<bool> {
        self.eps@
    }

    /// The activities that live on the tile.
    pub closed spec fn acts(&self) -> Seq<ActId> {
        self.acts@
    }

    /// The sidecall queue.
    pub closed spec fn queue_model(&self) -> QueueModel {
        self.queue@
    }

    pub closed spec fn tile_obj(&self) -> TileObject {
        self.tile
    }

    /// Whether the kernel runs on a host, where tiles have no multiplexer to talk to.
    pub closed spec fn is_host(&self) -> bool {
        self.host
    }

    pub closed spec fn pmp_objs(&self) -> Seq<EpObject> {
        self.pmp@
    }

    /// Creates the representative of tile `tile`, with the memory-protection endpoints and
    /// the multiplexer's own endpoints taken; on a tile with a multiplexer, endpoint 0 is
    /// taken too, for the multiplexer's memory.
    pub fn new(tile: TileId, shared: bool, host: bool) -> (r: TileMux)
        ensures
            r.wf(),
            r.eps() == initial_eps(host),
            r.acts().len() == 0,
            r.is_host() == host,
            r.tile_obj() == (TileObject {
                id: tile,
                eps_quota: (AVAIL_EPS - FIRST_USER_EP) as u32,
                time_quota: DEF_QUOTA_ID,
                pt_quota: DEF_QUOTA_ID,
                shared,
            }),
            r.queue_model().wf(),
            r.queue_model().outbox.len() == 0,
            r.queue_model().in_flight.len() == 0,
            r.queue_model().pending.len() == 0,
            r.queue_model().replies.len() == 0,
            forall|i: int| 0 <= i < PMEM_PROT_EPS ==> r.pmp_objs()[i] == (EpObject {
                is_std: false, act: None, ep: i as u16, replies: 0, tile }),
    {
        let tile_obj = TileObject {
            id: tile,
            eps_quota: (AVAIL_EPS - FIRST_USER_EP) as u32,
            time_quota: DEF_QUOTA_ID,
            pt_quota: DEF_QUOTA_ID,
            shared,
        };
        let mut pmp: Vec<EpObject> = Vec::new();
        let mut ep: u16 = 0;
        while ep < PMEM_PROT_EPS
            invariant
                ep <= PMEM_PROT_EPS,
                pmp.len() == ep,
                forall|i: int| 0 <= i < ep ==> pmp@[i] == (EpObject {
                    is_std: false, act: None, ep: i as u16, replies: 0, tile }),
            decreases PMEM_PROT_EPS - ep,
        {
            pmp.push(EpObject { is_std: false, act: None, ep, replies: 0, tile });
            ep = ep + 1;
        }
        let mut eps: Vec<bool> = Vec::new();
        let mut i: u16 = 0;
        while i < AVAIL_EPS
            invariant
                i <= AVAIL_EPS,
                eps.len() == i,
                forall|j: int| 0 <= j < i ==> eps@[j] == initial_eps(host)[j],
            decreases AVAIL_EPS - i,
        {
            eps.push((i == 0 && !host) || (PMEM_PROT_EPS <= i && i < FIRST_USER_EP));
            i = i + 1;
        }
        assert(eps@ =~= initial_eps(host));
        TileMux { tile: tile_obj, acts: Vec::new(), queue: SendQueue::new(tile as u64, 1), pmp, eps, host }
    }

    /// Returns whether any activity lives on the tile.
    pub fn has_activities(&self) -> (r: bool)
        ensures
            r == (self.acts().len() > 0),
    {
        self.acts.len() > 0
    }

    /// Records that activity `act` lives on the tile.
    pub fn add_activity(&mut self, act: ActId)
        requires
            old(self).wf(),
        ensures
            final(self).wf(),
            final(self).acts() == old(self).acts().push(act),
            final(self).eps() == old(self).eps(),
            final(self).queue_model() == old(self).queue_model(),
            final(self).tile_obj() == old(self).tile_obj(),
            final(self).is_host() == old(self).is_host(),
    {
        self.acts.push(act);
    }

    /// Forgets every record of activity `act` on the tile.
    pub fn rem_activity(&mut self, act: ActId)
        requires
            old(self).wf(),
            old(self).acts().len() > 0,
        ensures
            final(self).wf(),
            final(self).acts() == old(self).acts().filter(|x: ActId| x != act),
            final(self).eps() == old(self).eps(),
            final(self).queue_model() == old(self).queue_model(),
            final(self).tile_obj() == old(self).tile_obj(),
            final(self).is_host() == old(self).is_host(),
    {
        let mut kept: Vec<ActId> = Vec::new();
        let mut i: usize = 0;
        while i < self.acts.len()
            invariant
                i <= self.acts.len(),
                kept@ == self.acts@.take(i as int).filter(|x: ActId| x != act),
            decreases self.acts.len() - i,
        {
            proof {
                assert(self.acts@.take(i + 1) == self.acts@.take(i as int).push(self.acts@[i as int]));
                self.acts@.take(i as int).lemma_filter_push(self.acts@[i as int], |x: ActId| x != act);
            }
            if self.acts[i] != act {
                kept.push(self.acts[i]);
            }
            i = i + 1;
        }
        assert(self.acts@.take(self.acts.len() as int) == self.acts@);
        self.acts = kept;
    }

    /// Returns the tile object.
    pub fn tile(&self) -> (r: &TileObject)
        ensures
            *r == self.tile_obj(),
    {
        &self.tile
    }

    /// Returns the id of the tile.
    pub fn tile_id(&self) -> (r: TileId)
        ensures
            r == self.tile_obj().id,
    {
        self.tile.id
    }

    /// Returns the object of memory-protection endpoint `ep`.
    pub fn pmp_ep(&self, ep: EpId) -> (r: &EpObject)
        requires
            self.wf(),
            ep < PMEM_PROT_EPS,
        ensures
            *r == self.pmp_objs()[ep as int],
            r.ep == ep,
            r.tile == self.tile_obj().id,
    {
        &self.pmp[ep as usize]
    }

    /// Finds the first run of `count` free endpoints at or above `FIRST_USER_EP`.
    pub fn find_eps(&self, count: u32) -> (r: Result<EpId, Error>)
        requires
            self.wf(),
        ensures
            r is Ok <==> exists|s: int| fits(self.eps(), s, count as int),
            r is Ok ==> fits(self.eps(), r->Ok_0 as int, count as int),
            r is Ok ==> forall|s: int| FIRST_USER_EP <= s < r->Ok_0 ==> !fits(self.eps(), s, count as int),
            r is Err ==> r->Err_0.code == Code::NoSpace,
    {
        let ghost eps = self.eps@;
        let mut start: u64 = FIRST_USER_EP as u64;
        let mut bit: u64 = start;
        while bit < start + count as u64 && bit < AVAIL_EPS as u64
            invariant
                self.eps.len() == AVAIL_EPS,
                eps == self.eps@,
                FIRST_USER_EP <= start <= bit <= AVAIL_EPS,
                bit <= start + count,
                range_free(eps, start as int, (bit - start) as int),
                forall|s: int| FIRST_USER_EP <= s < start ==> !fits(eps, s, count as int),
            decreases AVAIL_EPS - bit,
        {
            if self.eps[bit as usize] {
                assert forall|s: int| FIRST_USER_EP <= s < bit + 1 implies !fits(eps, s, count as int) by {
                    if s >= start {
                        assert(s <= bit < s + count);
                    }
                }
                start = bit + 1;
            }
            bit = bit + 1;
        }
        if bit != start + count as u64 {
            assert forall|s: int| !fits(eps, s, count as int) by {
                if s >= start {
                    assert(s + count > AVAIL_EPS);
                }
            }
            assert(!exists|s: int| fits(self.eps(), s, count as int));
            Err(Error::new(Code::NoSpace))
        } else {
            assert(fits(eps, start as int, count as int));
            assert(fits(self.eps(), start as int, count as int));
            Ok(start as EpId)
        }
    }

    /// Returns whether endpoints `start .. start + count` are all free.
    pub fn eps_free(&self, start: EpId, count: u32) -> (r: bool)
        requires
            self.wf(),
            start + count <= AVAIL_EPS,
        ensures
            r == range_free(self.eps(), start as int, count as int),
    {
        let end: u32 = start as u32 + count;
        let mut ep: u32 = start as u32;
        while ep < end
            invariant
                self.eps.len() == AVAIL_EPS,
                start <= ep <= end,
                end == start + count,
                end <= AVAIL_EPS,
                range_free(self.eps@, start as int, ep - start),
            decreases end - ep,
        {
            if self.eps[ep as usize] {
                return false;
            }
            ep = ep + 1;
        }
        true
    }

    /// Marks endpoints `start .. start + count` as taken; they have to be free.
    pub fn alloc_eps(&mut self, start: EpId, count: u32)
        requires
            old(self).wf(),
            start + count <= AVAIL_EPS,
            range_free(old(self).eps(), start as int, count as int),
        ensures
            final(self).wf(),
            final(self).eps() == mark_eps(old(self).eps(), start as int, count as int, true),
            final(self).acts() == old(self).acts(),
            final(self).queue_model() == old(self).queue_model(),
            final(self).tile_obj() == old(self).tile_obj(),
            final(self).is_host() == old(self).is_host(),
    {
        self.mark(start, count, true);
    }

    /// Marks endpoints `start .. start + count` as free again; they have to be taken.
    pub fn free_eps(&mut self, start: EpId, count: u32)
        requires
            old(self).wf(),
            start + count <= AVAIL_EPS,
            forall|i: int| start <= i < start + count ==> old(self).eps()[i],
        ensures
            final(self).wf(),
            final(self).eps() == mark_eps(old(self).eps(), start as int, count as int, false),
            final(self).acts() == old(self).acts(),
            final(self).queue_model() == old(self).queue_model(),
            final(self).tile_obj() == old(self).tile_obj(),
            final(self).is_host() == old(self).is_host(),
    {
        self.mark(start, count, false);
    }

    fn mark(&mut self, start: EpId, count: u32, used: bool)
        requires
            old(self).wf(),
            start + count <= AVAIL_EPS,
        ensures
            final(self).wf(),
            final(self).eps() == mark_eps(old(self).eps(), start as int, count as int, used),
            final(self).acts() == old(self).acts(),
            final(self).queue_model() == old(self).queue_model(),
            final(self).tile_obj() == old(self).tile_obj(),
            final(self).is_host() == old(self).is_host(),
            final(self).pmp_objs() == old(self).pmp_objs(),
    {
        let end: u32 = start as u32 + count;
        let mut ep: u32 = start as u32;
        while ep < end
            invariant
                old(self).wf(),
                self.eps.len() == AVAIL_EPS,
                self.pmp@ == old(self).pmp@,
                self.tile == old(self).tile,
                self.queue@ == old(self).queue@,
                self.acts@ == old(self).acts@,
                self.host == old(self).host,
                start <= ep <= end,
                end == start + count,
                end <= AVAIL_EPS,
                self.eps@ == mark_eps(old(self).eps@, start as int, ep - start, used),
            decreases end - ep,
        {
            self.eps.set(ep as usize, used);
            ep = ep + 1;
            assert(self.eps@ =~= mark_eps(old(self).eps@, start as int, ep - start, used));
        }
    }

    /// The activity id that endpoints of activity `act` carry: only a shared tile tells
    /// activities apart.
    fn ep_activity_id(&self, act: ActId) -> (r: ActId)
        ensures
            r == ep_act_id(self.tile_obj(), act),
    {
        if self.tile.shared { act } else { INVAL_ACT }
    }
}

/// The activity id that endpoints of `act` carry on `tile`.
pub open spec fn ep_act_id(tile: TileObject, act: ActId) -> ActId {
    if tile.shared { act } else { INVAL_ACT }
}

/// Once a run of endpoints is allocated, no run that overlaps it is reported free, so no
/// endpoint can be handed out twice.
pub proof fn lemma_allocated_eps_not_free(eps: Seq<bool>, s1: int, c1: int, s2: int, c2: int)
    requires
        eps.len() == AVAIL_EPS,
        0 <= s1,
        0 < c1,
        0 < c2,
        s1 + c1 <= AVAIL_EPS,
        s1 < s2 + c2,
        s2 < s1 + c1,
    ensures
        !range_free(mark_eps(eps, s1, c1, true), s2, c2),
{
    let e = if s1 > s2 { s1 } else { s2 };
    assert(mark_eps(eps, s1, c1, true)[e]);
}

} // verus!

verus! {

/// Sidecall opcodes (first word of each request).
pub const SC_ACT_INIT: u64 = 0;
pub const SC_ACT_CTRL: u64 = 1;
pub const SC_MAP: u64 = 2;
pub const SC_TRANSLATE: u64 = 3;
pub const SC_REM_MSGS: u64 = 4;
pub const SC_EP_INVAL: u64 = 5;
pub const SC_DERIVE_QUOTA: u64 = 6;
pub const SC_GET_QUOTA: u64 = 7;
pub const SC_SET_QUOTA: u64 = 8;
pub const SC_REMOVE_QUOTAS: u64 = 9;
pub const SC_RESET_STATS: u64 = 10;
/// Opcode of the call with which a multiplexer reports that an activity exited.
pub const TM_EXIT: u64 = 0;
/// Mask of the offset within a page.
pub const PAGE_MASK: u64 = 0xFFF;

/// How an optional value travels in a sidecall: a presence word, then the value.
pub open spec fn opt_words(v: Option<u64>) -> Seq<u64> {
    match v {
        Some(x) => seq![1u64, x],
        None => seq![0u64, 0u64],
    }
}

fn push_opt(msg: &mut Vec<u64>, v: Option<u64>)
    ensures
        final(msg)@ == old(msg)@ + opt_words(v),
{
    match v {
        Some(x) => {
            msg.push(1);
            msg.push(x);
        },
        None => {
            msg.push(0);
            msg.push(0);
        },
    }
    assert(msg@ =~= old(msg)@ + opt_words(v));
}

/// A quota: its id, its total amount and what is left of it.
#[derive(Clone, Copy, Debug, PartialEq, Eq, Structural)]
pub struct Quota {
    pub id: u64,
    pub total: u64,
    pub left: u64,
}

/// The outcome of a request to a tile multiplexer: finished at once (on a host, where
/// there is no multiplexer), or sent, with the token its reply will carry.
pub enum Sidecall<T> {
    Done(T),
    Sent(u64),
}

/// What sending a sidecall does to the queue.
pub open spec fn sidecall_post(host: bool, o: QueueModel, n: QueueModel, act: Option<ActId>, act_alive: bool, msg: Seq<u64>, r: Result<u64, Error>) -> bool {
    if host {
        r == Err::<u64, Error>(Error { code: Code::NotSup }) && n == o
    } else if act is Some && !act_alive {
        r == Err::<u64, Error>(Error { code: Code::ActivityGone }) && n == o
    } else {
        send_post(o, n, TMSIDE_REP, 0, msg, r)
    }
}

/// A fire-and-forget result, seen as the token it was sent with.
pub open spec fn with_token(r: Result<(), Error>, e: u64) -> Result<u64, Error> {
    match r {
        Ok(_) => Ok(e),
        Err(x) => Err(x),
    }
}

/// The token of a request that was sent.
pub open spec fn token_of<T>(r: Result<Sidecall<T>, Error>) -> Result<u64, Error> {
    match r {
        Ok(Sidecall::Sent(e)) => Ok(e),
        Ok(Sidecall::Done(_)) => Err(Error { code: Code::NotSup }),
        Err(x) => Err(x),
    }
}

/// What a request-reply sidecall returns: finished at once on a host, else the token.
pub open spec fn request_post<T>(host: bool, o: QueueModel, n: QueueModel, act: Option<ActId>, act_alive: bool, msg: Seq<u64>, done: T, r: Result<Sidecall<T>, Error>) -> bool {
    if host {
        r == Ok::<Sidecall<T>, Error>(Sidecall::Done(done)) && n == o
    } else {
        sidecall_post(host, o, n, act, act_alive, msg, token_of(r)) && !(r matches Ok(Sidecall::Done(_)))
    }
}

/// Decodes a sidecall reply `[error, val1, val2]`: the two values, or the error the
/// multiplexer reported.
pub fn decode_response(reply: &Vec<u64>) -> (r: Result<(u64, u64), Error>)
    ensures
        reply.len() < 3 ==> r == Err::<(u64, u64), Error>(Error { code: Code::InvArgs }),
        reply.len() >= 3 && reply@[0] == 0 ==> r == Ok::<(u64, u64), Error>((reply@[1], reply@[2])),
        reply.len() >= 3 && reply@[0] != 0 ==> r == Err::<(u64, u64), Error>(
            Error { code: crate::error::code_of((reply@[0] & 0xFFFF_FFFF) as u32) }),
{
    if reply.len() < 3 {
        return Err(Error::new(Code::InvArgs));
    }
    if reply[0] == 0 {
        Ok((reply[1], reply[2]))
    } else {
        let w = reply[0];
        assert(w & 0xFFFF_FFFF <= 0xFFFF_FFFF) by (bit_vector);
        Err(Error::new(Code::from_raw((w & 0xFFFF_FFFF) as u32)))
    }
}

impl TileMux {
    /// Sets up the endpoints through which the kernel and the tile's multiplexer talk: a
    /// send endpoint to the kernel, a receive endpoint for the kernel's replies at `rbuf`,
    /// and a receive endpoint for sidecalls right behind it.
    pub fn init(&mut self, fab: &mut Fabric, ids: &Vec<u16>, kernel_tile: TileId, rbuf: u64) -> (r: Result<(), Error>)
        requires
            old(fab).wf(),
            kernel_tile < ids.len(),
            rbuf <= u64::MAX - 64,
        ensures
            final(fab).wf(),
            *final(self) == *old(self),
            (old(self).tile_obj().id < old(fab).num_tiles()) <==> r is Ok,
            r is Err ==> r->Err_0.code == Code::InvArgs && final(fab).regs@ == old(fab).regs@,
            r is Ok ==> final(fab).regs@ == ({
                let t = old(self).tile_obj().id as int;
                let s1 = write_ep(old(fab).regs@, t, KPEX_SEP as int, send_regs(TILEMUX_ACT,
                    old(self).tile_obj().id as u64, ids@[kernel_tile as int], KPEX_EP, KPEX_RBUF_ORD, 1));
                let s2 = write_ep(s1, t, KPEX_REP as int, recv_regs(TILEMUX_ACT, rbuf, KPEX_RBUF_ORD,
                    KPEX_RBUF_ORD, None));
                write_ep(s2, t, TMSIDE_REP as int, recv_regs(TILEMUX_ACT, (rbuf + 64) as u64,
                    TMUP_RBUF_ORD, TMUP_RBUF_ORD, Some(TMSIDE_RPLEP)))
            }),
    {
        let tile = self.tile.id;
        let mut regs: Vec<u64> = vec![0u64, 0u64, 0u64];
        config_send(&mut regs, ids, TILEMUX_ACT, tile as u64, kernel_tile, KPEX_EP, KPEX_RBUF_ORD, 1);
        write_ep_remote(fab, tile, KPEX_SEP, &regs)?;
        config_recv(&mut regs, TILEMUX_ACT, rbuf, KPEX_RBUF_ORD, KPEX_RBUF_ORD, None);
        write_ep_remote(fab, tile, KPEX_REP, &regs)?;
        assert(1u64 << 6u32 == 64) by (bit_vector);
        let rbuf = rbuf + (1u64 << KPEX_RBUF_ORD);
        config_recv(&mut regs, TILEMUX_ACT, rbuf, TMUP_RBUF_ORD, TMUP_RBUF_ORD, Some(TMSIDE_RPLEP));
        write_ep_remote(fab, tile, TMSIDE_REP, &regs)
    }

    /// Programs endpoint `ep` as a send endpoint of activity `act` for the send gate `obj`;
    /// its receive gate has to be activated.
    pub fn config_snd_ep(&mut self, fab: &mut Fabric, ids: &Vec<u16>, ep: EpId, act: ActId, obj: &SGateObject) -> (r: Result<(), Error>)
        requires
            old(fab).wf(),
            obj.rgate.loc is Some ==> obj.rgate.loc->Some_0.tile < ids.len(),
        ensures
            final(fab).wf(),
            *final(self) == *old(self),
            (obj.rgate.is_activated() && old(self).tile_obj().id < old(fab).num_tiles() && ep < AVAIL_EPS) <==> r is Ok,
            r is Err ==> r->Err_0.code == Code::InvArgs && final(fab).regs@ == old(fab).regs@,
            r is Ok ==> final(fab).regs@ == write_ep(old(fab).regs@, old(self).tile_obj().id as int, ep as int,
                send_regs(ep_act_id(old(self).tile_obj(), act), obj.label, ids@[obj.rgate.loc->Some_0.tile as int],
                    obj.rgate.loc->Some_0.ep, obj.rgate.msg_order, obj.credits)),
    {
        let loc = match obj.rgate.loc {
            Some(l) => l,
            None => return Err(Error::new(Code::InvArgs)),
        };
        let mut regs: Vec<u64> = vec![0u64, 0u64, 0u64];
        let a = self.ep_activity_id(act);
        config_send(&mut regs, ids, a, obj.label, loc.tile, loc.ep, obj.rgate.msg_order, obj.credits);
        write_ep_remote(fab, self.tile.id, ep, &regs)
    }

    /// Programs endpoint `ep` as a receive endpoint of activity `act` for the receive gate
    /// `obj`, with reply endpoints from `reply_eps` on.  Whoever waits for it to be
    /// activated is to be woken by the caller once this succeeded.
    pub fn config_rcv_ep(&mut self, fab: &mut Fabric, ep: EpId, act: ActId, reply_eps: Option<EpId>, obj: &RGateObject) -> (r: Result<(), Error>)
        requires
            old(fab).wf(),
            valid_recv_params(obj.order, obj.msg_order),
        ensures
            final(fab).wf(),
            *final(self) == *old(self),
            (old(self).tile_obj().id < old(fab).num_tiles() && ep < AVAIL_EPS) <==> r is Ok,
            r is Err ==> r->Err_0.code == Code::InvArgs && final(fab).regs@ == old(fab).regs@,
            r is Ok ==> final(fab).regs@ == write_ep(old(fab).regs@, old(self).tile_obj().id as int, ep as int,
                recv_regs(ep_act_id(old(self).tile_obj(), act), obj.addr, obj.order, obj.msg_order, reply_eps)),
    {
        let mut regs: Vec<u64> = vec![0u64, 0u64, 0u64];
        let a = self.ep_activity_id(act);
        config_recv(&mut regs, a, obj.addr, obj.order, obj.msg_order, reply_eps);
        write_ep_remote(fab, self.tile.id, ep, &regs)
    }

    /// Programs endpoint `ep` as a memory endpoint of activity `act` for the memory gate
    /// `obj`, whose memory lies on tile `tile_id`.
    pub fn config_mem_ep(&mut self, fab: &mut Fabric, ids: &Vec<u16>, ep: EpId, act: ActId, obj: &MGateObject, tile_id: TileId) -> (r: Result<(), Error>)
        requires
            old(fab).wf(),
            tile_id < ids.len(),
        ensures
            final(fab).wf(),
            *final(self) == *old(self),
            (old(self).tile_obj().id < old(fab).num_tiles() && ep < AVAIL_EPS) <==> r is Ok,
            r is Err ==> r->Err_0.code == Code::InvArgs && final(fab).regs@ == old(fab).regs@,
            r is Ok ==> final(fab).regs@ == write_ep(old(fab).regs@, old(self).tile_obj().id as int, ep as int,
                mem_regs(ep_act_id(old(self).tile_obj(), act), ids@[tile_id as int], obj.offset, obj.size, obj.perms)),
    {
        let mut regs: Vec<u64> = vec![0u64, 0u64, 0u64];
        let a = self.ep_activity_id(act);
        config_mem(&mut regs, ids, a, tile_id, obj.offset, obj.size, obj.perms);
        write_ep_remote(fab, self.tile.id, ep, &regs)
    }

    /// Hands a request to the tile's multiplexer; a request on behalf of an activity that
    /// is gone is refused.
    fn send_sidecall(&mut self, act: Option<ActId>, act_alive: bool, msg: Vec<u64>) -> (r: Result<u64, Error>)
        requires
            old(self).wf(),
        ensures
            final(self).wf(),
            sidecall_post(old(self).is_host(), old(self).queue_model(), final(self).queue_model(), act, act_alive, msg@, r),
            final(self).eps() == old(self).eps(),
            final(self).acts() == old(self).acts(),
            final(self).tile_obj() == old(self).tile_obj(),
            final(self).is_host() == old(self).is_host(),
    {
        if self.host {
            return Err(Error::new(Code::NotSup));
        }
        if act.is_some() && !act_alive {
            return Err(Error::new(Code::ActivityGone));
        }
        self.queue.send(TMSIDE_REP, 0, msg)
    }

    /// Sends a request and hands back its token; on a host it is done at once with `done`.
    fn request<T>(&mut self, act: Option<ActId>, act_alive: bool, msg: Vec<u64>, done: T) -> (r: Result<Sidecall<T>, Error>)
        requires
            old(self).wf(),
        ensures
            final(self).wf(),
            request_post(old(self).is_host(), old(self).queue_model(), final(self).queue_model(), act, act_alive, msg@, done, r),
            final(self).eps() == old(self).eps(),
            final(self).acts() == old(self).acts(),
            final(self).tile_obj() == old(self).tile_obj(),
            final(self).is_host() == old(self).is_host(),
    {
        if self.host {
            return Ok(Sidecall::Done(done));
        }
        let ghost m = msg@;
        let s = self.send_sidecall(act, act_alive, msg);
        match s {
            Ok(e) => Ok(Sidecall::Sent(e)),
            Err(e) => Err(e),
        }
    }

    /// Invalidates endpoint `ep` of activity `act`.  If messages were left unread and
    /// `notify` is set, the multiplexer learns which, in one message.
    pub fn invalidate_ep(&mut self, fab: &mut Fabric, act: ActId, ep: EpId, force: bool, notify: bool, act_alive: bool) -> (r: Result<(), Error>)
        requires
            old(self).wf(),
            old(fab).wf(),
            ep < AVAIL_EPS,
        ensures
            final(self).wf(),
            final(fab).wf(),
            final(self).eps() == old(self).eps(),
            final(self).acts() == old(self).acts(),
            final(self).tile_obj() == old(self).tile_obj(),
            final(self).is_host() == old(self).is_host(),
            ({
                let t = old(self).tile_obj().id as int;
                let regs = old(fab).regs@;
                let unread = inv_unread(regs, t, ep as int) as u32;
                if t >= old(fab).num_tiles() {
                    r == Err::<(), Error>(Error { code: Code::InvArgs }) && final(fab).regs@ == regs
                        && *final(self) == *old(self)
                } else if inv_refused(regs, t, ep as int, force) {
                    r == Err::<(), Error>(Error { code: Code::NoCredits }) && final(fab).regs@ == regs
                        && *final(self) == *old(self)
                } else if unread == 0 || !notify {
                    r == Ok::<(), Error>(()) && final(fab).regs@ == clear_ep(regs, t, ep as int)
                        && final(self).queue_model() == old(self).queue_model()
                } else {
                    final(fab).regs@ == clear_ep(regs, t, ep as int) && sidecall_post(old(self).is_host(),
                        old(self).queue_model(), final(self).queue_model(), Some(act), act_alive,
                        seq![SC_REM_MSGS, act as u64, unread as u64], with_token(r, old(self).queue_model().next_event))
                }
            }),
    {
        let unread = invalidate_ep_remote(fab, self.tile.id, ep, force)?;
        if unread != 0 && notify {
            let msg: Vec<u64> = vec![SC_REM_MSGS, act as u64, unread as u64];
            let ghost m = msg@;
            let s = self.send_sidecall(Some(act), act_alive, msg);
            assert(m == seq![SC_REM_MSGS, act as u64, unread as u64]);
            assert(sidecall_post(old(self).is_host(), old(self).queue_model(), self.queue_model(), Some(act), act_alive, m, s));
            match s {
                Ok(_) => Ok(()),
                Err(e) => Err(e),
            }
        } else {
            Ok(())
        }
    }

    /// Invalidates the reply endpoints at endpoint `recv_ep` of tile `recv_tile` that would
    /// return credits to send endpoint `send_ep` of this tile.
    pub fn invalidate_reply_eps(&self, fab: &mut Fabric, ids: &Vec<u16>, recv_tile: TileId, recv_ep: EpId, send_ep: EpId) -> (r: Result<(), Error>)
        requires
            old(fab).wf(),
            self.tile_obj().id < ids.len(),
        ensures
            final(fab).wf(),
            ({
                let regs = old(fab).regs@;
                let r0 = regs[reg_index(recv_tile as int, recv_ep as int, 0)];
                let occ = recv_occupied(regs[reg_index(recv_tile as int, recv_ep as int, 2)]);
                let first = recv_reply_eps(r0) as int;
                let ok = recv_tile < old(fab).num_tiles() && recv_ep < AVAIL_EPS && (occ == 0 || forall|i: int|
                    0 <= i < scan_slots(r0) && slot_occupied(occ, i) ==> first + i < AVAIL_EPS);
                &&& ok <==> r is Ok
                &&& r is Err ==> r->Err_0.code == Code::InvArgs
                &&& r is Ok ==> final(fab).regs@ == inv_replies(regs, recv_tile as int, first, occ,
                    ids@[self.tile_obj().id as int] as u64, send_ep as u64, scan_slots(r0) as nat)
            }),
    {
        inv_reply_remote(fab, ids, recv_tile, recv_ep, self.tile.id, send_ep)
    }

    /// Asks the multiplexer to reset its statistics.
    pub fn reset_stats(&mut self) -> (r: Result<(), Error>)
        requires
            old(self).wf(),
        ensures
            final(self).wf(),
            final(self).eps() == old(self).eps(),
            final(self).acts() == old(self).acts(),
            final(self).tile_obj() == old(self).tile_obj(),
            sidecall_post(old(self).is_host(), old(self).queue_model(), final(self).queue_model(), None, true,
                seq![SC_RESET_STATS], with_token(r, old(self).queue_model().next_event)),
    {
        let msg: Vec<u64> = vec![SC_RESET_STATS];
        let ghost m = msg@;
        let s = self.send_sidecall(None, true, msg);
        assert(m == seq![SC_RESET_STATS]);
        assert(sidecall_post(old(self).is_host(), old(self).queue_model(), self.queue_model(), None, true, m, s));
        match s {
            Ok(_) => Ok(()),
            Err(e) => Err(e),
        }
    }

    /// Tells the multiplexer that endpoint `ep` of activity `act` was invalidated.  On a host
    /// there is nobody to tell.
    pub fn notify_invalidate(&mut self, act: ActId, ep: EpId, act_alive: bool) -> (r: Result<(), Error>)
        requires
            old(self).wf(),
        ensures
            final(self).wf(),
            final(self).eps() == old(self).eps(),
            final(self).acts() == old(self).acts(),
            final(self).tile_obj() == old(self).tile_obj(),
            old(self).is_host() ==> r is Ok && final(self).queue_model() == old(self).queue_model(),
            !old(self).is_host() ==> sidecall_post(false, old(self).queue_model(), final(self).queue_model(),
                Some(act), act_alive, seq![SC_EP_INVAL, act as u64, ep as u64],
                with_token(r, old(self).queue_model().next_event)),
    {
        if self.host {
            return Ok(());
        }
        let msg: Vec<u64> = vec![SC_EP_INVAL, act as u64, ep as u64];
        let ghost m = msg@;
        let s = self.send_sidecall(Some(act), act_alive, msg);
        assert(m == seq![SC_EP_INVAL, act as u64, ep as u64]);
        assert(sidecall_post(false, old(self).queue_model(), self.queue_model(), Some(act), act_alive, m, s));
        match s {
            Ok(_) => Ok(()),
            Err(e) => Err(e),
        }
    }
}

} // verus!

verus! {

/// Quotas as a host reports them: there is nothing to account.
pub open spec fn no_quota() -> Quota {
    Quota { id: 0, total: 0, left: 0 }
}

/// The quotas of tile `tile` that a reply to a quota request describes: each value holds
/// the total in its upper and the amount left in its lower 32 bits.
pub open spec fn quotas_of(tile: TileId, time: u64, pts: u64, val1: u64, val2: u64) -> (Quota, Quota) {
    let tid = (tile as u64) << 8;
    (
        Quota { id: tid | time, total: val1 >> 32, left: val1 & 0xFFFF_FFFF },
        Quota { id: tid | pts, total: val2 >> 32, left: val2 & 0xFFFF_FFFF },
    )
}

/// The exit code in the low 32 bits of `w`, as a signed number.
pub open spec fn exit_code_of(w: u64) -> i32 {
    let low = w & 0xFFFF_FFFF;
    if low <= 0x7FFF_FFFF { low as i32 } else { (low - 0x1_0000_0000) as i32 }
}

impl TileMux {
    /// Handles a call from the tile's multiplexer, `[opcode, activity, exit code]`, that
    /// reports that an activity exited.  Returns the activity and its exit code if it still
    /// lives on this tile, so that the caller stops it; the caller then replies with
    /// success.
    pub fn handle_call_async(&self, msg: &Vec<u64>) -> (r: Result<Option<(ActId, i32)>, Error>)
        ensures
            msg.len() < 3 || msg@[0] != TM_EXIT <==> r is Err,
            r is Err ==> r->Err_0.code == Code::InvArgs,
            r is Ok ==> (r->Ok_0 is Some <==> self.acts().contains((msg@[1] & 0xFFFF) as u16)),
            r is Ok && r->Ok_0 is Some ==> r->Ok_0->Some_0.0 == (msg@[1] & 0xFFFF) as u16
                && r->Ok_0->Some_0.1 == exit_code_of(msg@[2]),
    {
        if msg.len() < 3 || msg[0] != TM_EXIT {
            return Err(Error::new(Code::InvArgs));
        }
        let w1 = msg[1];
        let w2 = msg[2];
        assert(w1 & 0xFFFF <= 0xFFFF) by (bit_vector);
        assert(w2 & 0xFFFF_FFFF <= 0xFFFF_FFFF) by (bit_vector);
        let act = (w1 & 0xFFFF) as u16;
        let low = w2 & 0xFFFF_FFFF;
        let code: i32 = if low <= 0x7FFF_FFFF { low as i32 } else { (low as i64 - 0x1_0000_0000) as i32 };
        let mut i: usize = 0;
        while i < self.acts.len()
            invariant
                i <= self.acts.len(),
                msg.len() >= 3,
                msg@[0] == TM_EXIT,
                act == (msg@[1] & 0xFFFF) as u16,
                code == exit_code_of(msg@[2]),
                forall|j: int| 0 <= j < i ==> self.acts@[j] != act,
            decreases self.acts.len() - i,
        {
            if self.acts[i] == act {
                assert(self.acts@[i as int] == act);
                return Ok(Some((act, code)));
            }
            i = i + 1;
        }
        Ok(None)
    }

    /// Asks the multiplexer to set up activity `act` with the given quotas and first endpoint.
    pub fn activity_init_async(&mut self, act: ActId, time_quota: u64, pt_quota: u64, eps_start: EpId) -> (r: Result<Sidecall<()>, Error>)
        requires
            old(self).wf(),
        ensures
            final(self).wf(),
            request_post(old(self).is_host(), old(self).queue_model(), final(self).queue_model(), None, true,
                seq![SC_ACT_INIT, act as u64, time_quota, pt_quota, eps_start as u64], (), r),
            final(self).eps() == old(self).eps(),
            final(self).acts() == old(self).acts(),
            final(self).tile_obj() == old(self).tile_obj(),
            final(self).is_host() == old(self).is_host(),
    {
        let msg: Vec<u64> = vec![SC_ACT_INIT, act as u64, time_quota, pt_quota, eps_start as u64];
        assert(msg@ =~= seq![SC_ACT_INIT, act as u64, time_quota, pt_quota, eps_start as u64]);
        self.request(None, true, msg, ())
    }

    /// Asks the multiplexer to perform operation `ctrl` (start, stop, ...) on activity `act`.
    pub fn activity_ctrl_async(&mut self, act: ActId, ctrl: u64) -> (r: Result<Sidecall<()>, Error>)
        requires
            old(self).wf(),
        ensures
            final(self).wf(),
            request_post(old(self).is_host(), old(self).queue_model(), final(self).queue_model(), None, true,
                seq![SC_ACT_CTRL, act as u64, ctrl], (), r),
            final(self).eps() == old(self).eps(),
            final(self).acts() == old(self).acts(),
            final(self).tile_obj() == old(self).tile_obj(),
            final(self).is_host() == old(self).is_host(),
    {
        let msg: Vec<u64> = vec![SC_ACT_CTRL, act as u64, ctrl];
        assert(msg@ =~= seq![SC_ACT_CTRL, act as u64, ctrl]);
        self.request(None, true, msg, ())
    }

    /// Asks the multiplexer to derive new time and page-table quotas from the given ones;
    /// the reply carries the two new ids.  A host hands out the ids 0 and 0.
    pub fn derive_quota_async(&mut self, parent_time: u64, parent_pts: u64, time: Option<u64>, pts: Option<u64>) -> (r: Result<Sidecall<(u64, u64)>, Error>)
        requires
            old(self).wf(),
        ensures
            final(self).wf(),
            request_post(old(self).is_host(), old(self).queue_model(), final(self).queue_model(), None, true,
                seq![SC_DERIVE_QUOTA, parent_time, parent_pts] + opt_words(time) + opt_words(pts), (0u64, 0u64), r),
            final(self).eps() == old(self).eps(),
            final(self).acts() == old(self).acts(),
            final(self).tile_obj() == old(self).tile_obj(),
            final(self).is_host() == old(self).is_host(),
    {
        let mut msg: Vec<u64> = vec![SC_DERIVE_QUOTA, parent_time, parent_pts];
        push_opt(&mut msg, time);
        push_opt(&mut msg, pts);
        assert(msg@ =~= seq![SC_DERIVE_QUOTA, parent_time, parent_pts] + opt_words(time) + opt_words(pts));
        self.request(None, true, msg, (0u64, 0u64))
    }

    /// Asks the multiplexer for the state of the time quota `time` and the page-table quota
    /// `pts`; `get_quota_result` turns the reply into quotas.
    pub fn get_quota_async(&mut self, time: u64, pts: u64) -> (r: Result<Sidecall<(Quota, Quota)>, Error>)
        requires
            old(self).wf(),
        ensures
            final(self).wf(),
            request_post(old(self).is_host(), old(self).queue_model(), final(self).queue_model(), None, true,
                seq![SC_GET_QUOTA, time, pts], (no_quota(), no_quota()), r),
            final(self).eps() == old(self).eps(),
            final(self).acts() == old(self).acts(),
            final(self).tile_obj() == old(self).tile_obj(),
            final(self).is_host() == old(self).is_host(),
    {
        let msg: Vec<u64> = vec![SC_GET_QUOTA, time, pts];
        assert(msg@ =~= seq![SC_GET_QUOTA, time, pts]);
        let none = Quota { id: 0, total: 0, left: 0 };
        self.request(None, true, msg, (none, none))
    }

    /// The quotas that the reply values `val1` and `val2` to a quota request describe.
    pub fn get_quota_result(&self, time: u64, pts: u64, val1: u64, val2: u64) -> (r: (Quota, Quota))
        ensures
            r == quotas_of(self.tile_obj().id, time, pts, val1, val2),
    {
        let tid = (self.tile.id as u64) << 8;
        (
            Quota { id: tid | time, total: val1 >> 32, left: val1 & 0xFFFF_FFFF },
            Quota { id: tid | pts, total: val2 >> 32, left: val2 & 0xFFFF_FFFF },
        )
    }

    /// Asks the multiplexer to set quota `id` to the given time and page-table amounts.
    pub fn set_quota_async(&mut self, id: u64, time: u64, pts: u64) -> (r: Result<Sidecall<()>, Error>)
        requires
            old(self).wf(),
        ensures
            final(self).wf(),
            request_post(old(self).is_host(), old(self).queue_model(), final(self).queue_model(), None, true,
                seq![SC_SET_QUOTA, id, time, pts], (), r),
            final(self).eps() == old(self).eps(),
            final(self).acts() == old(self).acts(),
            final(self).tile_obj() == old(self).tile_obj(),
            final(self).is_host() == old(self).is_host(),
    {
        let msg: Vec<u64> = vec![SC_SET_QUOTA, id, time, pts];
        assert(msg@ =~= seq![SC_SET_QUOTA, id, time, pts]);
        self.request(None, true, msg, ())
    }

    /// Asks the multiplexer to remove the given quotas.
    pub fn remove_quotas_async(&mut self, time: Option<u64>, pts: Option<u64>) -> (r: Result<Sidecall<()>, Error>)
        requires
            old(self).wf(),
        ensures
            final(self).wf(),
            request_post(old(self).is_host(), old(self).queue_model(), final(self).queue_model(), None, true,
                seq![SC_REMOVE_QUOTAS] + opt_words(time) + opt_words(pts), (), r),
            final(self).eps() == old(self).eps(),
            final(self).acts() == old(self).acts(),
            final(self).tile_obj() == old(self).tile_obj(),
            final(self).is_host() == old(self).is_host(),
    {
        let mut msg: Vec<u64> = vec![SC_REMOVE_QUOTAS];
        push_opt(&mut msg, time);
        push_opt(&mut msg, pts);
        assert(msg@ =~= seq![SC_REMOVE_QUOTAS] + opt_words(time) + opt_words(pts));
        self.request(None, true, msg, ())
    }

    /// Asks the multiplexer to map `pages` pages at `virt` of activity `act` to the global
    /// address `glob` with permissions `perm`.
    pub fn map_async(&mut self, act: ActId, virt: u64, glob: u64, pages: u64, perm: u64, act_alive: bool) -> (r: Result<Sidecall<()>, Error>)
        requires
            old(self).wf(),
        ensures
            final(self).wf(),
            request_post(old(self).is_host(), old(self).queue_model(), final(self).queue_model(), Some(act), act_alive,
                seq![SC_MAP, act as u64, virt, glob, pages, perm], (), r),
            final(self).eps() == old(self).eps(),
            final(self).acts() == old(self).acts(),
            final(self).tile_obj() == old(self).tile_obj(),
            final(self).is_host() == old(self).is_host(),
    {
        let msg: Vec<u64> = vec![SC_MAP, act as u64, virt, glob, pages, perm];
        assert(msg@ =~= seq![SC_MAP, act as u64, virt, glob, pages, perm]);
        self.request(Some(act), act_alive, msg, ())
    }

    /// Asks the multiplexer to unmap `pages` pages at `virt` of activity `act`: a mapping
    /// to address 0 without permissions.
    pub fn unmap_async(&mut self, act: ActId, virt: u64, pages: u64, act_alive: bool) -> (r: Result<Sidecall<()>, Error>)
        requires
            old(self).wf(),
        ensures
            final(self).wf(),
            request_post(old(self).is_host(), old(self).queue_model(), final(self).queue_model(), Some(act), act_alive,
                seq![SC_MAP, act as u64, virt, 0u64, pages, 0u64], (), r),
            final(self).eps() == old(self).eps(),
            final(self).acts() == old(self).acts(),
            final(self).tile_obj() == old(self).tile_obj(),
            final(self).is_host() == old(self).is_host(),
    {
        self.map_async(act, virt, 0, pages, 0, act_alive)
    }

    /// Asks the multiplexer to translate `virt` of activity `act` for an access with
    /// permissions `perm`; `translate_result` turns the reply into a global address.
    pub fn translate_async(&mut self, act: ActId, virt: u64, perm: u64, act_alive: bool) -> (r: Result<u64, Error>)
        requires
            old(self).wf(),
        ensures
            final(self).wf(),
            sidecall_post(old(self).is_host(), old(self).queue_model(), final(self).queue_model(), Some(act),
                act_alive, seq![SC_TRANSLATE, act as u64, virt, perm], r),
            final(self).eps() == old(self).eps(),
            final(self).acts() == old(self).acts(),
            final(self).tile_obj() == old(self).tile_obj(),
            final(self).is_host() == old(self).is_host(),
    {
        let msg: Vec<u64> = vec![SC_TRANSLATE, act as u64, virt, perm];
        assert(msg@ =~= seq![SC_TRANSLATE, act as u64, virt, perm]);
        self.send_sidecall(Some(act), act_alive, msg)
    }
}

impl TileMux {
    /// Takes the sidecalls that are to go out to the multiplexer, oldest first.
    pub fn take_sidecalls(&mut self) -> (r: Vec<Outgoing>)
        requires
            old(self).wf(),
        ensures
            final(self).wf(),
            r@ == old(self).queue_model().outbox,
            final(self).queue_model() == (QueueModel { outbox: Seq::empty(), ..old(self).queue_model() }),
            final(self).eps() == old(self).eps(),
            final(self).acts() == old(self).acts(),
            final(self).tile_obj() == old(self).tile_obj(),
            final(self).is_host() == old(self).is_host(),
    {
        self.queue.take_outbox()
    }

    /// Hands a reply of the multiplexer to the sidecall with token `event`.
    pub fn sidecall_reply(&mut self, event: u64, msg: Vec<u64>) -> (r: Result<(), Error>)
        requires
            old(self).wf(),
        ensures
            final(self).wf(),
            r is Ok <==> old(self).queue_model().in_flight.contains(event),
            r is Err ==> final(self).queue_model() == old(self).queue_model(),
            r is Ok ==> final(self).queue_model().replies.last().event == event
                && final(self).queue_model().replies.last().msg@ == msg@,
            final(self).eps() == old(self).eps(),
            final(self).acts() == old(self).acts(),
            final(self).tile_obj() == old(self).tile_obj(),
            final(self).is_host() == old(self).is_host(),
    {
        self.queue.reply_arrived(event, msg)
    }

    /// Takes the reply to the sidecall with token `event`, if it has arrived.
    pub fn receive_async(&mut self, event: u64) -> (r: Option<Vec<u64>>)
        requires
            old(self).wf(),
        ensures
            final(self).wf(),
            r is Some <==> crate::sendqueue::find_reply(old(self).queue_model().replies, event) is Some,
            r is Some ==> r->Some_0@ == old(self).queue_model().replies[
                crate::sendqueue::find_reply(old(self).queue_model().replies, event)->Some_0].msg@,
            final(self).eps() == old(self).eps(),
            final(self).acts() == old(self).acts(),
            final(self).tile_obj() == old(self).tile_obj(),
            final(self).is_host() == old(self).is_host(),
    {
        self.queue.receive_async(event)
    }
}

/// The global address of the page that the reply value `val1` to a translation names.
pub fn translate_result(val1: u64) -> (r: u64)
    ensures
        r == val1 & !PAGE_MASK,
{
    val1 & !PAGE_MASK
}

} // verus!
