use vstd::prelude::*;
use crate::error::{Code, Error, code_of};
use crate::fabric::{
    Fabric, MAX_TILES, clear_ep, cmd_ep, cmd_force, cmd_op, inv_refused, inv_unread, reg_index,
    regs_after_cmd, status_after_cmd, status_word, clear_tile,
};
use crate::tcu::{
    AVAIL_EPS, EP_REGS, EXT_IDLE, EXT_INV_EP, EXT_RESET, mem_regs, recv_regs, send_regs,
    recv_occupied, recv_reply_eps, recv_slot_ord, send_crd_ep, send_tgt_tile, tcu_config_mem,
    tcu_config_recv, tcu_config_send, valid_recv_params, recv_unread,
};

verus! {

/// Endpoint on which the kernel receives calls from tile multiplexers.
pub const KPEX_EP: u16 = 3;
/// How often the command register is read before a command counts as hung.
pub const MAX_POLLS: u32 = 1000;
/// Size of the table that maps logical to physical tile ids.
pub const MAX_PES: usize = 64;
/// Mask of the offset within a page.
pub const PAGE_MASK: u64 = 0xFFF;

/// The physical tile ids of the hardware platform, by logical id.
pub open spec fn hw_tile_id(i: int) -> u16 {
    if i == 0 { 0x06 } else if i == 1 { 0x25 } else if i == 2 { 0x26 } else if i == 3 { 0x00 }
    else if i == 4 { 0x01 } else if i == 5 { 0x02 } else if i == 6 { 0x20 } else if i == 7 { 0x21 }
    else if i == 8 { 0x24 } else { 0 }
}

/// Builds the table that translates logical into physical tile ids: the identity on the
/// simulator, the fixed wiring of the hardware platform otherwise.
pub fn init(simulator: bool) -> (ids: Vec<u16>)
    ensures
        ids.len() == MAX_PES,
        forall|i: int| 0 <= i < MAX_PES ==> ids@[i] == (if simulator { i as u16 } else { hw_tile_id(i) }),
{
    let mut ids: Vec<u16> = Vec::new();
    let mut i: usize = 0;
    while i < MAX_PES
        invariant
            i <= MAX_PES,
            ids.len() == i,
            forall|j: int| 0 <= j < i ==> ids@[j] == (if simulator { j as u16 } else { hw_tile_id(j) }),
        decreases MAX_PES - i,
    {
        let id: u16 = if simulator {
            i as u16
        } else if i == 0 {
            0x06
        } else if i == 1 {
            0x25
        } else if i == 2 {
            0x26
        } else if i == 3 {
            0x00
        } else if i == 4 {
            0x01
        } else if i == 5 {
            0x02
        } else if i == 6 {
            0x20
        } else if i == 7 {
            0x21
        } else if i == 8 {
            0x24
        } else {
            0
        };
        ids.push(id);
        i = i + 1;
    }
    ids
}

/// Returns the virtual and physical address of a receive buffer at `virt`; `pte` is the
/// page-table entry that maps `virt`, consulted only when the kernel tile has virtual memory.
pub fn rbuf_addrs(virt: u64, has_virtmem: bool, pte: u64) -> (r: (u64, u64))
    ensures
        r.0 == virt,
        r.1 == (if has_virtmem { (pte & !PAGE_MASK) | (virt & PAGE_MASK) } else { virt }),
{
    if has_virtmem {
        (virt, (pte & !PAGE_MASK) | (virt & PAGE_MASK))
    } else {
        (virt, virt)
    }
}

/// What an extended command reports, decoded from the idle status word.
pub open spec fn ext_result(s: u64) -> Result<u64, Error> {
    if (s >> 4) & 0x1F == 0 {
        Ok(s >> 9)
    } else {
        Err(Error { code: code_of(((s >> 4) & 0x1F) as u32) })
    }
}

pub open spec fn inv_cmd(ep: u16, force: bool) -> u64 {
    EXT_INV_EP | ((ep as u64) << 9) | ((if force { 1u64 } else { 0u64 }) << 25)
}

proof fn lemma_status_word(c: u64, v: u64)
    requires
        c < 32,
        v < 0x1_0000_0000,
    ensures
        status_word(c, v) & 0xF == 0,
        (status_word(c, v) >> 4) & 0x1F == c,
        status_word(c, v) >> 9 == v,
{
    assert((((c << 4) | (v << 9)) & 0xF) == 0) by (bit_vector);
    assert((((c << 4) | (v << 9)) >> 4) & 0x1F == c) by (bit_vector)
        requires c < 32, v < 0x1_0000_0000;
    assert(((c << 4) | (v << 9)) >> 9 == v) by (bit_vector)
        requires c < 32, v < 0x1_0000_0000;
}

proof fn lemma_inv_cmd(ep: u16, force: bool)
    ensures
        cmd_op(inv_cmd(ep, force)) == EXT_INV_EP,
        cmd_ep(inv_cmd(ep, force)) == ep as u64,
        cmd_force(inv_cmd(ep, force)) == force,
{
    let e = ep as u64;
    let f: u64 = if force { 1 } else { 0 };
    assert(e < 0x10000);
    assert((1u64 | (e << 9) | (f << 25)) & 0xF == 1) by (bit_vector)
        requires e < 0x10000, f <= 1;
    assert(((1u64 | (e << 9) | (f << 25)) >> 9) & 0xFFFF == e) by (bit_vector)
        requires e < 0x10000, f <= 1;
    assert((((1u64 | (e << 9) | (f << 25)) >> 25) & 1 == 1) == (f == 1)) by (bit_vector)
        requires e < 0x10000, f <= 1;
}

proof fn lemma_unread_bound(x: u64)
    ensures
        recv_unread(x) < 0x1_0000_0000,
{
    assert((x >> 32) < 0x1_0000_0000) by (bit_vector);
}

/// The status every command leaves behind is idle.
proof fn lemma_status_after_cmd(regs: Seq<u64>, t: int, cmd: u64)
    requires
        cmd_op(cmd) == EXT_INV_EP && cmd_ep(cmd) < AVAIL_EPS ==> 0 <= reg_index(t, cmd_ep(cmd) as int, 2) < regs.len(),
    ensures
        status_after_cmd(regs, t, cmd) & 0xF == EXT_IDLE,
{
    let s = status_after_cmd(regs, t, cmd);
    if cmd_op(cmd) == EXT_INV_EP && cmd_ep(cmd) < AVAIL_EPS
        && !inv_refused(regs, t, cmd_ep(cmd) as int, cmd_force(cmd)) {
        let ep = cmd_ep(cmd) as int;
        lemma_unread_bound(regs[reg_index(t, ep, 2)]);
        lemma_status_word(0, inv_unread(regs, t, ep));
    } else if cmd_op(cmd) == EXT_INV_EP && cmd_ep(cmd) < AVAIL_EPS {
        lemma_status_word(5, 0);
    } else if cmd_op(cmd) == EXT_INV_EP {
        lemma_status_word(10, 0);
    } else if cmd_op(cmd) == EXT_RESET {
        lemma_status_word(0, 0);
    } else {
        lemma_status_word(2, 0);
    }
}

/// Issues an extended command on tile `pe` and polls its command register until the
/// transport unit reports idle.  The poll gives up after `MAX_POLLS` reads.
fn do_ext_cmd(fab: &mut Fabric, pe: u16, cmd: u64) -> (r: Result<u64, Error>)
    requires
        old(fab).wf(),
        cmd_op(cmd) == EXT_INV_EP || cmd_op(cmd) == EXT_RESET,
    ensures
        final(fab).wf(),
        pe >= old(fab).num_tiles() ==> r == Err::<u64, Error>(Error { code: Code::InvArgs })
            && final(fab).regs@ == old(fab).regs@,
        pe < old(fab).num_tiles() ==> final(fab).regs@ == regs_after_cmd(old(fab).regs@, pe as int, cmd)
            && r == ext_result(status_after_cmd(old(fab).regs@, pe as int, cmd)),
        final(fab).features@ == old(fab).features@,
{
    fab.write_ext_cmd(pe, cmd)?;
    proof {
        if cmd_op(cmd) == EXT_INV_EP && cmd_ep(cmd) < AVAIL_EPS {
            assert(0 <= reg_index(pe as int, cmd_ep(cmd) as int, 2) < old(fab).regs.len());
        }
        lemma_status_after_cmd(old(fab).regs@, pe as int, cmd);
    }
    let mut polls: u32 = 0;
    let mut res: u64 = 0;
    loop
        invariant
            fab.wf(),
            pe < fab.num_tiles(),
            fab.ext_cmd@[pe as int] == status_after_cmd(old(fab).regs@, pe as int, cmd),
            status_after_cmd(old(fab).regs@, pe as int, cmd) & 0xF == EXT_IDLE,
            polls <= MAX_POLLS,
            fab.regs@ == regs_after_cmd(old(fab).regs@, pe as int, cmd),
            fab.features@ == old(fab).features@,
        ensures
            res == status_after_cmd(old(fab).regs@, pe as int, cmd),
        decreases MAX_POLLS - polls,
    {
        let v = fab.read_ext_cmd(pe)?;
        if v & 0xF == EXT_IDLE {
            res = v;
            break;
        }
        if polls == MAX_POLLS {
            return Err(Error::new(Code::Timeout));
        }
        polls = polls + 1;
    }
    assert((res >> 4) & 0x1F < 32) by (bit_vector);
    let code = ((res >> 4) & 0x1F) as u32;
    if code == 0 {
        Ok(res >> 9)
    } else {
        Err(Error::new(Code::from_raw(code)))
    }
}

/// Removes the kernel privilege of tile `pe` by clearing its feature register.
pub fn deprivilege_pe(fab: &mut Fabric, pe: u16) -> (r: Result<(), Error>)
    requires
        old(fab).wf(),
    ensures
        final(fab).wf(),
        (pe < old(fab).num_tiles()) <==> r is Ok,
        r is Ok ==> final(fab).features@ == old(fab).features@.update(pe as int, 0),
        r is Err ==> r->Err_0.code == Code::InvArgs && final(fab).features@ == old(fab).features@,
        final(fab).regs@ == old(fab).regs@,
{
    fab.write_features(pe, 0)
}

/// Resets all endpoints of tile `pe`.
pub fn reset_pe(fab: &mut Fabric, pe: u16) -> (r: Result<(), Error>)
    requires
        old(fab).wf(),
    ensures
        final(fab).wf(),
        (pe < old(fab).num_tiles()) <==> r is Ok,
        r is Ok ==> final(fab).regs@ == clear_tile(old(fab).regs@, pe as int),
        r is Err ==> r->Err_0.code == Code::InvArgs && final(fab).regs@ == old(fab).regs@,
{
    proof {
        assert(EXT_RESET & 0xF == EXT_RESET) by (bit_vector);
        lemma_status_word(0, 0);
    }
    match do_ext_cmd(fab, pe, EXT_RESET) {
        Ok(_) => Ok(()),
        Err(e) => Err(e),
    }
}

/// Fills `regs` with a receive endpoint for activity `act` with the buffer at `buf`.
pub fn config_recv(regs: &mut Vec<u64>, act: u16, buf: u64, buf_ord: u32, msg_ord: u32, reply_eps: Option<u16>)
    requires
        old(regs).len() == EP_REGS,
        valid_recv_params(buf_ord, msg_ord),
    ensures
        final(regs)@ == recv_regs(act, buf, buf_ord, msg_ord, reply_eps),
{
    tcu_config_recv(regs, act, buf, buf_ord, msg_ord, reply_eps);
}

/// Fills `regs` with a send endpoint to endpoint `dst_ep` on tile `pe`, whose physical id is
/// looked up in `ids`.
pub fn config_send(regs: &mut Vec<u64>, ids: &Vec<u16>, act: u16, lbl: u64, pe: u16, dst_ep: u16, msg_order: u32, credits: u32)
    requires
        old(regs).len() == EP_REGS,
        pe < ids.len(),
    ensures
        final(regs)@ == send_regs(act, lbl, ids@[pe as int], dst_ep, msg_order, credits),
{
    tcu_config_send(regs, act, lbl, ids[pe as usize], dst_ep, msg_order, credits);
}

/// Fills `regs` with a memory endpoint for the region at `addr` of `size` bytes on tile `pe`.
pub fn config_mem(regs: &mut Vec<u64>, ids: &Vec<u16>, act: u16, pe: u16, addr: u64, size: u64, perm: u32)
    requires
        old(regs).len() == EP_REGS,
        pe < ids.len(),
    ensures
        final(regs)@ == mem_regs(act, ids@[pe as int], addr, size, perm),
{
    tcu_config_mem(regs, act, ids[pe as usize], addr, size, perm);
}

/// Reads the registers of endpoint `ep` on tile `pe` into `regs`, one word at a time.
pub fn read_ep_remote(fab: &Fabric, pe: u16, ep: u16, regs: &mut Vec<u64>) -> (r: Result<(), Error>)
    requires
        fab.wf(),
        old(regs).len() == EP_REGS,
    ensures
        final(regs).len() == EP_REGS,
        (pe < fab.num_tiles() && ep < AVAIL_EPS) <==> r is Ok,
        r is Err ==> r->Err_0.code == Code::InvArgs,
        r is Ok ==> forall|i: int| 0 <= i < EP_REGS ==> final(regs)@[i] == fab.ep_reg(pe as int, ep as int, i),
{
    let mut i: usize = 0;
    while i < regs.len()
        invariant
            fab.wf(),
            regs.len() == EP_REGS,
            i <= EP_REGS,
            i > 0 ==> pe < fab.num_tiles() && ep < AVAIL_EPS,
            forall|j: int| 0 <= j < i ==> regs@[j] == fab.ep_reg(pe as int, ep as int, j),
        decreases EP_REGS - i,
    {
        let v = fab.read_ep_reg(pe, ep, i)?;
        regs.set(i, v);
        i = i + 1;
    }
    Ok(())
}

/// Writes `regs` into the registers of endpoint `ep` on tile `pe`, one word at a time.
pub fn write_ep_remote(fab: &mut Fabric, pe: u16, ep: u16, regs: &Vec<u64>) -> (r: Result<(), Error>)
    requires
        old(fab).wf(),
        regs.len() == EP_REGS,
    ensures
        final(fab).wf(),
        (pe < old(fab).num_tiles() && ep < AVAIL_EPS) <==> r is Ok,
        r is Err ==> r->Err_0.code == Code::InvArgs && final(fab).regs@ == old(fab).regs@,
        r is Ok ==> final(fab).regs@ == write_ep(old(fab).regs@, pe as int, ep as int, regs@),
        final(fab).ext_cmd@ == old(fab).ext_cmd@,
        final(fab).features@ == old(fab).features@,
{
    let mut i: usize = 0;
    while i < regs.len()
        invariant
            fab.wf(),
            old(fab).wf(),
            regs.len() == EP_REGS,
            i <= EP_REGS,
            i > 0 ==> pe < fab.num_tiles() && ep < AVAIL_EPS,
            fab.regs.len() == old(fab).regs.len(),
            fab.ext_cmd@ == old(fab).ext_cmd@,
            fab.features@ == old(fab).features@,
            forall|j: int| 0 <= j < fab.regs.len() ==> fab.regs@[j] == (
                if reg_index(pe as int, ep as int, 0) <= j < reg_index(pe as int, ep as int, 0) + i {
                    regs@[j - reg_index(pe as int, ep as int, 0)]
                } else {
                    old(fab).regs@[j]
                }),
        decreases EP_REGS - i,
    {
        fab.write_ep_reg(pe, ep, i, regs[i])?;
        i = i + 1;
    }
    assert(fab.regs@ =~= write_ep(old(fab).regs@, pe as int, ep as int, regs@));
    Ok(())
}

/// The endpoint registers after writing `v` into endpoint `ep` of tile `t`.
pub open spec fn write_ep(regs: Seq<u64>, t: int, ep: int, v: Seq<u64>) -> Seq<u64> {
    Seq::new(regs.len(), |j: int|
        if reg_index(t, ep, 0) <= j < reg_index(t, ep, 0) + EP_REGS { v[j - reg_index(t, ep, 0)] } else { regs[j] })
}

/// Invalidates endpoint `ep` on tile `pe` and returns the mask of its unread messages.
/// Without `force`, a send endpoint whose credits are in use is left alone.
pub fn invalidate_ep_remote(fab: &mut Fabric, pe: u16, ep: u16, force: bool) -> (r: Result<u32, Error>)
    requires
        old(fab).wf(),
        ep < AVAIL_EPS,
    ensures
        final(fab).wf(),
        final(fab).features@ == old(fab).features@,
        pe >= old(fab).num_tiles() ==> r == Err::<u32, Error>(Error { code: Code::InvArgs })
            && final(fab).regs@ == old(fab).regs@,
        pe < old(fab).num_tiles() && inv_refused(old(fab).regs@, pe as int, ep as int, force) ==>
            r == Err::<u32, Error>(Error { code: Code::NoCredits }) && final(fab).regs@ == old(fab).regs@,
        pe < old(fab).num_tiles() && !inv_refused(old(fab).regs@, pe as int, ep as int, force) ==>
            r == Ok::<u32, Error>(inv_unread(old(fab).regs@, pe as int, ep as int) as u32)
            && final(fab).regs@ == clear_ep(old(fab).regs@, pe as int, ep as int),
{
    let f: u64 = if force { 1 } else { 0 };
    let cmd = EXT_INV_EP | ((ep as u64) << 9) | (f << 25);
    proof {
        lemma_inv_cmd(ep, force);
        if pe < old(fab).num_tiles() {
            let regs = old(fab).regs@;
            if inv_refused(regs, pe as int, ep as int, force) {
                lemma_status_word(5, 0);
            } else {
                lemma_unread_bound(regs[reg_index(pe as int, ep as int, 2)]);
                lemma_status_word(0, inv_unread(regs, pe as int, ep as int));
            }
        }
    }
    match do_ext_cmd(fab, pe, cmd) {
        Ok(unread) => Ok(unread as u32),
        Err(e) => Err(e),
    }
}

} // verus!

verus! {

/// Whether slot `i` is set in the occupied mask `occ`.
pub open spec fn slot_occupied(occ: u64, i: int) -> bool {
    occ & (1u64 << (i as u64)) != 0
}

/// Slots of a receive endpoint that the occupied mask can describe.
pub open spec fn scan_slots(r0: u64) -> u64 {
    if recv_slot_ord(r0) >= 5 { 32 } else { 1u64 << recv_slot_ord(r0) }
}

/// Whether reply endpoint `rep` on tile `t` returns credits to endpoint `send_ep` on tile `tgt`.
pub open spec fn reply_matches(regs: Seq<u64>, t: int, rep: int, tgt: u64, send_ep: u64) -> bool {
    send_crd_ep(regs[reg_index(t, rep, 0)]) == send_ep && send_tgt_tile(regs[reg_index(t, rep, 1)]) == tgt
}

/// The registers after the reply endpoints of the first `k` slots were handled.
pub open spec fn inv_replies(regs: Seq<u64>, t: int, first: int, occ: u64, tgt: u64, send_ep: u64, k: nat) -> Seq<u64>
    decreases k,
{
    if k == 0 {
        regs
    } else {
        let prev = inv_replies(regs, t, first, occ, tgt, send_ep, (k - 1) as nat);
        let rep = first + k - 1;
        if slot_occupied(occ, k - 1) && reply_matches(regs, t, rep, tgt, send_ep) {
            clear_ep(prev, t, rep)
        } else {
            prev
        }
    }
}

proof fn lemma_inv_replies_keep(regs: Seq<u64>, t: int, first: int, occ: u64, tgt: u64, send_ep: u64, k: nat, ep: int, j: int)
    requires
        0 <= first,
        first + k <= ep,
        reg_index(t, ep, 0) <= j < reg_index(t, ep, 0) + EP_REGS,
    ensures
        inv_replies(regs, t, first, occ, tgt, send_ep, k).len() == regs.len(),
        0 <= j < regs.len() ==> inv_replies(regs, t, first, occ, tgt, send_ep, k)[j] == regs[j],
    decreases k,
{
    if k > 0 {
        lemma_inv_replies_keep(regs, t, first, occ, tgt, send_ep, (k - 1) as nat, ep, j);
    }
}

proof fn lemma_inv_replies_none(regs: Seq<u64>, t: int, first: int, tgt: u64, send_ep: u64, k: nat)
    ensures
        inv_replies(regs, t, first, 0, tgt, send_ep, k) == regs,
    decreases k,
{
    if k > 0 {
        let s = ((k - 1) as int) as u64;
        assert(0u64 & (1u64 << s) == 0) by (bit_vector);
        lemma_inv_replies_none(regs, t, first, tgt, send_ep, (k - 1) as nat);
    }
}

/// Searches the occupied slots of receive endpoint `recv_ep` on tile `recv_pe` for reply
/// endpoints that would return credits to endpoint `send_ep` on tile `send_pe`, and
/// invalidates them.
pub fn inv_reply_remote(fab: &mut Fabric, ids: &Vec<u16>, recv_pe: u16, recv_ep: u16, send_pe: u16, send_ep: u16) -> (r: Result<(), Error>)
    requires
        old(fab).wf(),
        send_pe < ids.len(),
    ensures
        final(fab).wf(),
        ({
            let regs = old(fab).regs@;
            let r0 = regs[reg_index(recv_pe as int, recv_ep as int, 0)];
            let occ = recv_occupied(regs[reg_index(recv_pe as int, recv_ep as int, 2)]);
            let first = recv_reply_eps(r0) as int;
            let ok = recv_pe < old(fab).num_tiles() && recv_ep < AVAIL_EPS && (occ == 0 || forall|i: int|
                0 <= i < scan_slots(r0) && slot_occupied(occ, i) ==> first + i < AVAIL_EPS);
            &&& ok <==> r is Ok
            &&& r is Err ==> r->Err_0.code == Code::InvArgs
            &&& r is Ok ==> final(fab).regs@ == inv_replies(regs, recv_pe as int, first, occ,
                ids@[send_pe as int] as u64, send_ep as u64, scan_slots(r0) as nat)
        }),
{
    let ghost regs0 = fab.regs@;
    let mut regs: Vec<u64> = vec![0u64, 0u64, 0u64];
    read_ep_remote(fab, recv_pe, recv_ep, &mut regs)?;
    let ghost r0 = regs0[reg_index(recv_pe as int, recv_ep as int, 0)];
    let occupied = regs[2] & 0xFFFF_FFFF;
    if occupied == 0 {
        proof {
            lemma_inv_replies_none(regs0, recv_pe as int, recv_reply_eps(r0) as int,
                ids@[send_pe as int] as u64, send_ep as u64, scan_slots(r0) as nat);
        }
        return Ok(());
    }
    let ord = (regs[0] >> 35) & 0x3F;
    let slots: u64 = if ord >= 5 { 32 } else { 1u64 << ord };
    assert(slots <= 32) by {
        if ord < 5 {
            assert((1u64 << ord) <= 32) by (bit_vector) requires ord < 5;
        }
    }
    let w0 = regs[0];
    let first: u64 = (w0 >> 19) & 0xFFFF;
    assert(first < 0x10000) by (bit_vector) requires first == (w0 >> 19) & 0xFFFF;
    let tgt = ids[send_pe as usize] as u64;
    let mut i: u64 = 0;
    while i < slots
        invariant
            fab.wf(),
            fab.regs.len() == regs0.len(),
            old(fab).wf(),
            regs0 == old(fab).regs@,
            recv_pe < fab.num_tiles(),
            fab.num_tiles() == old(fab).num_tiles(),
            recv_ep < AVAIL_EPS,
            r0 == regs0[reg_index(recv_pe as int, recv_ep as int, 0)],
            occupied == recv_occupied(regs0[reg_index(recv_pe as int, recv_ep as int, 2)]),
            occupied != 0,
            slots == scan_slots(r0),
            slots <= 32,
            first == recv_reply_eps(r0),
            first < 0x10000,
            tgt == ids@[send_pe as int] as u64,
            i <= slots,
            fab.regs@ == inv_replies(regs0, recv_pe as int, first as int, occupied, tgt, send_ep as u64, i as nat),
            forall|j: int| 0 <= j < i && slot_occupied(occupied, j) ==> first + j < AVAIL_EPS,
        decreases slots - i,
    {
        if occupied & (1u64 << i) != 0 {
            let rep = first + i;
            if rep >= AVAIL_EPS as u64 {
                assert(slot_occupied(occupied, i as int));
                assert(0 <= i < scan_slots(r0) && !(first + i < AVAIL_EPS));
                return Err(Error::new(Code::InvArgs));
            }
            let mut rregs: Vec<u64> = vec![0u64, 0u64, 0u64];
            read_ep_remote(fab, recv_pe, rep as u16, &mut rregs)?;
            proof {
                lemma_inv_replies_keep(regs0, recv_pe as int, first as int, occupied, tgt, send_ep as u64,
                    i as nat, rep as int, reg_index(recv_pe as int, rep as int, 0));
                lemma_inv_replies_keep(regs0, recv_pe as int, first as int, occupied, tgt, send_ep as u64,
                    i as nat, rep as int, reg_index(recv_pe as int, rep as int, 1));
            }
            let tgt_pe = (rregs[1] >> 16) & 0xFFFF;
            let crd_ep = (rregs[0] >> 37) & 0xFFFF;
            if crd_ep == send_ep as u64 && tgt_pe == tgt {
                invalidate_ep_remote(fab, recv_pe, rep as u16, true)?;
            }
        }
        i = i + 1;
    }
    Ok(())
}

/// Invalidating an endpoint that is already invalid succeeds and reports no unread
/// messages; it leaves the endpoint cleared, so that a second invalidation succeeds
/// again, reports no unread messages and changes nothing.
pub proof fn lemma_invalidate_idempotent(regs: Seq<u64>, t: int, ep: int, force: bool)
    requires
        0 <= t,
        0 <= ep < AVAIL_EPS,
        reg_index(t, ep, 2) < regs.len(),
        crate::tcu::ep_type(regs[reg_index(t, ep, 0)]) == crate::tcu::EP_INVALID,
    ensures
        !inv_refused(regs, t, ep, force),
        inv_unread(regs, t, ep) == 0,
        !inv_refused(clear_ep(regs, t, ep), t, ep, force),
        inv_unread(clear_ep(regs, t, ep), t, ep) == 0,
        clear_ep(clear_ep(regs, t, ep), t, ep) == clear_ep(regs, t, ep),
{
    assert(0u64 & 7 == 0) by (bit_vector);
    assert(clear_ep(clear_ep(regs, t, ep), t, ep) =~= clear_ep(regs, t, ep));
}

} // verus!
