use vstd::prelude::*;

verus! {

/// Endpoint id within a tile's transport unit.
pub type EpId = u16;
/// Logical tile id.
pub type TileId = u16;
/// Activity id.
pub type ActId = u16;
/// Message label.
pub type Label = u64;
/// A transport-unit register.
pub type Reg = u64;

/// Number of endpoints of each transport unit.
pub const AVAIL_EPS: u16 = 128;
/// Endpoints that protect physical memory; they are created with the tile and never allocated.
pub const PMEM_PROT_EPS: u16 = 4;
/// Send endpoint for kernel-to-multiplexer sidecalls.
pub const KPEX_SEP: u16 = 4;
/// Receive endpoint for multiplexer-to-kernel calls.
pub const KPEX_REP: u16 = 5;
/// Receive endpoint on which the multiplexer gets sidecalls.
pub const TMSIDE_REP: u16 = 6;
/// Reply endpoint of the sidecall receive endpoint.
pub const TMSIDE_RPLEP: u16 = 7;
/// The first endpoint that can be handed to activities.
pub const FIRST_USER_EP: u16 = 8;
/// Registers per endpoint.
pub const EP_REGS: usize = 3;

/// Activity id that stands for "no particular activity".
pub const INVAL_ACT: u16 = 0xFFFF;
/// Activity id of the tile multiplexer itself.
pub const TILEMUX_ACT: u16 = 0xFFFE;

/// Endpoint types, as stored in the low three bits of the first register.
pub const EP_INVALID: u64 = 0;
pub const EP_SEND: u64 = 1;
pub const EP_RECEIVE: u64 = 2;
pub const EP_MEMORY: u64 = 3;

/// Extended-command opcodes (low nibble of the command register).
pub const EXT_IDLE: u64 = 0;
pub const EXT_INV_EP: u64 = 1;
pub const EXT_RESET: u64 = 2;

/// Memory permissions.
pub const PERM_R: u32 = 1;
pub const PERM_W: u32 = 2;
pub const PERM_X: u32 = 4;
pub const PERM_RWX: u32 = 7;

/// The reply-endpoint field of a receive endpoint without reply endpoints.
pub const NO_REPLY_EPS: u64 = 0xFFFF;

// ---- register fields ----

pub open spec fn ep_type(r0: u64) -> u64 {
    r0 & 7
}

/// Maximum credits of a send endpoint.
pub open spec fn send_max_crd(r0: u64) -> u64 {
    (r0 >> 25) & 0x3F
}

/// Current credits of a send endpoint.
pub open spec fn send_cur_crd(r0: u64) -> u64 {
    (r0 >> 31) & 0x3F
}

/// For a reply endpoint: the send endpoint that gets the credits back.
pub open spec fn send_crd_ep(r0: u64) -> u64 {
    (r0 >> 37) & 0xFFFF
}

/// Target tile of a send endpoint.
pub open spec fn send_tgt_tile(r1: u64) -> u64 {
    (r1 >> 16) & 0xFFFF
}

/// First reply endpoint of a receive endpoint.
pub open spec fn recv_reply_eps(r0: u64) -> u64 {
    (r0 >> 19) & 0xFFFF
}

/// Slot-count order of a receive endpoint.
pub open spec fn recv_slot_ord(r0: u64) -> u64 {
    (r0 >> 35) & 0x3F
}

/// Occupied-slot mask of a receive endpoint.
pub open spec fn recv_occupied(r2: u64) -> u64 {
    r2 & 0xFFFF_FFFF
}

/// Unread-slot mask of a receive endpoint.
pub open spec fn recv_unread(r2: u64) -> u64 {
    r2 >> 32
}

// ---- register sets ----

pub open spec fn send_regs(act: u16, lbl: u64, tgt: u16, dst_ep: u16, msg_order: u32, credits: u32) -> Seq<u64> {
    seq![
        EP_SEND | ((act as u64) << 3) | ((msg_order as u64) << 19) | ((credits as u64) << 25)
            | ((credits as u64) << 31),
        ((tgt as u64) << 16) | (dst_ep as u64),
        lbl,
    ]
}

pub open spec fn recv_regs(act: u16, buf: u64, buf_ord: u32, msg_ord: u32, reply_eps: Option<u16>) -> Seq<u64> {
    let rpl: u64 = match reply_eps {
        Some(e) => e as u64,
        None => NO_REPLY_EPS,
    };
    seq![
        EP_RECEIVE | ((act as u64) << 3) | (rpl << 19) | (((buf_ord - msg_ord) as u64) << 35)
            | ((msg_ord as u64) << 41),
        buf,
        0u64,
    ]
}

pub open spec fn mem_regs(act: u16, tgt: u16, addr: u64, size: u64, perm: u32) -> Seq<u64> {
    seq![
        EP_MEMORY | ((act as u64) << 3) | (((perm & PERM_RWX) as u64) << 19) | ((tgt as u64) << 23),
        addr,
        size,
    ]
}

pub open spec fn valid_recv_params(buf_ord: u32, msg_ord: u32) -> bool {
    msg_ord <= buf_ord
}

/// Writes the register set of a send endpoint into `regs`.
pub fn tcu_config_send(regs: &mut Vec<u64>, act: u16, lbl: u64, tgt: u16, dst_ep: u16, msg_order: u32, credits: u32)
    requires
        old(regs).len() == EP_REGS,
    ensures
        final(regs)@ == send_regs(act, lbl, tgt, dst_ep, msg_order, credits),
{
    regs.set(0, EP_SEND | ((act as u64) << 3) | ((msg_order as u64) << 19) | ((credits as u64) << 25)
        | ((credits as u64) << 31));
    regs.set(1, ((tgt as u64) << 16) | (dst_ep as u64));
    regs.set(2, lbl);
    assert(regs@ =~= send_regs(act, lbl, tgt, dst_ep, msg_order, credits));
}

/// Writes the register set of a receive endpoint into `regs`.
pub fn tcu_config_recv(regs: &mut Vec<u64>, act: u16, buf: u64, buf_ord: u32, msg_ord: u32, reply_eps: Option<u16>)
    requires
        old(regs).len() == EP_REGS,
        valid_recv_params(buf_ord, msg_ord),
    ensures
        final(regs)@ == recv_regs(act, buf, buf_ord, msg_ord, reply_eps),
{
    let rpl: u64 = match reply_eps {
        Some(e) => e as u64,
        None => NO_REPLY_EPS,
    };
    regs.set(0, EP_RECEIVE | ((act as u64) << 3) | (rpl << 19) | (((buf_ord - msg_ord) as u64) << 35)
        | ((msg_ord as u64) << 41));
    regs.set(1, buf);
    regs.set(2, 0);
    assert(regs@ =~= recv_regs(act, buf, buf_ord, msg_ord, reply_eps));
}

/// Writes the register set of a memory endpoint into `regs`.
pub fn tcu_config_mem(regs: &mut Vec<u64>, act: u16, tgt: u16, addr: u64, size: u64, perm: u32)
    requires
        old(regs).len() == EP_REGS,
    ensures
        final(regs)@ == mem_regs(act, tgt, addr, size, perm),
{
    regs.set(0, EP_MEMORY | ((act as u64) << 3) | (((perm & PERM_RWX) as u64) << 19) | ((tgt as u64) << 23));
    regs.set(1, addr);
    regs.set(2, size);
    assert(regs@ =~= mem_regs(act, tgt, addr, size, perm));
}

} // verus!
