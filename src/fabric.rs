use vstd::prelude::*;
use crate::error::{Code, Error, code_raw};
use crate::tcu::{
    AVAIL_EPS, EP_REGS, EP_RECEIVE, EP_SEND, EXT_INV_EP, EXT_RESET, ep_type, recv_unread,
    send_cur_crd, send_max_crd,
};

verus! {

/// Registers of one transport unit: one set per endpoint.
pub const TILE_REGS: usize = 384;
/// Most tiles a fabric can hold.
pub const MAX_TILES: usize = 64;

/// The transport units of all tiles, as seen through remote register access.
///
/// `regs` holds the endpoint registers of tile `t`, endpoint `ep`, word `i` at
/// `t * TILE_REGS + ep * EP_REGS + i`; `ext_cmd` and `features` hold one
/// extended register per tile.  Writing the command register runs the command
/// at once and leaves the idle opcode with the outcome in it.
pub struct Fabric {
    pub regs: Vec<u64>,
    pub ext_cmd: Vec<u64>,
    pub features: Vec<u64>,
}

pub open spec fn reg_index(t: int, ep: int, i: int) -> int {
    t * TILE_REGS + ep * EP_REGS + i
}

/// The idle status word that carries an error code and a result.
pub open spec fn status_word(code: u64, val: u64) -> u64 {
    (code << 4) | (val << 9)
}

pub open spec fn cmd_op(cmd: u64) -> u64 {
    cmd & 0xF
}

pub open spec fn cmd_ep(cmd: u64) -> u64 {
    (cmd >> 9) & 0xFFFF
}

pub open spec fn cmd_force(cmd: u64) -> bool {
    (cmd >> 25) & 1 == 1
}

/// The three registers of an endpoint, cleared.
pub open spec fn clear_ep(regs: Seq<u64>, t: int, ep: int) -> Seq<u64> {
    Seq::new(regs.len(), |j: int|
        if reg_index(t, ep, 0) <= j < reg_index(t, ep, 0) + EP_REGS { 0u64 } else { regs[j] })
}

/// All endpoint registers of a tile, cleared.
pub open spec fn clear_tile(regs: Seq<u64>, t: int) -> Seq<u64> {
    Seq::new(regs.len(), |j: int|
        if t * TILE_REGS <= j < (t + 1) * TILE_REGS { 0u64 } else { regs[j] })
}

/// Whether invalidating refuses: a send endpoint with credits in use, without force.
pub open spec fn inv_refused(regs: Seq<u64>, t: int, ep: int, force: bool) -> bool {
    let r0 = regs[reg_index(t, ep, 0)];
    ep_type(r0) == EP_SEND && !force && send_cur_crd(r0) != send_max_crd(r0)
}

/// What invalidating an endpoint reports: the mask of its unread messages.
pub open spec fn inv_unread(regs: Seq<u64>, t: int, ep: int) -> u64 {
    let r0 = regs[reg_index(t, ep, 0)];
    if ep_type(r0) == EP_RECEIVE { recv_unread(regs[reg_index(t, ep, 2)]) } else { 0 }
}

/// The endpoint registers after a command.
pub open spec fn regs_after_cmd(regs: Seq<u64>, t: int, cmd: u64) -> Seq<u64> {
    if cmd_op(cmd) == EXT_INV_EP {
        if cmd_ep(cmd) >= AVAIL_EPS || inv_refused(regs, t, cmd_ep(cmd) as int, cmd_force(cmd)) {
            regs
        } else {
            clear_ep(regs, t, cmd_ep(cmd) as int)
        }
    } else if cmd_op(cmd) == EXT_RESET {
        clear_tile(regs, t)
    } else {
        regs
    }
}

/// The status word after a command.
pub open spec fn status_after_cmd(regs: Seq<u64>, t: int, cmd: u64) -> u64 {
    if cmd_op(cmd) == EXT_INV_EP {
        if cmd_ep(cmd) >= AVAIL_EPS {
            status_word(code_raw(Code::InvEp) as u64, 0)
        } else if inv_refused(regs, t, cmd_ep(cmd) as int, cmd_force(cmd)) {
            status_word(code_raw(Code::NoCredits) as u64, 0)
        } else {
            status_word(0, inv_unread(regs, t, cmd_ep(cmd) as int))
        }
    } else if cmd_op(cmd) == EXT_RESET {
        status_word(0, 0)
    } else {
        status_word(code_raw(Code::InvArgs) as u64, 0)
    }
}

impl Fabric {
    pub open spec fn wf(&self) -> bool {
        &&& self.ext_cmd.len() <= MAX_TILES
        &&& self.features.len() == self.ext_cmd.len()
        &&& self.regs.len() == self.ext_cmd.len() * TILE_REGS
    }

    pub open spec fn num_tiles(&self) -> int {
        self.ext_cmd.len() as int
    }

    /// Register `i` of endpoint `ep` on tile `t`.
    pub open spec fn ep_reg(&self, t: int, ep: int, i: int) -> u64 {
        self.regs@[reg_index(t, ep, i)]
    }

    /// Creates a fabric of `tiles` tiles whose endpoints are all invalid.
    pub fn new(tiles: usize) -> (r: Fabric)
        requires
            tiles <= MAX_TILES,
        ensures
            r.wf(),
            r.num_tiles() == tiles,
            forall|j: int| 0 <= j < r.regs.len() ==> r.regs@[j] == 0,
            forall|j: int| 0 <= j < tiles ==> r.ext_cmd@[j] == 0 && r.features@[j] == 0,
    {
        let mut regs: Vec<u64> = Vec::new();
        let mut i: usize = 0;
        while i < tiles * TILE_REGS
            invariant
                tiles <= MAX_TILES,
                i <= tiles * TILE_REGS,
                regs.len() == i,
                forall|j: int| 0 <= j < i ==> regs@[j] == 0,
            decreases tiles * TILE_REGS - i,
        {
            regs.push(0);
            i = i + 1;
        }
        let mut ext_cmd: Vec<u64> = Vec::new();
        let mut features: Vec<u64> = Vec::new();
        let mut t: usize = 0;
        while t < tiles
            invariant
                t <= tiles,
                ext_cmd.len() == t,
                features.len() == t,
                forall|j: int| 0 <= j < t ==> ext_cmd@[j] == 0 && features@[j] == 0,
            decreases tiles - t,
        {
            ext_cmd.push(0);
            features.push(0);
            t = t + 1;
        }
        Fabric { regs, ext_cmd, features }
    }

    /// Reads register `i` of endpoint `ep` on tile `t`.
    pub fn read_ep_reg(&self, t: u16, ep: u16, i: usize) -> (r: Result<u64, Error>)
        requires
            self.wf(),
        ensures
            (t < self.num_tiles() && ep < AVAIL_EPS && i < EP_REGS) <==> r is Ok,
            r is Ok ==> r->Ok_0 == self.ep_reg(t as int, ep as int, i as int),
            r is Err ==> r->Err_0.code == Code::InvArgs,
    {
        if (t as usize) < self.ext_cmd.len() && ep < AVAIL_EPS && i < EP_REGS {
            Ok(self.regs[t as usize * TILE_REGS + ep as usize * EP_REGS + i])
        } else {
            Err(Error::new(Code::InvArgs))
        }
    }

    /// Writes register `i` of endpoint `ep` on tile `t`.
    pub fn write_ep_reg(&mut self, t: u16, ep: u16, i: usize, val: u64) -> (r: Result<(), Error>)
        requires
            old(self).wf(),
        ensures
            final(self).wf(),
            (t < old(self).num_tiles() && ep < AVAIL_EPS && i < EP_REGS) <==> r is Ok,
            r is Ok ==> final(self).regs@ == old(self).regs@.update(reg_index(t as int, ep as int, i as int), val),
            r is Err ==> r->Err_0.code == Code::InvArgs && final(self).regs@ == old(self).regs@,
            final(self).ext_cmd@ == old(self).ext_cmd@,
            final(self).features@ == old(self).features@,
    {
        if (t as usize) < self.ext_cmd.len() && ep < AVAIL_EPS && i < EP_REGS {
            self.regs.set(t as usize * TILE_REGS + ep as usize * EP_REGS + i, val);
            Ok(())
        } else {
            Err(Error::new(Code::InvArgs))
        }
    }

    /// Writes the feature register of tile `t`.
    pub fn write_features(&mut self, t: u16, val: u64) -> (r: Result<(), Error>)
        requires
            old(self).wf(),
        ensures
            final(self).wf(),
            (t < old(self).num_tiles()) <==> r is Ok,
            r is Ok ==> final(self).features@ == old(self).features@.update(t as int, val),
            r is Err ==> r->Err_0.code == Code::InvArgs && final(self).features@ == old(self).features@,
            final(self).regs@ == old(self).regs@,
            final(self).ext_cmd@ == old(self).ext_cmd@,
    {
        if (t as usize) < self.features.len() {
            self.features.set(t as usize, val);
            Ok(())
        } else {
            Err(Error::new(Code::InvArgs))
        }
    }

    /// Reads the command register of tile `t`.
    pub fn read_ext_cmd(&self, t: u16) -> (r: Result<u64, Error>)
        requires
            self.wf(),
        ensures
            (t < self.num_tiles()) <==> r is Ok,
            r is Ok ==> r->Ok_0 == self.ext_cmd@[t as int],
            r is Err ==> r->Err_0.code == Code::InvArgs,
    {
        if (t as usize) < self.ext_cmd.len() {
            Ok(self.ext_cmd[t as usize])
        } else {
            Err(Error::new(Code::InvArgs))
        }
    }

    /// Writes the command register of tile `t`, which runs the command.
    pub fn write_ext_cmd(&mut self, t: u16, cmd: u64) -> (r: Result<(), Error>)
        requires
            old(self).wf(),
        ensures
            final(self).wf(),
            (t < old(self).num_tiles()) <==> r is Ok,
            r is Ok ==> final(self).regs@ == regs_after_cmd(old(self).regs@, t as int, cmd),
            r is Ok ==> final(self).ext_cmd@ == old(self).ext_cmd@.update(
                t as int, status_after_cmd(old(self).regs@, t as int, cmd)),
            r is Err ==> r->Err_0.code == Code::InvArgs && final(self).regs@ == old(self).regs@
                && final(self).ext_cmd@ == old(self).ext_cmd@,
            final(self).features@ == old(self).features@,
    {
        if (t as usize) >= self.ext_cmd.len() {
            return Err(Error::new(Code::InvArgs));
        }
        let tile = t as usize;
        let op = cmd & 0xF;
        let status: u64;
        if op == EXT_INV_EP {
            let ep = (cmd >> 9) & 0xFFFF;
            let force = (cmd >> 25) & 1 == 1;
            if ep >= AVAIL_EPS as u64 {
                status = (Code::InvEp.raw() as u64) << 4 | (0u64 << 9);
            } else {
                let base = tile * TILE_REGS + ep as usize * EP_REGS;
                let r0 = self.regs[base];
                if r0 & 7 == EP_SEND && !force && (r0 >> 31) & 0x3F != (r0 >> 25) & 0x3F {
                    status = (Code::NoCredits.raw() as u64) << 4 | (0u64 << 9);
                } else {
                    let unread: u64 = if r0 & 7 == EP_RECEIVE { self.regs[base + 2] >> 32 } else { 0 };
                    self.regs.set(base, 0);
                    self.regs.set(base + 1, 0);
                    self.regs.set(base + 2, 0);
                    status = (0u64 << 4) | (unread << 9);
                    assert(self.regs@ =~= clear_ep(old(self).regs@, t as int, ep as int));
                }
            }
        } else if op == EXT_RESET {
            let end: usize = (tile + 1) * TILE_REGS;
            let mut j: usize = tile * TILE_REGS;
            while j < end
                invariant
                    tile < self.ext_cmd.len(),
                    old(self).wf(),
                    end == (tile + 1) * TILE_REGS,
                    self.regs.len() == old(self).regs.len(),
                    self.ext_cmd@ == old(self).ext_cmd@,
                    self.features@ == old(self).features@,
                    tile * TILE_REGS <= j <= end,
                    forall|k: int| 0 <= k < self.regs.len() ==> self.regs@[k] == (
                        if tile * TILE_REGS <= k < j { 0u64 } else { old(self).regs@[k] }),
                decreases end - j,
            {
                self.regs.set(j, 0);
                j = j + 1;
            }
            assert(self.regs@ =~= clear_tile(old(self).regs@, t as int));
            status = (0u64 << 4) | (0u64 << 9);
        } else {
            status = (Code::InvArgs.raw() as u64) << 4 | (0u64 << 9);
        }
        self.ext_cmd.set(tile, status);
        Ok(())
    }
}

} // verus!
