use vstd::prelude::*;
use crate::tcu::{ActId, EpId, TileId};

verus! {

/// An endpoint of a tile, named by both ids.
#[derive(Clone, Copy, Debug, PartialEq, Eq, Structural)]
pub struct EpLoc {
    pub tile: TileId,
    pub ep: EpId,
}

/// A receive gate: a ring buffer of messages, activated once it is bound to an endpoint.
#[derive(Clone, Copy, Debug, PartialEq, Eq, Structural)]
pub struct RGateObject {
    /// Tile and endpoint it is activated on, if any.
    pub loc: Option<EpLoc>,
    pub addr: u64,
    /// Order of the buffer size.
    pub order: u32,
    /// Order of the message size.
    pub msg_order: u32,
}

impl RGateObject {
    pub open spec fn is_activated(&self) -> bool {
        self.loc is Some
    }

    /// Returns whether it is bound to an endpoint.
    pub fn activated(&self) -> (r: bool)
        ensures
            r == self.is_activated(),
    {
        self.loc.is_some()
    }
}

/// A send gate to a receive gate, with the label the receiver sees and the credits it has.
#[derive(Clone, Copy, Debug, PartialEq, Eq, Structural)]
pub struct SGateObject {
    pub rgate: RGateObject,
    pub label: u64,
    pub credits: u32,
}

/// A memory gate: a region of a tile's memory with permissions.
#[derive(Clone, Copy, Debug, PartialEq, Eq, Structural)]
pub struct MGateObject {
    pub tile: TileId,
    pub offset: u64,
    pub size: u64,
    pub perms: u32,
}

/// An endpoint of a tile.
#[derive(Clone, Copy, Debug, PartialEq, Eq, Structural)]
pub struct EpObject {
    /// Whether it is one of an activity's standard endpoints.
    pub is_std: bool,
    /// The activity that owns it, if any.
    pub act: Option<ActId>,
    pub ep: EpId,
    /// Number of reply slots it was configured with.
    pub replies: u32,
    pub tile: TileId,
}

/// A tile with its endpoint quota and the ids of its time and page-table quotas.
#[derive(Clone, Copy, Debug, PartialEq, Eq, Structural)]
pub struct TileObject {
    pub id: TileId,
    pub eps_quota: u32,
    pub time_quota: u64,
    pub pt_quota: u64,
    /// Whether several activities share the tile.
    pub shared: bool,
}

/// A service, registered by the activity that implements it.
#[derive(Clone, Copy, Debug, PartialEq, Eq, Structural)]
pub struct ServObject {
    /// Id of the service in the kernel's service list.
    pub id: u64,
    /// The activity that runs the service.
    pub owner: ActId,
    /// Sessions the service may still open.
    pub sessions: u32,
}

/// A session at a service.
#[derive(Clone, Copy, Debug, PartialEq, Eq, Structural)]
pub struct SessObject {
    pub serv: ServObject,
    /// The identifier the service chose for the session.
    pub ident: u64,
    /// The label under which requests for this session reach the service.
    pub creator: u64,
}

/// A mapping of pages of an address space to global memory.
#[derive(Clone, Copy, Debug, PartialEq, Eq, Structural)]
pub struct MapObject {
    pub virt: u64,
    pub pages: u64,
    pub global: u64,
    pub perms: u32,
}

/// The kinds of object a capability can refer to.
#[derive(Clone, Copy, Debug, PartialEq, Eq, Structural)]
pub enum KObject {
    Activity(ActId),
    MGate(MGateObject),
    SGate(SGateObject),
    RGate(RGateObject),
    Serv(ServObject),
    Sess(SessObject),
    Tile(TileObject),
    Ep(EpObject),
    Mapping(MapObject),
}

impl KObject {
    /// Whether revoking a capability to this object has to reach the tile that holds it.
    pub open spec fn needs_remote_inval(&self) -> bool {
        self is Ep || self is Mapping || self is RGate
    }

    /// Returns whether revoking a capability to this object has to reach a remote tile.
    pub fn remote_inval(&self) -> (r: bool)
        ensures
            r == self.needs_remote_inval(),
    {
        match self {
            KObject::Ep(_) | KObject::Mapping(_) | KObject::RGate(_) => true,
            _ => false,
        }
    }

    pub open spec fn cap_type(&self) -> CapType {
        if self is Mapping { CapType::Mapping } else { CapType::Object }
    }
}

/// The two name spaces of capabilities.
#[derive(Clone, Copy, Debug, PartialEq, Eq, Structural)]
pub enum CapType {
    Object,
    Mapping,
}

/// Capability selector.
pub type CapSel = u64;

/// A run of `count` selectors from `start` in one name space.
#[derive(Clone, Copy, Debug, PartialEq, Eq, Structural)]
pub struct CapRngDesc {
    pub ty: CapType,
    pub start: CapSel,
    pub count: u64,
}

impl CapRngDesc {
    pub fn new(ty: CapType, start: CapSel, count: u64) -> (r: CapRngDesc)
        ensures
            r.ty == ty,
            r.start == start,
            r.count == count,
    {
        CapRngDesc { ty, start, count }
    }

}

} // verus!
