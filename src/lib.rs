//! Capability exchange and revocation for a microkernel on a manycore machine of tiles.
//!
//! - `cap` and `kernel`: the capabilities of all activities in one arena with derivation
//!   links, exchange between activities (directly or through a service session) and
//!   revocation of whole derivation subtrees, children first.
//! - `tilemux`: the kernel's proxy for a tile's multiplexer: the tile's endpoint bitmap,
//!   endpoint programming, and sidecalls over a `sendqueue`.
//! - `ktcu` and `fabric`: remote access to the transport units' endpoint registers and their
//!   extended commands; `tcu` holds the register layout.
//! - `pedesc`, `pemux`, `m3fs`, `services`, `mods`: descriptors and bookkeeping of the
//!   surrounding system (processing elements, interrupt state, file-system metadata, the
//!   resource manager's services and boot modules).

pub mod error;
pub mod tcu;
pub mod fabric;
pub mod ktcu;
pub mod sendqueue;
pub mod kobj;
pub mod tilemux;
pub mod cap;
pub mod kernel;
pub mod pedesc;
pub mod pemux;
pub mod m3fs;
pub mod services;
pub mod mods;
