//! Hardware-control layer for a network-switch management subsystem.
//!
//! Two families of remote, register-addressed peripherals are driven here:
//! "ignition" link controllers (power/reset sequencing targets behind a
//! mapped register window) and a switch/PHY chip complex behind a framed
//! serial register bus with a nested MIIM management protocol.  Both are
//! asynchronous peripherals: a command takes effect only after the remote
//! side has processed it, so every interaction is a bounded-retry polling
//! protocol over a register space.
//!
//! The bus transports themselves are collaborators, modelled as traits in
//! [`transport`]; everything layered above them — addressing, register
//! codecs, the command/response engines, framing, and the paged PHY
//! protocol — is verified.

use vstd::prelude::*;

pub mod bridge;
pub mod ignition;
pub mod miim;
pub mod script;
pub mod transceivers;
pub mod transport;

verus! {

/// Absolute register address of a logical ignition target register:
/// the shared window starts at `base`, each target occupies a 256-byte
/// stride, and `offset` selects the register inside the target's block.
pub fn target_register_address(base: u16, id: u8, offset: u16) -> (addr: u16)
    requires
        base + 256 * (id as int) + offset <= u16::MAX,
    ensures
        addr == base + 256 * (id as int) + offset,
{
    base + 256 * (id as u16) + offset
}

} // verus!
