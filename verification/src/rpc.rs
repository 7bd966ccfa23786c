//! The values exchanged with the device's RPC server.
use vstd::prelude::*;

verus! {

/// The cartridge slot mode the device is switched to.
#[derive(Debug, Clone, Copy, PartialEq, Eq, Structural)]
pub enum ReqMode {
    GB,
    GBA,
}

/// Flash write statistics that the device keeps for Game Boy cartridges.
#[derive(Debug, Clone, Copy, PartialEq, Eq, Structural)]
pub struct GBStats {
    pub flash_write_retries: u64,
    pub flash_write_errors: u64,
}

} // verus!
