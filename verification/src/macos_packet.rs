//! macOS link-layer constants used for interface classification.

use vstd::prelude::*;

verus! {

/// `IFF_UP` from `net/if.h` (interface is administratively up).
pub const INTERFACE_FLAG_UP: i32 = 0x0001;

/// `IFF_LOOPBACK` from `net/if.h`.
pub const INTERFACE_FLAG_LOOPBACK: i32 = 0x0008;

/// `IFF_NOARP` from `net/if.h` (no address resolution protocol on this interface).
pub const INTERFACE_FLAG_NO_ARP: i32 = 0x0080;

/// `IFT_ETHER` from `net/if_types.h` (Ethernet CSMA/CD link-layer type).
pub const INTERFACE_TYPE_ETHERNET: u8 = 0x06;

} // verus!
