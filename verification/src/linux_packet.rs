//! Linux link-layer constants used by the packet socket backend.

use vstd::prelude::*;

use crate::octets::{be16, le16, native16, native_endian_u16, u16_octets};

verus! {

/// Linux packet socket address family (`AF_PACKET`).
pub const SOCKET_ADDRESS_FAMILY_PACKET: u16 = 17;

/// IPv4 socket address family (`AF_INET`).
pub const SOCKET_ADDRESS_FAMILY_INTERNET: u16 = 2;

/// Ethernet protocol identifier for ARP (`ETH_P_ARP` in `linux/if_ether.h`).
pub const ETHERNET_PROTOCOL_ARP: u16 = 0x0806;

/// Ethernet protocol identifier that captures every protocol (`ETH_P_ALL`).
pub const ETHERNET_PROTOCOL_ALL: u16 = 0x0003;

/// ARP hardware type of Ethernet interfaces (`ARPHRD_ETHER` in `linux/if_arp.h`).
pub const HARDWARE_TYPE_ETHERNET: u16 = 1;

/// `IFF_UP` from `linux/if.h` (interface is administratively up).
pub const INTERFACE_FLAG_UP: i32 = 0x0001;

/// `IFF_LOOPBACK` from `linux/if.h`.
pub const INTERFACE_FLAG_LOOPBACK: i32 = 0x0008;

/// `IFF_NOARP` from `linux/if.h`.
pub const INTERFACE_FLAG_NO_ARP: i32 = 0x0080;

/// Linux `sockaddr_ll`: the link-layer address a packet socket binds to and sends to, field by
/// field in `libc` order and widths.
#[derive(Debug, Clone, Copy, PartialEq, Eq)]
pub struct SockAddressLinkLayer {
    /// Address family; always `AF_PACKET` when used with packet sockets.
    pub socket_address_family: u16,
    /// Physical-layer protocol in network byte order (for example `ETH_P_ARP`).
    pub link_layer_protocol: u16,
    /// Interface index (`ifindex`).
    pub interface_index: i32,
    /// ARP hardware type (`ARPHRD_*`).
    pub hardware_type: u16,
    /// Packet type (`PACKET_*`, primarily for received packets).
    pub packet_type: u8,
    /// Number of valid octets of [`Self::hardware_address`].
    pub hardware_address_length: u8,
    /// Physical-layer address octets (for Ethernet, six are used).
    pub hardware_address: [u8; 8],
}

/// The value a 16-bit field holds in memory when its octets are the big-endian octets of
/// `value`: `value` on a big-endian machine, its octets swapped on a little-endian one.
pub open spec fn network_order_u16(value: u16) -> Set<u16> {
    set![be16(u16_octets(value), 0), le16(u16_octets(value), 0)]
}

/// Converts an Ethernet protocol number from host byte order to the network byte order
/// `sockaddr_ll.sll_protocol` expects (`u16::to_be`): the value whose octets in the byte order
/// of the machine are the big-endian octets of the protocol number, so the protocol number itself
/// on a big-endian machine and its octets swapped on a little-endian one.
pub fn ethernet_protocol_host_to_network_order(ethernet_protocol_host_order: u16) -> (network: u16)
    ensures
        network == native16(u16_octets(ethernet_protocol_host_order), 0),
        network_order_u16(ethernet_protocol_host_order).contains(network),
{
    native_endian_u16(
        [(ethernet_protocol_host_order / 256) as u8, (ethernet_protocol_host_order % 256) as u8],
    )
}

} // verus!
