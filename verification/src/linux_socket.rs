//! Decisions of the Linux packet socket backend: which interface flags allow ARP scanning and
//! which Ethernet protocols the socket captures and sends with.

use vstd::prelude::*;

use crate::error::{input_output_error, AppError, InputOutputErrorKind};
use crate::ethernet_frame::{Ieee8021qVlanIdentifier, ETHERNET_PROTOCOL_VLAN_TAG};
use crate::linux_packet::{
    ethernet_protocol_host_to_network_order, network_order_u16, SockAddressLinkLayer,
    ETHERNET_PROTOCOL_ALL, ETHERNET_PROTOCOL_ARP, HARDWARE_TYPE_ETHERNET, INTERFACE_FLAG_LOOPBACK,
    INTERFACE_FLAG_NO_ARP, INTERFACE_FLAG_UP, SOCKET_ADDRESS_FAMILY_PACKET,
};
use crate::text::{push_decimal, push_text};

verus! {

/// Why an interface with these properties cannot be scanned, or `None` when it can: loopback
/// first, then `NOARP`, then administratively down.
pub open spec fn scan_rejection_reason(loopback: bool, no_arp: bool, up: bool) -> Option<Seq<char>> {
    if loopback {
        Some("loopback interface"@)
    } else if no_arp {
        Some("interface has NOARP set"@)
    } else if !up {
        Some("interface is not UP"@)
    } else {
        None
    }
}

/// Whether `flags` has any of the bits of `flag`.
pub open spec fn has_flag(flags: i32, flag: i32) -> bool {
    flags & flag != 0
}

/// Rejects an interface whose `flags` show it is loopback, has `NOARP` set, or is not
/// administratively up, with [`AppError::InterfaceRejectedForScanning`] naming the interface and
/// the first of those reasons.
pub fn validate_interface_flags_for_arp_scanning(interface_name: &str, flags: i32) -> (validation:
    Result<(), AppError>)
    ensures
        match scan_rejection_reason(
            has_flag(flags, INTERFACE_FLAG_LOOPBACK),
            has_flag(flags, INTERFACE_FLAG_NO_ARP),
            has_flag(flags, INTERFACE_FLAG_UP),
        ) {
            None => validation is Ok,
            Some(reason) => validation matches Err(
                AppError::InterfaceRejectedForScanning { interface_name: name, reason: r },
            ) && name@ == interface_name@ && r@ == reason,
        },
{
    if (flags & INTERFACE_FLAG_LOOPBACK) != 0 {
        return Err(
            AppError::InterfaceRejectedForScanning {
                interface_name: String::from_str(interface_name),
                reason: String::from_str("loopback interface"),
            },
        );
    }
    if (flags & INTERFACE_FLAG_NO_ARP) != 0 {
        return Err(
            AppError::InterfaceRejectedForScanning {
                interface_name: String::from_str(interface_name),
                reason: String::from_str("interface has NOARP set"),
            },
        );
    }
    if (flags & INTERFACE_FLAG_UP) == 0 {
        return Err(
            AppError::InterfaceRejectedForScanning {
                interface_name: String::from_str(interface_name),
                reason: String::from_str("interface is not UP"),
            },
        );
    }
    Ok(())
}

/// The protocol the packet socket captures: every protocol (`ETH_P_ALL`) for a VLAN scan, so
/// that tagged replies and replies whose tag the kernel stripped both arrive; ARP otherwise.
pub fn packet_socket_protocol_for_vlan_scan(vlan_identifier: Option<Ieee8021qVlanIdentifier>) -> (protocol: u16)
    ensures
        protocol == (if vlan_identifier is Some {
            ETHERNET_PROTOCOL_ALL
        } else {
            ETHERNET_PROTOCOL_ARP
        }),
{
    if vlan_identifier.is_some() {
        ETHERNET_PROTOCOL_ALL
    } else {
        ETHERNET_PROTOCOL_ARP
    }
}

/// The protocol of the send address: the IEEE 802.1Q TPID for a VLAN scan, ARP otherwise.
pub fn link_layer_send_protocol_for_vlan_scan(vlan_identifier: Option<Ieee8021qVlanIdentifier>) -> (protocol: u16)
    ensures
        protocol == (if vlan_identifier is Some {
            ETHERNET_PROTOCOL_VLAN_TAG
        } else {
            ETHERNET_PROTOCOL_ARP
        }),
{
    if vlan_identifier.is_some() {
        ETHERNET_PROTOCOL_VLAN_TAG
    } else {
        ETHERNET_PROTOCOL_ARP
    }
}

/// The broadcast link-layer destination a scan sends its requests to on the interface with
/// `interface_index`: `AF_PACKET`, the protocol in network byte order, Ethernet hardware type and
/// the all-ones six-octet address.
///
/// Returns [`AppError::InterfaceLookupFailed`] naming the interface when the index does not fit
/// the signed `sll_ifindex` field.
pub fn link_layer_broadcast_destination_for_scan(
    interface_name: &str,
    interface_index: u32,
    ethernet_protocol_host_order: u16,
) -> (destination: Result<SockAddressLinkLayer, AppError>)
    ensures
        interface_index <= i32::MAX ==> (destination matches Ok(address) && {
            &&& address.socket_address_family == SOCKET_ADDRESS_FAMILY_PACKET
            &&& network_order_u16(ethernet_protocol_host_order).contains(
                address.link_layer_protocol,
            )
            &&& address.interface_index == interface_index
            &&& address.hardware_type == HARDWARE_TYPE_ETHERNET
            &&& address.packet_type == 0
            &&& address.hardware_address_length == 6
            &&& address.hardware_address@ == seq![0xFFu8, 0xFF, 0xFF, 0xFF, 0xFF, 0xFF, 0, 0]
        }),
        interface_index > i32::MAX ==> (destination matches Err(
            AppError::InterfaceLookupFailed { interface_name: name, .. },
        ) && name@ == interface_name@),
{
    if interface_index > i32::MAX as u32 {
        let mut message = String::from_str("interface index ");
        push_decimal(&mut message, interface_index as u128);
        push_text(&mut message, " does not fit sockaddr_ll");
        return Err(
            AppError::InterfaceLookupFailed {
                interface_name: String::from_str(interface_name),
                source: input_output_error(InputOutputErrorKind::InvalidData, message.as_str()),
            },
        );
    }
    let hardware_address: [u8; 8] = [0xFF, 0xFF, 0xFF, 0xFF, 0xFF, 0xFF, 0, 0];
    let destination = SockAddressLinkLayer {
        socket_address_family: SOCKET_ADDRESS_FAMILY_PACKET,
        link_layer_protocol: ethernet_protocol_host_to_network_order(ethernet_protocol_host_order),
        interface_index: interface_index as i32,
        hardware_type: HARDWARE_TYPE_ETHERNET,
        packet_type: 0,
        hardware_address_length: 6,
        hardware_address,
    };
    assert(destination.hardware_address@ =~= seq![0xFFu8, 0xFF, 0xFF, 0xFF, 0xFF, 0xFF, 0, 0]);
    Ok(destination)
}

} // verus!
