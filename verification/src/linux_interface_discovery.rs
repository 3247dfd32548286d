//! Decisions of Linux interface discovery: which interfaces are usable for ARP scanning, how the
//! socket addresses the kernel reports are read, and which interface a scan uses.

use vstd::prelude::*;

use crate::error::AppError;
use crate::interface_validation::{
    interface_name_problem, validate_interface_name_for_linux_packet_socket,
};
use crate::ipv4_text::ipv4_from_octets;
use crate::link_layer_backend::ArpScanInterfaceCandidate;
use crate::linux_packet::{
    HARDWARE_TYPE_ETHERNET, INTERFACE_FLAG_LOOPBACK, INTERFACE_FLAG_NO_ARP, INTERFACE_FLAG_UP,
    SOCKET_ADDRESS_FAMILY_INTERNET,
};
use crate::linux_socket::{has_flag, scan_rejection_reason};
use crate::mac_address::{zero_octets, MacAddress};
use crate::text::{decimal_text, push_decimal, push_text};

verus! {

/// Returns `true` when `flags` indicate an interface that is administratively up, not loopback,
/// and does not have `NOARP` set.
pub fn interface_flags_allow_arp_scanning(flags: i32) -> (allowed: bool)
    ensures
        allowed == scan_rejection_reason(
            has_flag(flags, INTERFACE_FLAG_LOOPBACK),
            has_flag(flags, INTERFACE_FLAG_NO_ARP),
            has_flag(flags, INTERFACE_FLAG_UP),
        ) is None,
{
    (flags & INTERFACE_FLAG_LOOPBACK) == 0 && (flags & INTERFACE_FLAG_NO_ARP) == 0 && (flags
        & INTERFACE_FLAG_UP) != 0
}

/// The usable-interface candidate for `interface_name` (index `interface_index`) from what its
/// queries returned, each `None` when the query failed: its flags, its IPv4 address, its IPv4
/// netmask and its Ethernet hardware address. A candidate exists exactly when the name is valid,
/// the flags were read and allow ARP scanning, and the three addresses were read.
pub fn arp_scan_interface_candidate(
    interface_name: &str,
    interface_index: u32,
    flags: Option<i32>,
    source_ipv4_address: Option<u32>,
    ipv4_netmask: Option<u32>,
    source_mac_address: Option<MacAddress>,
) -> (candidate: Option<ArpScanInterfaceCandidate>)
    ensures
        candidate is Some <==> {
            &&& interface_name_problem(interface_name@) is None
            &&& flags matches Some(f) && scan_rejection_reason(
                has_flag(f, INTERFACE_FLAG_LOOPBACK),
                has_flag(f, INTERFACE_FLAG_NO_ARP),
                has_flag(f, INTERFACE_FLAG_UP),
            ) is None
            &&& source_ipv4_address is Some
            &&& ipv4_netmask is Some
            &&& source_mac_address is Some
        },
        candidate matches Some(c) ==> {
            &&& c.interface_name@ == interface_name@
            &&& c.interface_index == interface_index
            &&& source_ipv4_address == Some(c.source_ipv4_address)
            &&& ipv4_netmask == Some(c.ipv4_netmask)
            &&& source_mac_address == Some(c.source_mac_address)
        },
{
    if validate_interface_name_for_linux_packet_socket(interface_name).is_err() {
        return None;
    }
    let flags = match flags {
        Some(flags) => flags,
        None => {
            return None;
        },
    };
    if !interface_flags_allow_arp_scanning(flags) {
        return None;
    }
    match (source_ipv4_address, ipv4_netmask, source_mac_address) {
        (Some(source_ipv4_address), Some(ipv4_netmask), Some(source_mac_address)) => Some(
            ArpScanInterfaceCandidate {
                interface_name: String::from_str(interface_name),
                interface_index,
                source_ipv4_address,
                ipv4_netmask,
                source_mac_address,
            },
        ),
        _ => None,
    }
}

/// Reads the IPv4 address of an `AF_INET` socket address from its family and the four octets of
/// `sin_addr` (in network order); returns the family as the error when it is not `AF_INET`.
pub fn read_ipv4_from_sockaddr(address_family: u16, address_octets: [u8; 4]) -> (address: Result<
    u32,
    u16,
>)
    ensures
        address_family == SOCKET_ADDRESS_FAMILY_INTERNET ==> address == Ok::<u32, u16>(
            ipv4_from_octets(address_octets@[0], address_octets@[1], address_octets@[2], address_octets@[3]),
        ),
        address_family != SOCKET_ADDRESS_FAMILY_INTERNET ==> address == Err::<u32, u16>(address_family),
{
    if address_family != SOCKET_ADDRESS_FAMILY_INTERNET {
        return Err(address_family);
    }
    Ok((address_octets[0] as u32) * 0x100_0000 + (address_octets[1] as u32) * 0x1_0000
        + (address_octets[2] as u32) * 0x100 + (address_octets[3] as u32))
}

/// The reason an interface's hardware address is refused, or `None` when it is a usable Ethernet
/// address.
pub open spec fn hardware_address_problem(address_family: u16, octets: Seq<u8>) -> Option<Seq<char>> {
    if address_family != HARDWARE_TYPE_ETHERNET {
        Some(
            "hardware address family is not Ethernet (expected 1, got "@ + decimal_text(
                address_family as nat,
            ) + ")"@,
        )
    } else if octets == zero_octets() {
        Some("hardware address is all zero"@)
    } else {
        None
    }
}

/// Reads the Ethernet hardware address an interface reports, from the socket address family
/// and the first six octets of `sa_data`.
///
/// Returns [`AppError::InterfaceHardwareAddressUnsupported`] when the family is not Ethernet or
/// the address is all zero.
pub fn read_hardware_address_from_sockaddr(
    interface_name: &str,
    address_family: u16,
    address_data: [u8; 6],
) -> (address: Result<MacAddress, AppError>)
    ensures
        match hardware_address_problem(address_family, address_data@) {
            None => address matches Ok(mac) && mac@ == address_data@,
            Some(reason) => address matches Err(
                AppError::InterfaceHardwareAddressUnsupported { interface_name: name, reason: r },
            ) && name@ == interface_name@ && r@ == reason,
        },
{
    if address_family != HARDWARE_TYPE_ETHERNET {
        let mut reason = String::new();
        push_text(&mut reason, "hardware address family is not Ethernet (expected 1, got ");
        push_decimal(&mut reason, address_family as u128);
        push_text(&mut reason, ")");
        assert(reason@ =~= "hardware address family is not Ethernet (expected 1, got "@
            + decimal_text(address_family as nat) + ")"@);
        return Err(
            AppError::InterfaceHardwareAddressUnsupported {
                interface_name: String::from_str(interface_name),
                reason,
            },
        );
    }
    let address = MacAddress::from_octets(address_data);
    if address.is_zero() {
        return Err(
            AppError::InterfaceHardwareAddressUnsupported {
                interface_name: String::from_str(interface_name),
                reason: String::from_str("hardware address is all zero"),
            },
        );
    }
    Ok(address)
}

/// Which interface a scan uses: `explicit_interface_name` when one is given (after the name
/// checks of [`validate_interface_name_for_linux_packet_socket`]; the kernel checks of that
/// interface are the caller's), otherwise the only usable candidate.
///
/// Returns [`AppError::AutomaticInterfaceSelectionNoneFound`] when no interface is usable and
/// [`AppError::AutomaticInterfaceSelectionAmbiguous`] listing every usable interface name, in
/// candidate order, when several are.
pub fn resolve_scan_interface_name(
    explicit_interface_name: Option<&str>,
    usable_candidates: &Vec<ArpScanInterfaceCandidate>,
) -> (resolved: Result<String, AppError>)
    ensures
        match explicit_interface_name {
            Some(name) => match interface_name_problem(name@) {
                None => resolved matches Ok(chosen) && chosen@ == name@,
                Some(problem) => resolved matches Err(AppError::InvalidInterfaceName { message })
                    && message@ == problem,
            },
            None => if usable_candidates@.len() == 0 {
                resolved matches Err(AppError::AutomaticInterfaceSelectionNoneFound)
            } else if usable_candidates@.len() == 1 {
                resolved matches Ok(chosen) && chosen@ == usable_candidates@[0].interface_name@
            } else {
                resolved matches Err(AppError::AutomaticInterfaceSelectionAmbiguous { interface_names })
                    && interface_names@.len() == usable_candidates@.len() && forall|i: int|
                    0 <= i < interface_names@.len() ==> #[trigger] interface_names@[i]@
                        == usable_candidates@[i].interface_name@
            },
        },
{
    match explicit_interface_name {
        Some(interface_name) => {
            match validate_interface_name_for_linux_packet_socket(interface_name) {
                Ok(()) => Ok(String::from_str(interface_name)),
                Err(error) => Err(error),
            }
        },
        None => {
            if usable_candidates.len() == 0 {
                return Err(AppError::AutomaticInterfaceSelectionNoneFound);
            }
            if usable_candidates.len() == 1 {
                return Ok(usable_candidates[0].interface_name.clone());
            }
            let mut interface_names: Vec<String> = Vec::new();
            let mut index: usize = 0;
            while index < usable_candidates.len()
                invariant
                    index <= usable_candidates@.len(),
                    interface_names@.len() == index,
                    forall|i: int|
                        0 <= i < index ==> #[trigger] interface_names@[i]@
                            == usable_candidates@[i].interface_name@,
                decreases usable_candidates@.len() - index,
            {
                interface_names.push(usable_candidates[index].interface_name.clone());
                index = index + 1;
            }
            Err(AppError::AutomaticInterfaceSelectionAmbiguous { interface_names })
        },
    }
}

} // verus!
