//! Application commands accepted by the binary's run loop, and the on-wire options of a scan.
//!
//! Durations are whole nanoseconds (what `std::time::Duration::as_nanos` gives) and IPv4
//! addresses are `u32` values in host order.

use vstd::prelude::*;

use crate::ethernet_frame::Ieee8021qVlanIdentifier;
use crate::ipv4_text::{parse_ipv4_address, parse_ipv4_text};
use crate::text::{chars_of, push_text};

verus! {

/// How transmitted ARP requests fill RFC 826 `ar$spa`.
#[derive(Debug, Clone, Copy, PartialEq, Eq, Structural)]
pub enum ArpSenderProtocolAddress {
    /// Use the scanning interface IPv4 address (RFC 826 default, and the default of the classic `arp-scan` tool).
    Interface,
    /// Override `ar$spa` with this address. `0.0.0.0` is an RFC 5227 ARP Probe.
    Explicit(u32),
    /// Set `ar$spa` to each target's IPv4 address (RFC 5227 ARP Announcement / classic
    /// `arp-scan` `--arpspa dest`).
    DestinationTarget,
}

/// `c` with ASCII uppercase letters folded to lowercase (`char::to_ascii_lowercase`).
pub open spec fn ascii_lowercase(c: char) -> char {
    if 'A' <= c && c <= 'Z' {
        ((c as u32) + 32) as char
    } else {
        c
    }
}

/// Whether `text` is `dest` in any ASCII letter case (`str::eq_ignore_ascii_case`).
pub open spec fn is_dest_token(text: Seq<char>) -> bool {
    &&& text.len() == 4
    &&& ascii_lowercase(text[0]) == 'd'
    &&& ascii_lowercase(text[1]) == 'e'
    &&& ascii_lowercase(text[2]) == 's'
    &&& ascii_lowercase(text[3]) == 't'
}

/// The message for an `--arpspa` token that is neither `dest` nor an IPv4 address.
pub open spec fn invalid_sender_protocol_address_message(token: Seq<char>) -> Seq<char> {
    "invalid --arpspa value '"@ + token
        + "': expected a dotted-quad IPv4 address or dest"@
}

/// The `ar$spa` a request for `target` carries under `mode`.
pub open spec fn sender_protocol_address_for(
    mode: ArpSenderProtocolAddress,
    interface_ipv4_address: u32,
    target_ipv4_address: u32,
) -> u32 {
    match mode {
        ArpSenderProtocolAddress::Interface => interface_ipv4_address,
        ArpSenderProtocolAddress::Explicit(address) => address,
        ArpSenderProtocolAddress::DestinationTarget => target_ipv4_address,
    }
}

fn ascii_lowercase_char(c: char) -> (lower: char)
    ensures
        lower == ascii_lowercase(c),
{
    if 'A' <= c && c <= 'Z' {
        ((c as u8) + 32) as char
    } else {
        c
    }
}

impl ArpSenderProtocolAddress {
    /// Parses an `--arpspa` token: dotted-quad IPv4, or `dest` (case-insensitive).
    pub fn parse_cli_token(token: &str) -> (parsed: Result<ArpSenderProtocolAddress, String>)
        ensures
            is_dest_token(token@) ==> parsed == Ok::<ArpSenderProtocolAddress, String>(
                ArpSenderProtocolAddress::DestinationTarget,
            ),
            !is_dest_token(token@) ==> match parse_ipv4_text(token@) {
                Some(address) => parsed == Ok::<ArpSenderProtocolAddress, String>(
                    ArpSenderProtocolAddress::Explicit(address),
                ),
                None => parsed matches Err(message) && message@
                    == invalid_sender_protocol_address_message(token@),
            },
    {
        let characters = chars_of(token);
        if characters.len() == 4 && ascii_lowercase_char(characters[0]) == 'd'
            && ascii_lowercase_char(characters[1]) == 'e' && ascii_lowercase_char(characters[2])
            == 's' && ascii_lowercase_char(characters[3]) == 't' {
            return Ok(ArpSenderProtocolAddress::DestinationTarget);
        }
        match parse_ipv4_address(token) {
            Some(address) => Ok(ArpSenderProtocolAddress::Explicit(address)),
            None => {
                let mut message = String::new();
                push_text(&mut message, "invalid --arpspa value '");
                push_text(&mut message, token);
                push_text(&mut message, "': expected a dotted-quad IPv4 address or dest");
                Err(message)
            },
        }
    }

    /// Returns the `ar$spa` value for one transmitted request.
    pub fn ipv4_address_for_target(self, interface_ipv4_address: u32, target_ipv4_address: u32) -> (address: u32)
        ensures
            address == sender_protocol_address_for(self, interface_ipv4_address, target_ipv4_address),
    {
        match self {
            ArpSenderProtocolAddress::Interface => interface_ipv4_address,
            ArpSenderProtocolAddress::Explicit(address) => address,
            ArpSenderProtocolAddress::DestinationTarget => target_ipv4_address,
        }
    }
}

/// On-wire options for transmitted ARP requests.
#[derive(Debug, Clone, Copy, PartialEq, Eq)]
pub struct ScanWireOptions {
    /// When set, transmit a single IEEE 802.1Q tag with this VLAN identifier (PCP and DEI zero).
    pub vlan_identifier: Option<Ieee8021qVlanIdentifier>,
    /// Value encoded in RFC 826 `ar$spa`.
    pub sender_protocol_address: ArpSenderProtocolAddress,
    /// When true, encapsulate ARP in IEEE 802.3 with RFC 1042 LLC/SNAP instead of Ethernet II.
    pub llc_snap: bool,
}

impl Default for ScanWireOptions {
    /// Untagged Ethernet II requests carrying the interface address.
    fn default() -> (options: ScanWireOptions)
        ensures
            options.vlan_identifier is None,
            options.sender_protocol_address == ArpSenderProtocolAddress::Interface,
            !options.llc_snap,
    {
        ScanWireOptions {
            vlan_identifier: None,
            sender_protocol_address: ArpSenderProtocolAddress::Interface,
            llc_snap: false,
        }
    }
}

/// Default global receive window after the last address resolution request is sent: three
/// seconds, in nanoseconds.
pub const DEFAULT_SCAN_TIMEOUT: u128 = 3_000_000_000;

/// Default delay between full scan rounds (no pacing between rounds), in nanoseconds.
pub const DEFAULT_SCAN_PACING: u128 = 0;

/// Default number of times each target address receives at least one address resolution
/// request.
pub const DEFAULT_SCAN_ATTEMPTS: u64 = 1;

/// A command dispatched from the binary after command-line parsing.
#[derive(Debug, Clone, PartialEq, Eq)]
pub enum ApplicationCommand {
    /// Scan the given data-link interface's local IPv4 subnet using address resolution protocol.
    Scan {
        /// Operating system name of the network interface (for example `eth0`), or `None` to
        /// select automatically when exactly one usable interface exists.
        interface_name: Option<String>,
        /// When set, probe only this IPv4 address (strictly interior on the interface subnet).
        target_ipv4_address: Option<u32>,
        /// Global receive window after the final request transmission, in nanoseconds.
        timeout: u128,
        /// Delay after each full round of target sends except the last round, in nanoseconds.
        pacing: u128,
        /// Total request rounds (at least one): each round sends one broadcast request per
        /// target.
        attempts: u64,
        /// IEEE 802.1Q tag, RFC 826 `ar$spa` override, and RFC 1042 LLC/SNAP framing.
        wire: ScanWireOptions,
    },
    /// List interfaces that are usable for ARP scanning.
    UsableInterfacesList,
}

} // verus!
