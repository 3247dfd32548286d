//! Portable address resolution scan logic: target expansion, the schedule of request rounds
//! with pacing between them, reply acceptance, duplicate reply merging and the bounded receive
//! wait.
//!
//! Durations are whole nanoseconds (what `std::time::Duration::as_nanos` gives).

use vstd::prelude::*;

use std::collections::BTreeMap;

use crate::address_resolution_protocol::{
    arp_ethernet_frame, arp_payload, build_address_resolution_payload, minimum_frame_padding,
    parse_arp_reply, try_parse_address_resolution_reply_ipv4_over_ethernet, ARP_OPERATION_REQUEST,
    NOT_ARP_MESSAGE,
};
use crate::application_command::{sender_protocol_address_for, ScanWireOptions};
use crate::application_outcome::{DiscoveredHost, ScanOutcome};
use crate::error::AppError;
use crate::ethernet_frame::{
    parse_ethernet_frame, try_parse_ethernet_frame, encode_ethernet_ii_frame_with_optional_ieee_8021q_tag,
    encode_ieee_8023_rfc_1042_llc_snap_frame, ethernet_ii_frame, llc_snap_frame, llc_snap_octets,
    optional_tag_stack_octets, tag_stack_octets, Ieee8021qTagControlInformation, Ieee8021qTagStack, Ieee8021qVlanIdentifier,
    ETHERNET_PROTOCOL_ARP, ETHERNET_PROTOCOL_VLAN_TAG,
};
use crate::ipv4_cidr::{address_range, Ipv4HostAddressIterator};
use crate::ipv4_subnet::{
    broadcast_address, ipv4_address_is_strictly_inside_subnet, is_contiguous_netmask,
    netmask_of_prefix, network_address, single_target_rejection_reason, strictly_inside,
    unsupported_prefix_message, validate_strict_interior_scan_target_ipv4_address,
};
use crate::link_layer_backend::InterfaceScanAddresses;
use crate::mac_address::{broadcast_octets, colon_hex_text, mac_address_of, zero_octets, MacAddress};
use crate::ipv4_text::{ipv4_text, push_ipv4_text};
use crate::octets::u16_octets;
use crate::text::push_text;

verus! {

broadcast use vstd::std_specs::btree::group_btree_axioms, vstd::laws_cmp::group_laws_cmp;

/// Nanoseconds in one millisecond.
pub const NANOSECONDS_PER_MILLISECOND: u128 = 1_000_000;

/// Converts the remaining receive time to a `poll(2)` timeout in whole milliseconds, clamped to
/// `i32::MAX` (`c_int::MAX`) when the span does not fit the system call parameter type.
pub fn poll_timeout_milliseconds_for_receive_wait(remaining_nanoseconds: u128) -> (timeout: i32)
    ensures
        remaining_nanoseconds / 1_000_000 <= i32::MAX ==> timeout == remaining_nanoseconds
            / 1_000_000,
        remaining_nanoseconds / 1_000_000 > i32::MAX ==> timeout == i32::MAX,
{
    let milliseconds = remaining_nanoseconds / NANOSECONDS_PER_MILLISECOND;
    if milliseconds <= i32::MAX as u128 {
        milliseconds as i32
    } else {
        i32::MAX
    }
}

/// The targets of a full-subnet scan: the interior hosts in order, then the interface address
/// when it is not strictly inside the open `(network, broadcast)` interval.
pub open spec fn scan_targets(
    interior_host_addresses: Seq<u32>,
    source_ipv4_address: u32,
    network_bits: u32,
    broadcast_bits: u32,
) -> Seq<u32> {
    if strictly_inside(source_ipv4_address, network_bits, broadcast_bits) {
        interior_host_addresses
    } else {
        interior_host_addresses.push(source_ipv4_address)
    }
}

/// Builds the ordered list of IPv4 targets: interior hosts, then the interface address when it
/// is not strictly inside the open `(network, broadcast)` interval.
pub fn ipv4_scan_target_address_sequence(
    interior_host_addresses: Vec<u32>,
    source_ipv4_address: u32,
    network_bits: u32,
    broadcast_bits: u32,
) -> (targets: Vec<u32>)
    ensures
        targets@ == scan_targets(
            interior_host_addresses@,
            source_ipv4_address,
            network_bits,
            broadcast_bits,
        ),
{
    let mut targets = interior_host_addresses;
    if !ipv4_address_is_strictly_inside_subnet(source_ipv4_address, network_bits, broadcast_bits) {
        targets.push(source_ipv4_address);
    }
    targets
}

/// Whether pacing runs after the round at `round_index` (zero-based): the pacing is not zero and
/// another round follows.
pub open spec fn pacing_follows_round(round_index: int, total_rounds: int, pacing: u128) -> bool {
    pacing != 0 && round_index + 1 < total_rounds
}

/// Returns whether inter-round pacing should run after the round at `round_index` (zero-based).
pub fn should_apply_pacing_after_scan_round(
    round_index: u64,
    total_rounds: u64,
    pacing_between_scan_rounds: u128,
) -> (pace: bool)
    ensures
        pace == pacing_follows_round(round_index as int, total_rounds as int, pacing_between_scan_rounds),
{
    pacing_between_scan_rounds != 0 && round_index.saturating_add(1) < total_rounds
}

/// Returns how many address resolution requests are sent for `target_count` targets over
/// `scan_round_count` full rounds, or `None` when the product does not fit `u64`.
pub fn total_address_resolution_request_send_count(target_count: usize, scan_round_count: u64) -> (count:
    Option<u64>)
    requires
        scan_round_count >= 1,
    ensures
        target_count * scan_round_count <= u64::MAX ==> count == Some((target_count
            * scan_round_count) as u64),
        target_count * scan_round_count > u64::MAX ==> count is None,
{
    let target_count_u64 = target_count as u64;
    target_count_u64.checked_mul(scan_round_count)
}

/// Counts the inter-round pacing sleeps of a scan: one after every round but the last, none
/// when the pacing is zero.
pub open spec fn inter_round_sleeps(total_rounds: nat, pacing: u128) -> nat {
    if pacing == 0 || total_rounds <= 1 {
        0
    } else {
        (total_rounds - 1) as nat
    }
}

/// Counts inter-round pacing sleeps implied by [`should_apply_pacing_after_scan_round`] for every
/// zero-based round index in a scan.
pub fn inter_round_sleep_count_for_scan_schedule(total_rounds: u64, pacing_between_scan_rounds: u128) -> (count:
    u64)
    ensures
        count == inter_round_sleeps(total_rounds as nat, pacing_between_scan_rounds),
{
    if pacing_between_scan_rounds == 0 || total_rounds <= 1 {
        return 0;
    }
    total_rounds - 1
}

/// Number of rounds below `rounds_considered` after which pacing runs.
pub open spec fn pacing_gate_count(rounds_considered: nat, total_rounds: nat, pacing: u128) -> nat
    decreases rounds_considered,
{
    if rounds_considered == 0 {
        0
    } else {
        pacing_gate_count((rounds_considered - 1) as nat, total_rounds, pacing) + if pacing_follows_round(
            rounds_considered - 1,
            total_rounds as int,
            pacing,
        ) {
            1nat
        } else {
            0nat
        }
    }
}

/// The pacing gates of every round of a scan add up to the closed-form sleep count: pacing runs
/// once after each round except the last, and never when it is zero.
pub proof fn lemma_pacing_gates_sum_to_sleep_count(total_rounds: nat, pacing: u128)
    ensures
        pacing_gate_count(total_rounds, total_rounds, pacing) == inter_round_sleeps(
            total_rounds,
            pacing,
        ),
{
    lemma_pacing_gate_prefix(total_rounds, total_rounds, pacing);
}

proof fn lemma_pacing_gate_prefix(rounds_considered: nat, total_rounds: nat, pacing: u128)
    requires
        rounds_considered <= total_rounds,
    ensures
        pacing_gate_count(rounds_considered, total_rounds, pacing) == (if pacing == 0 {
            0
        } else if rounds_considered < total_rounds {
            rounds_considered
        } else if total_rounds == 0 {
            0
        } else {
            (total_rounds - 1) as nat
        }),
    decreases rounds_considered,
{
    if rounds_considered > 0 {
        lemma_pacing_gate_prefix((rounds_considered - 1) as nat, total_rounds, pacing);
    }
}


/// The warning for a later reply that names another hardware address for an IPv4 address
/// already recorded.
pub open spec fn conflicting_reply_warning(ipv4_address: u32, stored: Seq<u8>, ignored: Seq<u8>) -> Seq<
    char,
> {
    "conflicting address resolution reply for "@ + ipv4_text(ipv4_address) + ": keeping "@
        + colon_hex_text(stored) + ", ignoring "@ + colon_hex_text(ignored)
}

/// How one reply changes the table of discovered hosts and the warnings: the first hardware
/// address recorded for an IPv4 address stays; a later reply with the same address changes
/// nothing; a later reply with another address adds one warning.
pub open spec fn merged_reply(
    hosts: Map<u32, MacAddress>,
    warnings: Seq<Seq<char>>,
    ipv4_address: u32,
    media_access_control_address: MacAddress,
) -> (Map<u32, MacAddress>, Seq<Seq<char>>) {
    if !hosts.contains_key(ipv4_address) {
        (hosts.insert(ipv4_address, media_access_control_address), warnings)
    } else if hosts[ipv4_address]@ == media_access_control_address@ {
        (hosts, warnings)
    } else {
        (
            hosts,
            warnings.push(
                conflicting_reply_warning(
                    ipv4_address,
                    hosts[ipv4_address]@,
                    media_access_control_address@,
                ),
            ),
        )
    }
}

/// The character views of a list of warnings.
pub open spec fn warning_texts(warnings: Seq<String>) -> Seq<Seq<char>> {
    warnings.map_values(|warning: String| warning@)
}

/// Builds the warning for a conflicting duplicate reply.
fn conflicting_reply_warning_text(
    ipv4_address: u32,
    stored: MacAddress,
    ignored: MacAddress,
) -> (warning: String)
    ensures
        warning@ == conflicting_reply_warning(ipv4_address, stored@, ignored@),
{
    let mut warning = String::new();
    push_text(&mut warning, "conflicting address resolution reply for ");
    push_ipv4_text(&mut warning, ipv4_address);
    push_text(&mut warning, ": keeping ");
    let stored_text = stored.to_string();
    push_text(&mut warning, stored_text.as_str());
    push_text(&mut warning, ", ignoring ");
    let ignored_text = ignored.to_string();
    push_text(&mut warning, ignored_text.as_str());
    assert(warning@ =~= conflicting_reply_warning(ipv4_address, stored@, ignored@));
    warning
}

/// Inserts or merges a sender IPv4 and Ethernet address from a parsed address resolution reply.
///
/// The first media access control address wins; later replies with a different address for the
/// same IPv4 produce a warning and are ignored.
pub fn merge_address_resolution_reply_sender_into_discovered_hosts(
    discovered_hosts: &mut BTreeMap<u32, MacAddress>,
    ipv4_address: u32,
    media_access_control_address: MacAddress,
    warnings: &mut Vec<String>,
)
    ensures
        (final(discovered_hosts)@, warning_texts(final(warnings)@)) == merged_reply(
            old(discovered_hosts)@,
            warning_texts(old(warnings)@),
            ipv4_address,
            media_access_control_address,
        ),
{
    let stored = match discovered_hosts.get(&ipv4_address) {
        Some(stored) => Some(*stored),
        None => None,
    };
    match stored {
        None => {
            discovered_hosts.insert(ipv4_address, media_access_control_address);
        },
        Some(stored) => {
            if stored != media_access_control_address {
                let warning = conflicting_reply_warning_text(
                    ipv4_address,
                    stored,
                    media_access_control_address,
                );
                warnings.push(warning);
                assert(warning_texts(final(warnings)@) =~= warning_texts(old(warnings)@).push(
                    conflicting_reply_warning(ipv4_address, stored@, media_access_control_address@),
                ));
            }
        },
    }
}


/// Whether a reply from `sender_ipv4_address` belongs to a full-subnet scan: it is the interface
/// address or lies strictly inside the subnet.
pub open spec fn sender_is_probed_target(
    sender_ipv4_address: u32,
    source_ipv4_address: u32,
    network_bits: u32,
    broadcast_bits: u32,
) -> bool {
    sender_ipv4_address == source_ipv4_address || strictly_inside(
        sender_ipv4_address,
        network_bits,
        broadcast_bits,
    )
}

/// Returns whether a reply sender belongs to a full-subnet scan (the interface address or a
/// strictly interior address).
pub fn ipv4_sender_is_probed_target(
    sender_ipv4_address: u32,
    source_ipv4_address: u32,
    network_bits: u32,
    broadcast_bits: u32,
) -> (probed: bool)
    ensures
        probed == sender_is_probed_target(
            sender_ipv4_address,
            source_ipv4_address,
            network_bits,
            broadcast_bits,
        ),
{
    sender_ipv4_address == source_ipv4_address || ipv4_address_is_strictly_inside_subnet(
        sender_ipv4_address,
        network_bits,
        broadcast_bits,
    )
}

/// Selects which address resolution reply senders are recorded during a receive phase.
#[derive(Debug, Clone, Copy, PartialEq, Eq)]
pub enum ArpReplyAcceptance {
    /// Accept the interface address and any strictly interior subnet senders (full-subnet scan).
    SubnetScope {
        /// IPv4 address of the scanning interface.
        source_ipv4_address: u32,
        /// Network address of the interface subnet.
        network_bits: u32,
        /// Broadcast address of the interface subnet.
        broadcast_bits: u32,
    },
    /// Accept only replies whose sender IPv4 equals the probed target.
    ExactTarget {
        /// The single probed address.
        target_ipv4_address: u32,
    },
}

impl ArpReplyAcceptance {
    /// Whether this rule records a reply from `sender_ipv4_address`.
    pub open spec fn accepts(self, sender_ipv4_address: u32) -> bool {
        match self {
            ArpReplyAcceptance::SubnetScope {
                source_ipv4_address,
                network_bits,
                broadcast_bits,
            } => sender_is_probed_target(
                sender_ipv4_address,
                source_ipv4_address,
                network_bits,
                broadcast_bits,
            ),
            ArpReplyAcceptance::ExactTarget { target_ipv4_address } => sender_ipv4_address
                == target_ipv4_address,
        }
    }

    /// Returns whether this rule records a reply from `sender_ipv4_address`.
    pub fn accepts_sender_ipv4_address(&self, sender_ipv4_address: u32) -> (accepted: bool)
        ensures
            accepted == self.accepts(sender_ipv4_address),
    {
        match self {
            ArpReplyAcceptance::SubnetScope {
                source_ipv4_address,
                network_bits,
                broadcast_bits,
            } => ipv4_sender_is_probed_target(
                sender_ipv4_address,
                *source_ipv4_address,
                *network_bits,
                *broadcast_bits,
            ),
            ArpReplyAcceptance::ExactTarget { target_ipv4_address } => sender_ipv4_address
                == *target_ipv4_address,
        }
    }
}

/// The ordered target list and reply-acceptance rule for a full-subnet scan.
#[derive(Debug, Clone, PartialEq, Eq)]
pub struct SubnetScanPlan {
    /// Targets to probe, interior hosts first, then the interface address when it lies on an edge.
    pub targets: Vec<u32>,
    /// Reply acceptance scoped to the interface subnet.
    pub acceptance: ArpReplyAcceptance,
}

/// Validates the interface subnet and builds the full-subnet scan plan.
///
/// This is the portable, pre-socket step: callers run it before opening a link-layer endpoint so a
/// subnet that cannot be scanned (a non-contiguous netmask, `/31` or `/32`) is rejected first.
pub fn full_subnet_scan_plan(addresses: &InterfaceScanAddresses) -> (plan: Result<
    SubnetScanPlan,
    AppError,
>)
    ensures
        ({
            let source = addresses.source_ipv4_address;
            let netmask = addresses.ipv4_netmask;
            let network = network_address(source, netmask);
            let broadcast = broadcast_address(source, netmask);
            match plan {
                Ok(plan) => {
                    &&& exists|p: nat| p <= 30 && netmask_of_prefix(p) == netmask
                    &&& plan.targets@ == scan_targets(
                        address_range((network + 1) as u32, (broadcast - 1) as u32),
                        source,
                        network,
                        broadcast,
                    )
                    &&& plan.acceptance == ArpReplyAcceptance::SubnetScope {
                        source_ipv4_address: source,
                        network_bits: network,
                        broadcast_bits: broadcast,
                    }
                },
                Err(AppError::Ipv4NetmaskInvalid { netmask: text }) => !is_contiguous_netmask(
                    netmask,
                ) && text@ == ipv4_text(netmask),
                Err(AppError::Ipv4SubnetUnsupported { message }) => exists|p: u8|
                    31 <= p <= 32 && netmask_of_prefix(p as nat) == netmask && message@
                        == unsupported_prefix_message(p),
                Err(_) => false,
            }
        }),
{
    let mut host_addresses = match Ipv4HostAddressIterator::try_from_ipv4_address_on_subnet(
        addresses.source_ipv4_address,
        addresses.ipv4_netmask,
    ) {
        Ok(iterator) => iterator,
        Err(error) => {
            return Err(error);
        },
    };
    let mask_bits = addresses.ipv4_netmask;
    let network_bits = addresses.source_ipv4_address & mask_bits;
    let broadcast_bits = network_bits | !mask_bits;
    let ghost all = host_addresses.remaining();
    let mut interior: Vec<u32> = Vec::new();
    loop
        invariant
            interior@ + host_addresses.remaining() == all,
        ensures
            interior@ == all,
        decreases host_addresses.remaining().len(),
    {
        let ghost before = host_addresses.remaining();
        match host_addresses.next() {
            Some(address) => {
                interior.push(address);
                assert(interior@ + host_addresses.remaining() =~= all) by {
                    assert(before =~= seq![address] + before.drop_first());
                }
            },
            None => {
                assert(interior@ =~= all);
                break;
            },
        }
    }
    let targets = ipv4_scan_target_address_sequence(
        interior,
        addresses.source_ipv4_address,
        network_bits,
        broadcast_bits,
    );
    Ok(
        SubnetScanPlan {
            targets,
            acceptance: ArpReplyAcceptance::SubnetScope {
                source_ipv4_address: addresses.source_ipv4_address,
                network_bits,
                broadcast_bits,
            },
        },
    )
}


/// Validates a single scan target on the interface subnet and builds its plan: the target alone,
/// with only replies from the target recorded.
///
/// This is the portable, pre-socket step of a single-host scan: a target that is not strictly
/// interior on the subnet (or a subnet that cannot be scanned) is rejected first, with the errors
/// of [`validate_strict_interior_scan_target_ipv4_address`].
pub fn single_target_scan_plan(
    interface_name: &str,
    target_ipv4_address: u32,
    addresses: &InterfaceScanAddresses,
) -> (plan: Result<SubnetScanPlan, AppError>)
    ensures
        ({
            let source = addresses.source_ipv4_address;
            let netmask = addresses.ipv4_netmask;
            let network = network_address(source, netmask);
            let broadcast = broadcast_address(source, netmask);
            match plan {
                Ok(plan) => {
                    &&& exists|p: nat| p <= 30 && netmask_of_prefix(p) == netmask
                    &&& strictly_inside(target_ipv4_address, network, broadcast)
                    &&& plan.targets@ == seq![target_ipv4_address]
                    &&& plan.acceptance == ArpReplyAcceptance::ExactTarget { target_ipv4_address }
                },
                Err(AppError::SingleScanTargetRejected {
                    interface_name: name,
                    target_ipv4_address: target,
                    reason,
                }) => {
                    &&& exists|p: nat| p <= 30 && netmask_of_prefix(p) == netmask
                    &&& !strictly_inside(target_ipv4_address, network, broadcast)
                    &&& name@ == interface_name@
                    &&& target@ == ipv4_text(target_ipv4_address)
                    &&& reason@ == single_target_rejection_reason(
                        target_ipv4_address,
                        network,
                        broadcast,
                    )
                },
                Err(AppError::Ipv4NetmaskInvalid { netmask: text }) => !is_contiguous_netmask(
                    netmask,
                ) && text@ == ipv4_text(netmask),
                Err(AppError::Ipv4SubnetUnsupported { message }) => exists|p: u8|
                    31 <= p <= 32 && netmask_of_prefix(p as nat) == netmask && message@
                        == unsupported_prefix_message(p),
                Err(_) => false,
            }
        }),
{
    match validate_strict_interior_scan_target_ipv4_address(
        interface_name,
        target_ipv4_address,
        addresses.source_ipv4_address,
        addresses.ipv4_netmask,
    ) {
        Ok(()) => {},
        Err(error) => {
            return Err(error);
        },
    }
    let mut targets: Vec<u32> = Vec::new();
    targets.push(target_ipv4_address);
    assert(targets@ =~= seq![target_ipv4_address]);
    Ok(SubnetScanPlan { targets, acceptance: ArpReplyAcceptance::ExactTarget { target_ipv4_address } })
}

/// Length of a transmitted ARP request frame before padding is at least this many octets.
pub const MINIMUM_TRANSMITTED_FRAME_LENGTH: usize = 60;

/// The IEEE 802.1Q customer tag a VLAN scan inserts after the source address (PCP and DEI zero).
pub open spec fn vlan_tag_octets(vlan_identifier: Option<Ieee8021qVlanIdentifier>) -> Seq<u8> {
    match vlan_identifier {
        Some(identifier) => u16_octets(ETHERNET_PROTOCOL_VLAN_TAG) + u16_octets(identifier.value()),
        None => Seq::empty(),
    }
}

/// `frame` followed by zero octets up to the 60-octet minimum, when it is shorter.
pub open spec fn padded_to_minimum_frame_length(frame: Seq<u8>) -> Seq<u8> {
    if frame.len() >= 60 {
        frame
    } else {
        frame + Seq::new((60 - frame.len()) as nat, |i: int| 0u8)
    }
}

/// The frame a scan transmits to ask for `target_ipv4_address`: a broadcast RFC 826 request from
/// `source_mac_address` whose `ar$spa` follows the wire options, optionally behind one IEEE
/// 802.1Q customer tag, framed as Ethernet II or as IEEE 802.3 with RFC 1042 LLC/SNAP, and
/// zero-padded to 60 octets.
pub open spec fn scan_request_frame(
    source_mac_address: Seq<u8>,
    source_ipv4_address: u32,
    target_ipv4_address: u32,
    wire: ScanWireOptions,
) -> Seq<u8> {
    let payload = arp_payload(
        source_mac_address,
        sender_protocol_address_for(
            wire.sender_protocol_address,
            source_ipv4_address,
            target_ipv4_address,
        ),
        zero_octets(),
        target_ipv4_address,
        ARP_OPERATION_REQUEST,
    );
    let header = broadcast_octets() + source_mac_address + vlan_tag_octets(wire.vlan_identifier);
    padded_to_minimum_frame_length(
        if wire.llc_snap {
            header + u16_octets((8 + payload.len()) as u16) + llc_snap_octets(ETHERNET_PROTOCOL_ARP)
                + payload
        } else {
            header + u16_octets(ETHERNET_PROTOCOL_ARP) + payload
        },
    )
}

/// Builds the request frame a scan transmits for `target_ipv4_address` under `wire`.
pub fn build_scan_request_frame(
    source_mac_address: MacAddress,
    source_ipv4_address: u32,
    target_ipv4_address: u32,
    wire: &ScanWireOptions,
) -> (frame: Vec<u8>)
    ensures
        frame@ == scan_request_frame(
            source_mac_address@,
            source_ipv4_address,
            target_ipv4_address,
            *wire,
        ),
{
    let sender_ipv4_address = wire.sender_protocol_address.ipv4_address_for_target(
        source_ipv4_address,
        target_ipv4_address,
    );
    let zero_address = MacAddress::zero();
    let payload = build_address_resolution_payload(
        source_mac_address,
        sender_ipv4_address,
        zero_address,
        target_ipv4_address,
        ARP_OPERATION_REQUEST,
    );
    let tags = match wire.vlan_identifier {
        Some(identifier) => Some(
            Ieee8021qTagStack::Customer(Ieee8021qTagControlInformation::from_vlan_identifier(identifier)),
        ),
        None => None,
    };
    proof {
        source_mac_address.lemma_six_octets();
        zero_address.lemma_six_octets();
        match tags {
            Some(stack) => {
                assert(tag_stack_octets(stack) =~= vlan_tag_octets(wire.vlan_identifier));
            },
            None => {},
        }
    }
    let mut frame = if wire.llc_snap {
        encode_ieee_8023_rfc_1042_llc_snap_frame(
            MacAddress::broadcast(),
            source_mac_address,
            tags,
            ETHERNET_PROTOCOL_ARP,
            payload.as_slice(),
        )
    } else {
        encode_ethernet_ii_frame_with_optional_ieee_8021q_tag(
            MacAddress::broadcast(),
            source_mac_address,
            tags,
            ETHERNET_PROTOCOL_ARP,
            payload.as_slice(),
        )
    };
    let ghost body = frame@;
    proof {
        let header = broadcast_octets() + source_mac_address@ + vlan_tag_octets(
            wire.vlan_identifier,
        );
        if wire.llc_snap {
            assert(body =~= header + u16_octets((8 + payload@.len()) as u16) + llc_snap_octets(
                ETHERNET_PROTOCOL_ARP,
            ) + payload@);
        } else {
            assert(body =~= header + u16_octets(ETHERNET_PROTOCOL_ARP) + payload@);
        }
    }
    while frame.len() < MINIMUM_TRANSMITTED_FRAME_LENGTH
        invariant
            body.len() <= frame@.len() <= 60 || frame@ == body,
            frame@.len() >= body.len(),
            frame@.subrange(0, body.len() as int) == body,
            forall|i: int| body.len() <= i < frame@.len() ==> frame@[i] == 0u8,
        decreases 60 - frame@.len(),
    {
        frame.push(0u8);
    }
    assert(frame@ =~= padded_to_minimum_frame_length(body));
    frame
}

/// With the default wire options (untagged Ethernet II, interface `ar$spa`) a scan transmits
/// exactly the plain RFC 826 request frame.
pub proof fn lemma_default_wire_request_is_plain_request(
    source_mac_address: MacAddress,
    source_ipv4_address: u32,
    target_ipv4_address: u32,
    wire: ScanWireOptions,
)
    requires
        wire.vlan_identifier is None,
        wire.sender_protocol_address == crate::application_command::ArpSenderProtocolAddress::Interface,
        !wire.llc_snap,
    ensures
        scan_request_frame(source_mac_address@, source_ipv4_address, target_ipv4_address, wire)
            == arp_ethernet_frame(
            source_mac_address@,
            source_ipv4_address,
            zero_octets(),
            target_ipv4_address,
            ARP_OPERATION_REQUEST,
        ),
{
    source_mac_address.lemma_six_octets();
    let body = ethernet_ii_frame(
        broadcast_octets(),
        source_mac_address@,
        None,
        ETHERNET_PROTOCOL_ARP,
        arp_payload(
            source_mac_address@,
            source_ipv4_address,
            zero_octets(),
            target_ipv4_address,
            ARP_OPERATION_REQUEST,
        ),
    );
    assert(body.len() == 42);
    assert(Seq::new(18, |i: int| 0u8) =~= minimum_frame_padding());
    assert(scan_request_frame(source_mac_address@, source_ipv4_address, target_ipv4_address, wire)
        =~= body + minimum_frame_padding());
}


/// With a VLAN identifier in the wire options, the request a scan transmits carries one IEEE
/// 802.1Q customer tag for that VLAN right after the two addresses, in either framing: octets
/// 12 and 13 are the TPID `0x8100`, and octets 14 and 15 the Tag Control Information with PCP 0,
/// DEI 0 and that VLAN identifier. Taking `customer` as that tag, the frame is the Ethernet II
/// frame (or the RFC 1042 LLC/SNAP frame) from the source address to broadcast behind that tag,
/// carrying the ARP request with the wire's `ar$spa`, zero-padded to 60 octets.
pub proof fn lemma_vlan_scan_request_is_tagged(
    source_mac_address: MacAddress,
    source_ipv4_address: u32,
    target_ipv4_address: u32,
    wire: ScanWireOptions,
    customer: Ieee8021qTagControlInformation,
)
    requires
        wire.vlan_identifier == Some(customer.vlan_identifier),
        customer.priority_code_point.value() == 0,
        !customer.drop_eligible_indicator,
    ensures
        ({
            let frame = scan_request_frame(
                source_mac_address@,
                source_ipv4_address,
                target_ipv4_address,
                wire,
            );
            let payload = arp_payload(
                source_mac_address@,
                sender_protocol_address_for(
                    wire.sender_protocol_address,
                    source_ipv4_address,
                    target_ipv4_address,
                ),
                zero_octets(),
                target_ipv4_address,
                ARP_OPERATION_REQUEST,
            );
            let tags = Some(Ieee8021qTagStack::Customer(customer));
            &&& frame.len() == 60
            &&& frame.subrange(0, 6) == broadcast_octets()
            &&& frame.subrange(6, 12) == source_mac_address@
            &&& frame[12] == 0x81 && frame[13] == 0x00
            &&& frame[14] as int * 256 + frame[15] as int == customer.vlan_identifier.value()
            &&& !wire.llc_snap ==> frame[16] == 0x08 && frame[17] == 0x06 && frame
                == padded_to_minimum_frame_length(
                ethernet_ii_frame(
                    broadcast_octets(),
                    source_mac_address@,
                    tags,
                    ETHERNET_PROTOCOL_ARP,
                    payload,
                ),
            )
            &&& wire.llc_snap ==> frame == padded_to_minimum_frame_length(
                llc_snap_frame(
                    broadcast_octets(),
                    source_mac_address@,
                    tags,
                    ETHERNET_PROTOCOL_ARP,
                    payload,
                ),
            )
        }),
{
    source_mac_address.lemma_six_octets();
    let v = customer.vlan_identifier.value();
    assert(customer.value() == v as int);
    let payload = arp_payload(
        source_mac_address@,
        sender_protocol_address_for(
            wire.sender_protocol_address,
            source_ipv4_address,
            target_ipv4_address,
        ),
        zero_octets(),
        target_ipv4_address,
        ARP_OPERATION_REQUEST,
    );
    let tags = Some(Ieee8021qTagStack::Customer(customer));
    assert(payload.len() == 28);
    assert(optional_tag_stack_octets(tags) =~= vlan_tag_octets(wire.vlan_identifier));
    let header = broadcast_octets() + source_mac_address@ + vlan_tag_octets(wire.vlan_identifier);
    let frame = scan_request_frame(
        source_mac_address@,
        source_ipv4_address,
        target_ipv4_address,
        wire,
    );
    if wire.llc_snap {
        let body = header + u16_octets((8 + payload.len()) as u16) + llc_snap_octets(
            ETHERNET_PROTOCOL_ARP,
        ) + payload;
        assert(body =~= llc_snap_frame(
            broadcast_octets(),
            source_mac_address@,
            tags,
            ETHERNET_PROTOCOL_ARP,
            payload,
        ));
        assert(body.len() == 54);
        assert(frame == body + Seq::new(6, |i: int| 0u8));
        assert(frame[12] == body[12] && frame[13] == body[13]);
        assert(frame[14] == body[14] && frame[15] == body[15]);
        assert(frame.subrange(0, 6) =~= body.subrange(0, 6));
        assert(frame.subrange(6, 12) =~= body.subrange(6, 12));
    } else {
        let body = header + u16_octets(ETHERNET_PROTOCOL_ARP) + payload;
        assert(body =~= ethernet_ii_frame(
            broadcast_octets(),
            source_mac_address@,
            tags,
            ETHERNET_PROTOCOL_ARP,
            payload,
        ));
        assert(body.len() == 46);
        assert(frame == body + Seq::new(14, |i: int| 0u8));
        assert(frame[12] == body[12] && frame[13] == body[13]);
        assert(frame[14] == body[14] && frame[15] == body[15]);
        assert(frame[16] == body[16] && frame[17] == body[17]);
        assert(frame.subrange(0, 6) =~= body.subrange(0, 6));
        assert(frame.subrange(6, 12) =~= body.subrange(6, 12));
    }
}

/// The warning for a request that could not be transmitted.
pub open spec fn send_failure_warning(target_ipv4_address: u32, failure: Seq<char>) -> Seq<char> {
    "failed to send ARP request to "@ + ipv4_text(target_ipv4_address) + ": "@ + failure
}

/// The warning for a received frame that is not a well-formed ARP reply.
pub open spec fn malformed_frame_warning(reason: Seq<char>) -> Seq<char> {
    "received malformed Ethernet/ARP frame: "@ + reason
}

/// Whether `frame` is a well-formed Ethernet frame that carries another protocol than ARP.
pub open spec fn carries_other_protocol(frame: Seq<u8>) -> bool {
    parse_ethernet_frame(frame) matches Ok(layout) && layout.ether_type != ETHERNET_PROTOCOL_ARP
}

/// How one received frame changes the discovered hosts and the warnings. A reply from an
/// accepted sender is merged (first hardware address wins); a reply from another sender changes
/// nothing; any other frame adds a warning naming why it was rejected, except that a well-formed
/// frame of another protocol is passed over silently when `ignore_other_protocols` is set.
pub open spec fn absorbed_frame(
    hosts: Map<u32, MacAddress>,
    warnings: Seq<Seq<char>>,
    frame: Seq<u8>,
    acceptance: ArpReplyAcceptance,
    ignore_other_protocols: bool,
) -> (Map<u32, MacAddress>, Seq<Seq<char>>) {
    match parse_arp_reply(frame) {
        Ok((sender_ipv4_address, sender_hardware_address)) => if acceptance.accepts(
            sender_ipv4_address,
        ) {
            merged_reply(
                hosts,
                warnings,
                sender_ipv4_address,
                mac_address_of(sender_hardware_address),
            )
        } else {
            (hosts, warnings)
        },
        Err(reason) => if ignore_other_protocols && carries_other_protocol(frame) {
            (hosts, warnings)
        } else {
            (hosts, warnings.push(malformed_frame_warning(reason@)))
        },
    }
}

/// `hosts` lists the entries of `table` in strictly ascending IPv4 order, each exactly once.
pub open spec fn hosts_in_address_order(hosts: Seq<DiscoveredHost>, table: Map<u32, MacAddress>) -> bool {
    &&& forall|i: int, j: int|
        0 <= i < j < hosts.len() ==> hosts[i].ipv4_address < hosts[j].ipv4_address
    &&& forall|i: int|
        0 <= i < hosts.len() ==> table.contains_key(#[trigger] hosts[i].ipv4_address)
            && table[hosts[i].ipv4_address] == hosts[i].media_access_control_address
    &&& forall|address: u32|
        #[trigger] table.contains_key(address) ==> exists|i: int|
            0 <= i < hosts.len() && hosts[i].ipv4_address == address
}

/// Whether `frame` is a well-formed Ethernet frame that carries another protocol than ARP.
fn frame_carries_other_protocol(frame: &[u8]) -> (other: bool)
    ensures
        other == carries_other_protocol(frame@),
{
    match try_parse_ethernet_frame(frame) {
        Ok(parsed) => parsed.ether_type != ETHERNET_PROTOCOL_ARP,
        Err(_) => false,
    }
}

/// The bookkeeping of one scan: the hosts discovered so far, keyed by IPv4 address, and the
/// non-fatal warnings in the order they arose.
#[derive(Debug)]
pub struct ScanReplyCollector {
    discovered_hosts: BTreeMap<u32, MacAddress>,
    warnings: Vec<String>,
}

impl ScanReplyCollector {
    /// The hosts discovered so far.
    pub closed spec fn hosts(&self) -> Map<u32, MacAddress> {
        self.discovered_hosts@
    }

    /// The warnings so far, in order.
    pub closed spec fn warnings(&self) -> Seq<Seq<char>> {
        warning_texts(self.warnings@)
    }

    /// No hosts and no warnings yet.
    pub fn new() -> (collector: ScanReplyCollector)
        ensures
            collector.hosts() == Map::<u32, MacAddress>::empty(),
            collector.warnings() == Seq::<Seq<char>>::empty(),
    {
        let collector = ScanReplyCollector { discovered_hosts: BTreeMap::new(), warnings: Vec::new() };
        assert(collector.warnings() =~= Seq::<Seq<char>>::empty());
        collector
    }

    /// Records that the request for `target_ipv4_address` could not be transmitted, `failure`
    /// being the operating system's description.
    pub fn record_send_failure(&mut self, target_ipv4_address: u32, failure: &str)
        ensures
            final(self).hosts() == old(self).hosts(),
            final(self).warnings() == old(self).warnings().push(
                send_failure_warning(target_ipv4_address, failure@),
            ),
    {
        let mut warning = String::from_str("failed to send ARP request to ");
        push_ipv4_text(&mut warning, target_ipv4_address);
        push_text(&mut warning, ": ");
        push_text(&mut warning, failure);
        proof {
            reveal_strlit("failed to send ARP request to ");
            reveal_strlit(": ");
        }
        assert(warning@ =~= send_failure_warning(target_ipv4_address, failure@));
        self.warnings.push(warning);
        assert(self.warnings() =~= old(self).warnings().push(
            send_failure_warning(target_ipv4_address, failure@),
        ));
    }

    /// Takes in one received frame: see [`absorbed_frame`].
    pub fn absorb_frame(
        &mut self,
        frame: &[u8],
        acceptance: &ArpReplyAcceptance,
        ignore_other_protocols: bool,
    )
        ensures
            (final(self).hosts(), final(self).warnings()) == absorbed_frame(
                old(self).hosts(),
                old(self).warnings(),
                frame@,
                *acceptance,
                ignore_other_protocols,
            ),
    {
        match try_parse_address_resolution_reply_ipv4_over_ethernet(frame) {
            Ok((sender_ipv4_address, sender_mac_address)) => {
                proof {
                    let chosen = mac_address_of(sender_mac_address@);
                    assert(exists|address: MacAddress| address@ == sender_mac_address@);
                    chosen.lemma_view_injective(sender_mac_address);
                }
                if acceptance.accepts_sender_ipv4_address(sender_ipv4_address) {
                    merge_address_resolution_reply_sender_into_discovered_hosts(
                        &mut self.discovered_hosts,
                        sender_ipv4_address,
                        sender_mac_address,
                        &mut self.warnings,
                    );
                }
            },
            Err(reason) => {
                if !(ignore_other_protocols && frame_carries_other_protocol(frame)) {
                    let mut warning = String::from_str("received malformed Ethernet/ARP frame: ");
                    push_text(&mut warning, reason);
                    proof {
                        reveal_strlit("received malformed Ethernet/ARP frame: ");
                    }
                    assert(warning@ =~= malformed_frame_warning(reason@));
                    self.warnings.push(warning);
                    assert(self.warnings() =~= old(self).warnings().push(
                        malformed_frame_warning(reason@),
                    ));
                }
            },
        }
    }

    /// The scan outcome: the discovered hosts in ascending IPv4 order and the warnings in order,
    /// not yet timed.
    pub fn finish(self) -> (outcome: ScanOutcome)
        ensures
            hosts_in_address_order(outcome.discovered_hosts@, self.hosts()),
            warning_texts(outcome.warnings@) == self.warnings(),
            outcome.timing_summary is None,
    {
        let mut hosts: Vec<DiscoveredHost> = Vec::new();
        let ghost entries = vstd::std_specs::iter::IteratorSpec::remaining(
            &vstd::std_specs::btree::spec_btree_map_iter(&self.discovered_hosts),
        );
        let ghost table = self.discovered_hosts@;
        for entry in it: self.discovered_hosts.iter()
            invariant
                it.seq() == entries,
                hosts@.len() == it.index(),
                forall|i: int|
                    0 <= i < hosts@.len() ==> (#[trigger] hosts@[i]).ipv4_address == *entries[i].0
                        && hosts@[i].media_access_control_address == *entries[i].1,
        {
            let (ipv4_address, media_access_control_address) = entry;
            hosts.push(
                DiscoveredHost {
                    ipv4_address: *ipv4_address,
                    media_access_control_address: *media_access_control_address,
                },
            );
        }
        proof {
            let keys = entries.map_values(|kv: (&u32, &MacAddress)| *kv.0);
            assert(hosts@.len() == entries.len());
            assert(vstd::laws_cmp::obeys_cmp::<u32>());
            assert(vstd::std_specs::btree::increasing_seq(keys));
            assert forall|i: int, j: int| 0 <= i < j < hosts@.len() implies hosts@[i].ipv4_address
                < hosts@[j].ipv4_address by {
                assert(keys[i] == hosts@[i].ipv4_address);
                assert(keys[j] == hosts@[j].ipv4_address);
                assert(vstd::std_specs::cmp::OrdSpec::cmp_spec(&keys[i], &keys[j]) is Less);
            }
            assert forall|i: int| 0 <= i < hosts@.len() implies table.contains_key(
                #[trigger] hosts@[i].ipv4_address,
            ) && table[hosts@[i].ipv4_address] == hosts@[i].media_access_control_address by {
                assert(table.contains_key(*entries[i].0));
            }
            assert forall|address: u32| #[trigger] table.contains_key(address) implies exists|i: int|
                0 <= i < hosts@.len() && hosts@[i].ipv4_address == address by {
                assert(entries.contains((&address, &table[address])));
                let i = choose|i: int| 0 <= i < entries.len() && entries[i] == (&address, &table[address]);
                assert(hosts@[i].ipv4_address == address);
            }
        }
        ScanOutcome { discovered_hosts: hosts, warnings: self.warnings, timing_summary: None }
    }
}


/// The hosts and warnings after taking in `frames` in order, starting from none.
pub open spec fn absorbed_frames(
    frames: Seq<Seq<u8>>,
    acceptance: ArpReplyAcceptance,
    ignore_other_protocols: bool,
) -> (Map<u32, MacAddress>, Seq<Seq<char>>)
    decreases frames.len(),
{
    if frames.len() == 0 {
        (Map::empty(), Seq::empty())
    } else {
        let (hosts, warnings) = absorbed_frames(frames.drop_last(), acceptance, ignore_other_protocols);
        absorbed_frame(hosts, warnings, frames.last(), acceptance, ignore_other_protocols)
    }
}

/// Whether `frame` is a well-formed reply from `ipv4_address` that `acceptance` records.
pub open spec fn accepted_reply_from(
    frame: Seq<u8>,
    acceptance: ArpReplyAcceptance,
    ipv4_address: u32,
) -> bool {
    parse_arp_reply(frame) matches Ok((sender, _)) && sender == ipv4_address && acceptance.accepts(
        sender,
    )
}

/// The sender hardware address a well-formed reply names.
pub open spec fn reply_sender_hardware_address(frame: Seq<u8>) -> Seq<u8> {
    match parse_arp_reply(frame) {
        Ok((_, hardware)) => hardware,
        Err(_) => Seq::empty(),
    }
}

/// The first reply wins: after any sequence of received frames, an IPv4 address is recorded
/// exactly when some accepted reply came from it, and it is recorded with the hardware address of
/// the first such reply, whatever later replies said.
pub proof fn lemma_first_accepted_reply_wins(
    frames: Seq<Seq<u8>>,
    acceptance: ArpReplyAcceptance,
    ignore_other_protocols: bool,
)
    ensures
        ({
            let hosts = absorbed_frames(frames, acceptance, ignore_other_protocols).0;
            &&& forall|ipv4_address: u32|
                #[trigger] hosts.contains_key(ipv4_address) ==> exists|k: int|
                    0 <= k < frames.len() && accepted_reply_from(frames[k], acceptance, ipv4_address)
            &&& forall|k: int, ipv4_address: u32|
                0 <= k < frames.len() && #[trigger] accepted_reply_from(
                    frames[k],
                    acceptance,
                    ipv4_address,
                ) && (forall|j: int|
                    0 <= j < k ==> !accepted_reply_from(frames[j], acceptance, ipv4_address))
                    ==> hosts.contains_key(ipv4_address) && hosts[ipv4_address]@
                    == reply_sender_hardware_address(frames[k])
        }),
    decreases frames.len(),
{
    if frames.len() > 0 {
        let earlier = frames.drop_last();
        lemma_first_accepted_reply_wins(earlier, acceptance, ignore_other_protocols);
        let (before, warnings) = absorbed_frames(earlier, acceptance, ignore_other_protocols);
        let last = frames.last();
        let hosts = absorbed_frames(frames, acceptance, ignore_other_protocols).0;
        crate::address_resolution_protocol::lemma_reply_hardware_address_length(last);
        if let Ok((sender, hardware)) = parse_arp_reply(last) {
            MacAddress::lemma_mac_address_of(hardware);
        }
        assert forall|ipv4_address: u32| #[trigger] hosts.contains_key(ipv4_address) implies exists|
            k: int,
        | 0 <= k < frames.len() && accepted_reply_from(frames[k], acceptance, ipv4_address) by {
            if before.contains_key(ipv4_address) {
                let k = choose|k: int|
                    0 <= k < earlier.len() && accepted_reply_from(
                        earlier[k],
                        acceptance,
                        ipv4_address,
                    );
                assert(frames[k] == earlier[k]);
            } else {
                assert(accepted_reply_from(frames[frames.len() - 1], acceptance, ipv4_address));
            }
        }
        assert forall|k: int, ipv4_address: u32|
            0 <= k < frames.len() && #[trigger] accepted_reply_from(
                frames[k],
                acceptance,
                ipv4_address,
            ) && (forall|j: int|
                0 <= j < k ==> !accepted_reply_from(
                    frames[j],
                    acceptance,
                    ipv4_address,
                )) implies hosts.contains_key(ipv4_address) && hosts[ipv4_address]@
            == reply_sender_hardware_address(frames[k]) by {
            if k < frames.len() - 1 {
                assert(earlier[k] == frames[k]);
                assert(forall|j: int| 0 <= j < k ==> earlier[j] == frames[j]);
                assert(accepted_reply_from(earlier[k], acceptance, ipv4_address));
                assert(before.contains_key(ipv4_address));
            } else {
                if before.contains_key(ipv4_address) {
                    let j = choose|j: int|
                        0 <= j < earlier.len() && accepted_reply_from(
                            earlier[j],
                            acceptance,
                            ipv4_address,
                        );
                    assert(frames[j] == earlier[j]);
                }
            }
        }
    }
}

} // verus!
