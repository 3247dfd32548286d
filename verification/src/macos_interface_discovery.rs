//! Classification of macOS network interfaces for ARP scanning.
//!
//! The records `getifaddrs(3)` reports are folded into one accumulator per interface name and
//! classified with the same operator semantics as the Linux backend: Ethernet-capable,
//! administratively up, not loopback, not `NOARP`, with an IPv4 address, netmask, and a non-zero
//! Ethernet hardware address.

use vstd::prelude::*;

use crate::error::{input_output_error, AppError, InputOutputErrorKind};
use crate::interface_validation::{
    interface_name_problem, validate_interface_name_for_linux_packet_socket,
};
use crate::link_layer_backend::{ArpScanInterfaceCandidate, InterfaceScanAddresses};
use crate::linux_socket::scan_rejection_reason;
use crate::mac_address::{zero_octets, MacAddress};
use crate::macos_packet::{
    INTERFACE_FLAG_LOOPBACK, INTERFACE_FLAG_NO_ARP, INTERFACE_FLAG_UP, INTERFACE_TYPE_ETHERNET,
};
use crate::text::{
    decimal_text, lemma_precedes_total, lemma_precedes_transitive, precedes, push_decimal,
    push_text, text_precedes,
};

verus! {

/// The address-family-specific payload of one `getifaddrs(3)` entry.
#[derive(Debug, Clone, Copy, PartialEq, Eq)]
pub enum InterfaceAddressPayload {
    /// An `AF_INET` entry: the interface IPv4 address and, when present, its netmask.
    Ipv4 {
        /// IPv4 address assigned to the interface.
        address: u32,
        /// IPv4 netmask, when `getifaddrs(3)` reported one.
        netmask: Option<u32>,
    },
    /// An `AF_LINK` entry: the link-layer hardware type and Ethernet address when usable.
    LinkLayer {
        /// `sdl_type` (`IFT_*`) describing the link-layer medium.
        interface_type: u8,
        /// Six-octet Ethernet address when `sdl_alen == 6`; `None` otherwise.
        hardware_address: Option<[u8; 6]>,
    },
}

/// One `getifaddrs(3)` entry, reduced to what interface classification reads.
#[derive(Debug, Clone, PartialEq, Eq)]
pub struct InterfaceAddressRecord {
    /// Interface name this entry belongs to (for example `en0`).
    pub interface_name: String,
    /// `ifa_flags` for the interface (`IFF_*`); identical across a single interface's entries.
    pub interface_flags: u32,
    /// The address payload carried by this entry.
    pub payload: InterfaceAddressPayload,
}

/// Whether `flags` has the bit of `flag`.
pub open spec fn has_interface_flag(flags: u32, flag: i32) -> bool {
    flags & (flag as u32) != 0
}

/// Why an interface with `flags` cannot be scanned, or `None`: loopback first, then `NOARP`,
/// then administratively down.
pub open spec fn flags_rejection_reason(flags: u32) -> Option<Seq<char>> {
    scan_rejection_reason(
        has_interface_flag(flags, INTERFACE_FLAG_LOOPBACK),
        has_interface_flag(flags, INTERFACE_FLAG_NO_ARP),
        has_interface_flag(flags, INTERFACE_FLAG_UP),
    )
}

/// Returns `true` when `interface_flags` indicate an interface that is administratively up, not
/// loopback, and does not have `NOARP` set.
pub fn interface_flags_allow_arp_scanning(interface_flags: u32) -> (allowed: bool)
    ensures
        allowed == flags_rejection_reason(interface_flags) is None,
{
    let up = INTERFACE_FLAG_UP as u32;
    let loopback = INTERFACE_FLAG_LOOPBACK as u32;
    let no_arp = INTERFACE_FLAG_NO_ARP as u32;
    (interface_flags & loopback) == 0 && (interface_flags & no_arp) == 0 && (interface_flags & up)
        != 0
}

/// The link-layer part of an `AF_LINK` `sockaddr_dl`: its hardware type and, when the address
/// is six octets long, the octets that follow the interface name in `sdl_data`.
pub open spec fn link_layer_address(
    interface_type: u8,
    name_length: u8,
    address_length: u8,
    data: Seq<u8>,
) -> (u8, Option<Seq<u8>>) {
    if address_length != 6 {
        (interface_type, None)
    } else {
        (interface_type, Some(data.subrange(name_length as int, name_length + 6)))
    }
}

/// Reads the hardware type and Ethernet address of an `AF_LINK` `sockaddr_dl` from its
/// `sdl_type`, `sdl_nlen`, `sdl_alen` and `sdl_data` fields: `sdl_data` holds the interface name
/// (`sdl_nlen` octets) followed by the link-layer address (`sdl_alen` octets).
pub fn link_layer_address_from_sockaddr_dl_fields(
    interface_type: u8,
    name_length: u8,
    address_length: u8,
    data: &[u8],
) -> (link_layer: (u8, Option<[u8; 6]>))
    requires
        address_length == 6 ==> name_length + 6 <= data@.len(),
    ensures
        link_layer.0 == interface_type,
        match link_layer_address(interface_type, name_length, address_length, data@).1 {
            None => link_layer.1 is None,
            Some(octets) => link_layer.1 matches Some(address) && address@ == octets,
        },
{
    if address_length != 6 {
        return (interface_type, None);
    }
    let start = name_length as usize;
    let octets: [u8; 6] = [
        data[start],
        data[start + 1],
        data[start + 2],
        data[start + 3],
        data[start + 4],
        data[start + 5],
    ];
    assert(octets@ =~= data@.subrange(name_length as int, name_length + 6));
    (interface_type, Some(octets))
}

/// Aggregated address state for one interface name while folding `getifaddrs(3)` records.
#[derive(Debug, Clone, Copy, PartialEq, Eq)]
pub struct InterfaceAccumulator {
    /// Flags of the most recent record of the interface.
    pub interface_flags: u32,
    /// IPv4 address of the first IPv4 record.
    pub source_ipv4_address: Option<u32>,
    /// Netmask of the first IPv4 record.
    pub ipv4_netmask: Option<u32>,
    /// Hardware type and address of the most recent link-layer record that carried an address.
    pub link_layer: Option<(u8, [u8; 6])>,
}

/// The accumulator before any record: no flags, no addresses.
pub open spec fn empty_accumulator() -> InterfaceAccumulator {
    InterfaceAccumulator {
        interface_flags: 0,
        source_ipv4_address: None,
        ipv4_netmask: None,
        link_layer: None,
    }
}

/// How one record of an interface changes its accumulator: the flags are replaced; the first IPv4
/// entry sets the address and netmask; a link-layer entry with an address replaces the link layer.
pub open spec fn accumulated_record(
    accumulator: InterfaceAccumulator,
    record: InterfaceAddressRecord,
) -> InterfaceAccumulator {
    let flagged = InterfaceAccumulator { interface_flags: record.interface_flags, ..accumulator };
    match record.payload {
        InterfaceAddressPayload::Ipv4 { address, netmask } => if accumulator.source_ipv4_address
            is None {
            InterfaceAccumulator {
                source_ipv4_address: Some(address),
                ipv4_netmask: netmask,
                ..flagged
            }
        } else {
            flagged
        },
        InterfaceAddressPayload::LinkLayer { interface_type, hardware_address } => match hardware_address {
            Some(octets) => InterfaceAccumulator {
                link_layer: Some((interface_type, octets)),
                ..flagged
            },
            None => flagged,
        },
    }
}

/// The accumulator of the interface called `name` after `records`, in order.
pub open spec fn accumulated_for_name(records: Seq<InterfaceAddressRecord>, name: Seq<char>) -> InterfaceAccumulator
    decreases records.len(),
{
    if records.len() == 0 {
        empty_accumulator()
    } else {
        let before = accumulated_for_name(records.drop_last(), name);
        if records.last().interface_name@ == name {
            accumulated_record(before, records.last())
        } else {
            before
        }
    }
}

/// Whether some record belongs to the interface called `name`.
pub open spec fn names_interface(records: Seq<InterfaceAddressRecord>, name: Seq<char>) -> bool {
    exists|k: int| 0 <= k < records.len() && #[trigger] records[k].interface_name@ == name
}

/// An interface name and the accumulated state of its records.
#[derive(Debug, Clone, PartialEq, Eq)]
pub struct NamedInterfaceAccumulator {
    /// Interface name.
    pub interface_name: String,
    /// Accumulated state of the interface's records.
    pub accumulator: InterfaceAccumulator,
}

/// `entries` hold, in strictly ascending name order, one accumulator for every interface of
/// `records` whose name passes the interface-name rules, and nothing else.
pub open spec fn accumulated_interfaces(
    entries: Seq<NamedInterfaceAccumulator>,
    records: Seq<InterfaceAddressRecord>,
) -> bool {
    &&& forall|i: int, j: int|
        0 <= i < j < entries.len() ==> precedes(entries[i].interface_name@, entries[j].interface_name@)
    &&& forall|i: int|
        0 <= i < entries.len() ==> {
            let name = (#[trigger] entries[i]).interface_name@;
            &&& interface_name_problem(name) is None
            &&& names_interface(records, name)
            &&& entries[i].accumulator == accumulated_for_name(records, name)
        }
    &&& forall|k: int|
        0 <= k < records.len() && interface_name_problem(#[trigger] records[k].interface_name@)
            is None ==> exists|i: int|
            0 <= i < entries.len() && entries[i].interface_name@ == records[k].interface_name@
}

proof fn lemma_accumulated_for_absent_name(records: Seq<InterfaceAddressRecord>, name: Seq<char>)
    requires
        !names_interface(records, name),
    ensures
        accumulated_for_name(records, name) == empty_accumulator(),
    decreases records.len(),
{
    if records.len() > 0 {
        let earlier = records.drop_last();
        assert(!names_interface(earlier, name)) by {
            if names_interface(earlier, name) {
                let k = choose|k: int| 0 <= k < earlier.len() && #[trigger] earlier[k].interface_name@ == name;
                assert(records[k] == earlier[k]);
            }
        }
        assert(records[records.len() - 1].interface_name@ != name);
        lemma_accumulated_for_absent_name(earlier, name);
    }
}

/// Applies one record to an accumulator.
fn accumulate_record(accumulator: InterfaceAccumulator, record: &InterfaceAddressRecord) -> (next:
    InterfaceAccumulator)
    ensures
        next == accumulated_record(accumulator, *record),
{
    let mut next = accumulator;
    next.interface_flags = record.interface_flags;
    match record.payload {
        InterfaceAddressPayload::Ipv4 { address, netmask } => {
            if accumulator.source_ipv4_address.is_none() {
                next.source_ipv4_address = Some(address);
                next.ipv4_netmask = netmask;
            }
        },
        InterfaceAddressPayload::LinkLayer { interface_type, hardware_address } => {
            match hardware_address {
                Some(octets) => {
                    next.link_layer = Some((interface_type, octets));
                },
                None => {},
            }
        },
    }
    next
}

/// The position of the first entry whose name does not sort before `name`.
fn insertion_position(entries: &Vec<NamedInterfaceAccumulator>, name: &str) -> (position: usize)
    ensures
        position <= entries@.len(),
        forall|i: int| 0 <= i < position ==> precedes(entries@[i].interface_name@, name@),
        position < entries@.len() ==> !precedes(entries@[position as int].interface_name@, name@),
{
    let mut position: usize = 0;
    while position < entries.len()
        invariant
            position <= entries@.len(),
            forall|i: int| 0 <= i < position ==> precedes(entries@[i].interface_name@, name@),
        decreases entries@.len() - position,
    {
        if !text_precedes(entries[position].interface_name.as_str(), name) {
            return position;
        }
        position = position + 1;
    }
    position
}

/// Takes the record at `index` into `entries`, which hold the accumulators of the records
/// before it.
fn absorb_interface_record(
    entries: &mut Vec<NamedInterfaceAccumulator>,
    records: &[InterfaceAddressRecord],
    index: usize,
)
    requires
        index < records@.len(),
        accumulated_interfaces(old(entries)@, records@.take(index as int)),
    ensures
        accumulated_interfaces(final(entries)@, records@.take(index + 1)),
{
    let record = &records[index];
    let ghost seen = records@.take(index as int);
    let ghost next_seen = records@.take(index + 1);
    let ghost name = record.interface_name@;
    assert(next_seen.drop_last() =~= seen);
    assert(next_seen.last() == *record);
    proof {
        assert forall|other: Seq<char>| other != name implies accumulated_for_name(next_seen, other)
            == accumulated_for_name(seen, other) by {}
        assert forall|other: Seq<char>| #[trigger] names_interface(seen, other) implies names_interface(
            next_seen,
            other,
        ) by {
            let k = choose|k: int| 0 <= k < seen.len() && #[trigger] seen[k].interface_name@ == other;
            assert(next_seen[k] == seen[k]);
        }
        assert(names_interface(next_seen, name)) by {
            assert(next_seen[index as int].interface_name@ == name);
        }
    }
    if validate_interface_name_for_linux_packet_socket(record.interface_name.as_str()).is_err() {
        proof {
            assert forall|k: int|
                0 <= k < next_seen.len() && interface_name_problem(
                    #[trigger] next_seen[k].interface_name@,
                ) is None implies exists|i: int|
                0 <= i < entries@.len() && entries@[i].interface_name@
                    == next_seen[k].interface_name@ by {
                assert(seen[k] == next_seen[k]);
            }
        }
        return;
    }
    let position = insertion_position(entries, record.interface_name.as_str());
    let found = position < entries.len() && !text_precedes(
        record.interface_name.as_str(),
        entries[position].interface_name.as_str(),
    );
    if found {
        proof {
            lemma_precedes_total(entries@[position as int].interface_name@, name);
        }
        update_interface_entry(entries, records, index, position);
    } else {
        proof {
            if position < entries@.len() {
                lemma_precedes_total(entries@[position as int].interface_name@, name);
            }
        }
        insert_interface_entry(entries, records, index, position);
    }
}

/// Applies the record at `index` to the entry at `position`, which holds its interface.
fn update_interface_entry(
    entries: &mut Vec<NamedInterfaceAccumulator>,
    records: &[InterfaceAddressRecord],
    index: usize,
    position: usize,
)
    requires
        index < records@.len(),
        position < old(entries)@.len(),
        old(entries)@[position as int].interface_name@ == records@[index as int].interface_name@,
        interface_name_problem(records@[index as int].interface_name@) is None,
        accumulated_interfaces(old(entries)@, records@.take(index as int)),
    ensures
        accumulated_interfaces(final(entries)@, records@.take(index + 1)),
{
    let record = &records[index];
    let ghost seen = records@.take(index as int);
    let ghost next_seen = records@.take(index + 1);
    let ghost name = record.interface_name@;
    assert(next_seen.drop_last() =~= seen);
    assert(next_seen.last() == *record);
    proof {
        assert forall|other: Seq<char>| other != name implies accumulated_for_name(next_seen, other)
            == accumulated_for_name(seen, other) by {}
        assert forall|other: Seq<char>| #[trigger] names_interface(seen, other) implies names_interface(
            next_seen,
            other,
        ) by {
            let k = choose|k: int| 0 <= k < seen.len() && #[trigger] seen[k].interface_name@ == other;
            assert(next_seen[k] == seen[k]);
        }
        assert(names_interface(next_seen, name)) by {
            assert(next_seen[index as int].interface_name@ == name);
        }
    }
    let updated = accumulate_record(entries[position].accumulator, record);
    let ghost old_entries = entries@;
    entries.set(
        position,
        NamedInterfaceAccumulator { interface_name: record.interface_name.clone(), accumulator: updated },
    );
    proof {
        assert forall|i: int| 0 <= i < entries@.len() implies {
            let n = (#[trigger] entries@[i]).interface_name@;
            &&& interface_name_problem(n) is None
            &&& names_interface(next_seen, n)
            &&& entries@[i].accumulator == accumulated_for_name(next_seen, n)
        } by {
            assert(entries@[i].interface_name@ == old_entries[i].interface_name@);
            if i == position {
                assert(accumulated_for_name(next_seen, name) == accumulated_record(
                    accumulated_for_name(seen, name),
                    *record,
                ));
            } else {
                lemma_precedes_total(old_entries[i].interface_name@, old_entries[i].interface_name@);
                if i < position {
                    assert(precedes(old_entries[i].interface_name@, name));
                } else {
                    assert(precedes(name, old_entries[i].interface_name@));
                }
            }
        }
        assert forall|k: int|
            0 <= k < next_seen.len() && interface_name_problem(
                #[trigger] next_seen[k].interface_name@,
            ) is None implies exists|i: int|
            0 <= i < entries@.len() && entries@[i].interface_name@ == next_seen[k].interface_name@ by {
            if k < seen.len() {
                assert(seen[k] == next_seen[k]);
                let i = choose|i: int|
                    0 <= i < old_entries.len() && old_entries[i].interface_name@
                        == seen[k].interface_name@;
                assert(entries@[i].interface_name@ == old_entries[i].interface_name@);
            } else {
                assert(entries@[position as int].interface_name@ == name);
            }
        }
        assert forall|i: int, j: int| 0 <= i < j < entries@.len() implies precedes(
            entries@[i].interface_name@,
            entries@[j].interface_name@,
        ) by {
            assert(entries@[i].interface_name@ == old_entries[i].interface_name@);
            assert(entries@[j].interface_name@ == old_entries[j].interface_name@);
        }
    }
}

/// Inserts, at `position`, the first entry of the interface of the record at `index`: every entry
/// before `position` sorts before its name and the entry at `position`, if any, after it.
#[verifier::rlimit(30)]
fn insert_interface_entry(
    entries: &mut Vec<NamedInterfaceAccumulator>,
    records: &[InterfaceAddressRecord],
    index: usize,
    position: usize,
)
    requires
        index < records@.len(),
        position <= old(entries)@.len(),
        forall|i: int|
            0 <= i < position ==> precedes(
                old(entries)@[i].interface_name@,
                records@[index as int].interface_name@,
            ),
        position < old(entries)@.len() ==> precedes(
            records@[index as int].interface_name@,
            old(entries)@[position as int].interface_name@,
        ),
        interface_name_problem(records@[index as int].interface_name@) is None,
        accumulated_interfaces(old(entries)@, records@.take(index as int)),
    ensures
        accumulated_interfaces(final(entries)@, records@.take(index + 1)),
{
    let record = &records[index];
    let ghost seen = records@.take(index as int);
    let ghost next_seen = records@.take(index + 1);
    let ghost name = record.interface_name@;
    let ghost old_entries = entries@;
    assert(next_seen.drop_last() =~= seen);
    assert(next_seen.last() == *record);
    proof {
        assert forall|other: Seq<char>| other != name implies accumulated_for_name(next_seen, other)
            == accumulated_for_name(seen, other) by {}
        assert forall|other: Seq<char>| #[trigger] names_interface(seen, other) implies names_interface(
            next_seen,
            other,
        ) by {
            let k = choose|k: int| 0 <= k < seen.len() && #[trigger] seen[k].interface_name@ == other;
            assert(next_seen[k] == seen[k]);
        }
        assert(names_interface(next_seen, name)) by {
            assert(next_seen[index as int].interface_name@ == name);
        }
        assert(!names_interface(seen, name)) by {
            if names_interface(seen, name) {
                let k = choose|k: int| 0 <= k < seen.len() && #[trigger] seen[k].interface_name@ == name;
                let i = choose|i: int|
                    0 <= i < old_entries.len() && old_entries[i].interface_name@
                        == seen[k].interface_name@;
                if i < position {
                    lemma_precedes_total(old_entries[i].interface_name@, name);
                } else {
                    if i > position {
                        lemma_precedes_transitive(
                            name,
                            old_entries[position as int].interface_name@,
                            old_entries[i].interface_name@,
                        );
                    }
                    lemma_precedes_total(name, name);
                }
            }
        }
        lemma_accumulated_for_absent_name(seen, name);
    }
    let fresh = accumulate_record(
        InterfaceAccumulator {
            interface_flags: 0,
            source_ipv4_address: None,
            ipv4_netmask: None,
            link_layer: None,
        },
        record,
    );
    entries.insert(
        position,
        NamedInterfaceAccumulator { interface_name: record.interface_name.clone(), accumulator: fresh },
    );
    proof {
        assert forall|i: int| 0 <= i < entries@.len() implies {
            let n = (#[trigger] entries@[i]).interface_name@;
            &&& interface_name_problem(n) is None
            &&& names_interface(next_seen, n)
            &&& entries@[i].accumulator == accumulated_for_name(next_seen, n)
        } by {
            if i < position {
                assert(entries@[i] == old_entries[i]);
                lemma_precedes_total(old_entries[i].interface_name@, name);
            } else if i > position {
                assert(entries@[i] == old_entries[i - 1]);
                if i - 1 > position {
                    lemma_precedes_transitive(
                        name,
                        old_entries[position as int].interface_name@,
                        old_entries[i - 1].interface_name@,
                    );
                }
                lemma_precedes_total(name, old_entries[i - 1].interface_name@);
            }
        }
        assert forall|k: int|
            0 <= k < next_seen.len() && interface_name_problem(
                #[trigger] next_seen[k].interface_name@,
            ) is None implies exists|i: int|
            0 <= i < entries@.len() && entries@[i].interface_name@ == next_seen[k].interface_name@ by {
            if k < seen.len() {
                assert(seen[k] == next_seen[k]);
                let i = choose|i: int|
                    0 <= i < old_entries.len() && old_entries[i].interface_name@
                        == seen[k].interface_name@;
                if i < position {
                    assert(entries@[i] == old_entries[i]);
                } else {
                    assert(entries@[i + 1] == old_entries[i]);
                }
            } else {
                assert(entries@[position as int].interface_name@ == name);
            }
        }
        assert forall|i: int, j: int| 0 <= i < j < entries@.len() implies precedes(
            entries@[i].interface_name@,
            entries@[j].interface_name@,
        ) by {
            if j < position {
                assert(entries@[i] == old_entries[i]);
                assert(entries@[j] == old_entries[j]);
            } else if j == position {
                assert(entries@[i] == old_entries[i]);
            } else if i == position {
                assert(entries@[j] == old_entries[j - 1]);
                if j - 1 > position {
                    lemma_precedes_transitive(
                        name,
                        old_entries[position as int].interface_name@,
                        old_entries[j - 1].interface_name@,
                    );
                }
            } else if i < position {
                assert(entries@[i] == old_entries[i]);
                assert(entries@[j] == old_entries[j - 1]);
                if j - 1 > position {
                    lemma_precedes_transitive(
                        name,
                        old_entries[position as int].interface_name@,
                        old_entries[j - 1].interface_name@,
                    );
                }
                lemma_precedes_transitive(
                    old_entries[i].interface_name@,
                    name,
                    old_entries[j - 1].interface_name@,
                );
            } else {
                assert(entries@[i] == old_entries[i - 1]);
                assert(entries@[j] == old_entries[j - 1]);
            }
        }
    }
}

/// Folds `getifaddrs(3)` records into one accumulator per interface name, in ascending name
/// order. Names that fail the shared interface-name rules are skipped.
pub fn accumulate_interface_records(records: &[InterfaceAddressRecord]) -> (entries: Vec<
    NamedInterfaceAccumulator,
>)
    ensures
        accumulated_interfaces(entries@, records@),
{
    let mut entries: Vec<NamedInterfaceAccumulator> = Vec::new();
    let mut index: usize = 0;
    assert(records@.take(0) =~= Seq::<InterfaceAddressRecord>::empty());
    while index < records.len()
        invariant
            index <= records@.len(),
            accumulated_interfaces(entries@, records@.take(index as int)),
        decreases records@.len() - index,
    {
        absorb_interface_record(&mut entries, records, index);
        index = index + 1;
    }
    assert(records@.take(records@.len() as int) =~= records@);
    entries
}

/// Why an accumulated interface cannot be scanned, or `None` when it can. The flag is `true` when
/// the reason concerns the hardware address (the other reasons reject the interface itself).
pub open spec fn accumulator_rejection(accumulator: InterfaceAccumulator) -> Option<(bool, Seq<char>)> {
    match flags_rejection_reason(accumulator.interface_flags) {
        Some(reason) => Some((false, reason)),
        None => if accumulator.source_ipv4_address is None || accumulator.ipv4_netmask is None {
            Some((false, "interface has no IPv4 address and netmask"@))
        } else {
            match accumulator.link_layer {
                None => Some((true, "interface has no Ethernet hardware address"@)),
                Some((interface_type, octets)) => if interface_type != INTERFACE_TYPE_ETHERNET {
                    Some(
                        (
                            true,
                            "link-layer type "@ + decimal_text(interface_type as nat)
                                + " is not Ethernet"@,
                        ),
                    )
                } else if octets@ == zero_octets() {
                    Some((true, "hardware address is all zero"@))
                } else {
                    None
                },
            }
        },
    }
}

/// One macOS interface that passed every ARP scan usability rule, before its index is resolved.
#[derive(Debug, Clone, PartialEq, Eq)]
pub struct ClassifiedScanInterface {
    /// Interface name.
    pub interface_name: String,
    /// Primary IPv4 address.
    pub source_ipv4_address: u32,
    /// IPv4 netmask.
    pub ipv4_netmask: u32,
    /// Ethernet hardware address.
    pub source_mac_address: MacAddress,
}

/// `interface` is what classification yields for the accumulated interface `name`.
pub open spec fn classified_from(
    interface: ClassifiedScanInterface,
    name: Seq<char>,
    accumulator: InterfaceAccumulator,
) -> bool {
    &&& interface.interface_name@ == name
    &&& accumulator.source_ipv4_address == Some(interface.source_ipv4_address)
    &&& accumulator.ipv4_netmask == Some(interface.ipv4_netmask)
    &&& accumulator.link_layer matches Some((_, octets)) && interface.source_mac_address@ == octets@
}

/// Applies the ARP scan usability rules to one accumulated interface: the usable interface, or
/// [`AppError::InterfaceRejectedForScanning`] / [`AppError::InterfaceHardwareAddressUnsupported`]
/// with the reason of [`accumulator_rejection`].
pub fn classify_accumulator(interface_name: &str, accumulator: &InterfaceAccumulator) -> (classified:
    Result<ClassifiedScanInterface, AppError>)
    ensures
        match accumulator_rejection(*accumulator) {
            None => classified matches Ok(interface) && classified_from(
                interface,
                interface_name@,
                *accumulator,
            ),
            Some((false, reason)) => classified matches Err(
                AppError::InterfaceRejectedForScanning { interface_name: name, reason: r },
            ) && name@ == interface_name@ && r@ == reason,
            Some((true, reason)) => classified matches Err(
                AppError::InterfaceHardwareAddressUnsupported { interface_name: name, reason: r },
            ) && name@ == interface_name@ && r@ == reason,
        },
{
    let flags = accumulator.interface_flags;
    if !interface_flags_allow_arp_scanning(flags) {
        let reason = if (flags & (INTERFACE_FLAG_LOOPBACK as u32)) != 0 {
            String::from_str("loopback interface")
        } else if (flags & (INTERFACE_FLAG_NO_ARP as u32)) != 0 {
            String::from_str("interface has NOARP set")
        } else {
            String::from_str("interface is not UP")
        };
        return Err(
            AppError::InterfaceRejectedForScanning {
                interface_name: String::from_str(interface_name),
                reason,
            },
        );
    }
    let (source_ipv4_address, ipv4_netmask) = match (
        accumulator.source_ipv4_address,
        accumulator.ipv4_netmask,
    ) {
        (Some(address), Some(netmask)) => (address, netmask),
        _ => {
            return Err(
                AppError::InterfaceRejectedForScanning {
                    interface_name: String::from_str(interface_name),
                    reason: String::from_str("interface has no IPv4 address and netmask"),
                },
            );
        },
    };
    let (interface_type, octets) = match accumulator.link_layer {
        Some(link_layer) => link_layer,
        None => {
            return Err(
                AppError::InterfaceHardwareAddressUnsupported {
                    interface_name: String::from_str(interface_name),
                    reason: String::from_str("interface has no Ethernet hardware address"),
                },
            );
        },
    };
    if interface_type != INTERFACE_TYPE_ETHERNET {
        let mut reason = String::from_str("link-layer type ");
        push_decimal(&mut reason, interface_type as u128);
        push_text(&mut reason, " is not Ethernet");
        proof {
            reveal_strlit("link-layer type ");
        }
        assert(reason@ =~= "link-layer type "@ + decimal_text(interface_type as nat)
            + " is not Ethernet"@);
        return Err(
            AppError::InterfaceHardwareAddressUnsupported {
                interface_name: String::from_str(interface_name),
                reason,
            },
        );
    }
    let source_mac_address = MacAddress::from_octets(octets);
    if source_mac_address.is_zero() {
        return Err(
            AppError::InterfaceHardwareAddressUnsupported {
                interface_name: String::from_str(interface_name),
                reason: String::from_str("hardware address is all zero"),
            },
        );
    }
    Ok(
        ClassifiedScanInterface {
            interface_name: String::from_str(interface_name),
            source_ipv4_address,
            ipv4_netmask,
            source_mac_address,
        },
    )
}

/// `interfaces` are, in strictly ascending name order, the usable interfaces of `records`: one
/// per interface whose name passes the interface-name rules and whose accumulated records pass
/// the usability rules.
pub open spec fn usable_interfaces(
    interfaces: Seq<ClassifiedScanInterface>,
    records: Seq<InterfaceAddressRecord>,
) -> bool {
    &&& forall|i: int, j: int|
        0 <= i < j < interfaces.len() ==> precedes(
            interfaces[i].interface_name@,
            interfaces[j].interface_name@,
        )
    &&& forall|i: int|
        0 <= i < interfaces.len() ==> {
            let name = (#[trigger] interfaces[i]).interface_name@;
            &&& interface_name_problem(name) is None
            &&& names_interface(records, name)
            &&& accumulator_rejection(accumulated_for_name(records, name)) is None
            &&& classified_from(interfaces[i], name, accumulated_for_name(records, name))
        }
    &&& forall|k: int|
        0 <= k < records.len() && interface_name_problem(#[trigger] records[k].interface_name@)
            is None && accumulator_rejection(accumulated_for_name(records, records[k].interface_name@))
            is None ==> exists|i: int|
            0 <= i < interfaces.len() && interfaces[i].interface_name@ == records[k].interface_name@
}

/// Groups address records by interface name and keeps the usable ARP scan interfaces, in
/// ascending name order.
pub fn classify_usable_scan_interfaces(records: &[InterfaceAddressRecord]) -> (interfaces: Vec<
    ClassifiedScanInterface,
>)
    ensures
        usable_interfaces(interfaces@, records@),
{
    let entries = accumulate_interface_records(records);
    let mut interfaces: Vec<ClassifiedScanInterface> = Vec::new();
    let ghost kept: Seq<int> = Seq::empty();
    let mut index: usize = 0;
    while index < entries.len()
        invariant
            index <= entries@.len(),
            accumulated_interfaces(entries@, records@),
            kept.len() == interfaces@.len(),
            forall|m: int, n: int| 0 <= m < n < kept.len() ==> kept[m] < kept[n],
            forall|m: int| 0 <= m < kept.len() ==> 0 <= #[trigger] kept[m] < index,
            forall|m: int|
                0 <= m < kept.len() ==> (#[trigger] interfaces@[m]).interface_name@
                    == entries@[kept[m]].interface_name@,
            forall|i: int|
                0 <= i < interfaces@.len() ==> {
                    let name = (#[trigger] interfaces@[i]).interface_name@;
                    &&& interface_name_problem(name) is None
                    &&& names_interface(records@, name)
                    &&& accumulator_rejection(accumulated_for_name(records@, name)) is None
                    &&& classified_from(interfaces@[i], name, accumulated_for_name(records@, name))
                },
            forall|e: int|
                0 <= e < index && accumulator_rejection(#[trigger] entries@[e].accumulator) is None
                    ==> exists|m: int| 0 <= m < kept.len() && kept[m] == e,
        decreases entries@.len() - index,
    {
        let entry = &entries[index];
        let ghost old_kept = kept;
        match classify_accumulator(entry.interface_name.as_str(), &entry.accumulator) {
            Ok(interface) => {
                interfaces.push(interface);
                proof {
                    kept = kept.push(index as int);
                    assert(kept[kept.len() - 1] == index);
                    assert forall|e: int|
                        0 <= e < index + 1 && accumulator_rejection(#[trigger] entries@[e].accumulator)
                            is None implies exists|m: int| 0 <= m < kept.len() && kept[m] == e by {
                        if e < index {
                            let m = choose|m: int| 0 <= m < old_kept.len() && old_kept[m] == e;
                            assert(kept[m] == e);
                        } else {
                            assert(kept[kept.len() - 1] == e);
                        }
                    }
                }
            },
            Err(_) => {
                assert(accumulator_rejection(entries@[index as int].accumulator) is Some);
            },
        }
        index = index + 1;
    }
    proof {
        assert forall|i: int, j: int| 0 <= i < j < interfaces@.len() implies precedes(
            interfaces@[i].interface_name@,
            interfaces@[j].interface_name@,
        ) by {
            assert(interfaces@[i].interface_name@ == entries@[kept[i]].interface_name@);
            assert(interfaces@[j].interface_name@ == entries@[kept[j]].interface_name@);
        }
        assert forall|k: int|
            0 <= k < records@.len() && interface_name_problem(#[trigger] records@[k].interface_name@)
                is None && accumulator_rejection(
                accumulated_for_name(records@, records@[k].interface_name@),
            ) is None implies exists|i: int|
            0 <= i < interfaces@.len() && interfaces@[i].interface_name@
                == records@[k].interface_name@ by {
            let e = choose|e: int|
                0 <= e < entries@.len() && entries@[e].interface_name@ == records@[k].interface_name@;
            assert(accumulator_rejection(entries@[e].accumulator) is None);
            let m = choose|m: int| 0 <= m < kept.len() && kept[m] == e;
            assert(interfaces@[m].interface_name@ == entries@[e].interface_name@);
        }
    }
    interfaces
}

/// Reads [`InterfaceScanAddresses`] for `interface_name` from the `getifaddrs(3)` records.
///
/// Returns [`AppError::InvalidInterfaceName`] for an unusable name,
/// [`AppError::InterfaceLookupFailed`] when no record belongs to the interface, or the rejection
/// of [`classify_accumulator`] for the interface's accumulated records.
pub fn discover_interface_scan_addresses(
    interface_name: &str,
    records: &[InterfaceAddressRecord],
) -> (addresses: Result<InterfaceScanAddresses, AppError>)
    ensures
        match interface_name_problem(interface_name@) {
            Some(problem) => addresses matches Err(AppError::InvalidInterfaceName { message })
                && message@ == problem,
            None => if !names_interface(records@, interface_name@) {
                addresses matches Err(AppError::InterfaceLookupFailed { interface_name: name, .. })
                    && name@ == interface_name@
            } else {
                let accumulator = accumulated_for_name(records@, interface_name@);
                match accumulator_rejection(accumulator) {
                    None => addresses matches Ok(found) && accumulator.source_ipv4_address == Some(
                        found.source_ipv4_address,
                    ) && accumulator.ipv4_netmask == Some(found.ipv4_netmask)
                        && (accumulator.link_layer matches Some((_, octets))
                        && found.source_mac_address@ == octets@),
                    Some((false, reason)) => addresses matches Err(
                        AppError::InterfaceRejectedForScanning { interface_name: name, reason: r },
                    ) && name@ == interface_name@ && r@ == reason,
                    Some((true, reason)) => addresses matches Err(
                        AppError::InterfaceHardwareAddressUnsupported {
                            interface_name: name,
                            reason: r,
                        },
                    ) && name@ == interface_name@ && r@ == reason,
                }
            },
        },
{
    match validate_interface_name_for_linux_packet_socket(interface_name) {
        Ok(()) => {},
        Err(error) => {
            return Err(error);
        },
    }
    let entries = accumulate_interface_records(records);
    let mut index: usize = 0;
    while index < entries.len()
        invariant
            index <= entries@.len(),
            accumulated_interfaces(entries@, records@),
            forall|i: int| 0 <= i < index ==> entries@[i].interface_name@ != interface_name@,
        decreases entries@.len() - index,
    {
        if !text_precedes(entries[index].interface_name.as_str(), interface_name) && !text_precedes(
            interface_name,
            entries[index].interface_name.as_str(),
        ) {
            proof {
                lemma_precedes_total(entries@[index as int].interface_name@, interface_name@);
            }
            let classified = match classify_accumulator(interface_name, &entries[index].accumulator) {
                Ok(classified) => classified,
                Err(error) => {
                    return Err(error);
                },
            };
            return Ok(
                InterfaceScanAddresses {
                    source_ipv4_address: classified.source_ipv4_address,
                    ipv4_netmask: classified.ipv4_netmask,
                    source_mac_address: classified.source_mac_address,
                },
            );
        }
        proof {
            lemma_precedes_total(entries@[index as int].interface_name@, interface_name@);
        }
        index = index + 1;
    }
    proof {
        assert(!names_interface(records@, interface_name@)) by {
            if names_interface(records@, interface_name@) {
                let k = choose|k: int|
                    0 <= k < records@.len() && #[trigger] records@[k].interface_name@
                        == interface_name@;
                let i = choose|i: int|
                    0 <= i < entries@.len() && entries@[i].interface_name@
                        == records@[k].interface_name@;
            }
        }
    }
    Err(
        AppError::InterfaceLookupFailed {
            interface_name: String::from_str(interface_name),
            source: input_output_error(
                InputOutputErrorKind::NotFound,
                "interface not present in getifaddrs output",
            ),
        },
    )
}

/// Which interface a scan uses on macOS: `explicit_interface_name` when one is given and
/// [`discover_interface_scan_addresses`] accepts it, otherwise the only usable candidate (with
/// the errors of the automatic selection of the Linux backend).
pub fn resolve_scan_interface_name(
    explicit_interface_name: Option<&str>,
    records: &[InterfaceAddressRecord],
    usable_candidates: &Vec<ArpScanInterfaceCandidate>,
) -> (resolved: Result<String, AppError>)
    ensures
        match explicit_interface_name {
            Some(name) => match interface_name_problem(name@) {
                Some(problem) => resolved matches Err(AppError::InvalidInterfaceName { message })
                    && message@ == problem,
                None => if !names_interface(records@, name@) {
                    resolved matches Err(AppError::InterfaceLookupFailed { interface_name: n, .. })
                        && n@ == name@
                } else {
                    match accumulator_rejection(accumulated_for_name(records@, name@)) {
                        None => resolved matches Ok(chosen) && chosen@ == name@,
                        Some((false, reason)) => resolved matches Err(
                            AppError::InterfaceRejectedForScanning { interface_name: n, reason: r },
                        ) && n@ == name@ && r@ == reason,
                        Some((true, reason)) => resolved matches Err(
                            AppError::InterfaceHardwareAddressUnsupported {
                                interface_name: n,
                                reason: r,
                            },
                        ) && n@ == name@ && r@ == reason,
                    }
                },
            },
            None => if usable_candidates@.len() == 0 {
                resolved matches Err(AppError::AutomaticInterfaceSelectionNoneFound)
            } else if usable_candidates@.len() == 1 {
                resolved matches Ok(chosen) && chosen@ == usable_candidates@[0].interface_name@
            } else {
                resolved matches Err(AppError::AutomaticInterfaceSelectionAmbiguous { interface_names })
                    && interface_names@.len() == usable_candidates@.len() && forall|i: int|
                    0 <= i < interface_names@.len() ==> #[trigger] interface_names@[i]@
                        == usable_candidates@[i].interface_name@
            },
        },
{
    match explicit_interface_name {
        Some(interface_name) => {
            match discover_interface_scan_addresses(interface_name, records) {
                Ok(_) => Ok(String::from_str(interface_name)),
                Err(error) => Err(error),
            }
        },
        None => crate::linux_interface_discovery::resolve_scan_interface_name(None, usable_candidates),
    }
}

} // verus!
