//! Value types produced by interface discovery and shared by the scan paths of every platform.

use vstd::prelude::*;

use crate::mac_address::MacAddress;
use crate::text::{lemma_precedes_total, lemma_precedes_transitive, precedes, text_precedes};

verus! {

/// IPv4 configuration and Ethernet hardware address discovered for scanning one interface.
#[derive(Debug, Clone, Copy, PartialEq, Eq)]
pub struct InterfaceScanAddresses {
    /// Primary IPv4 address selected for scanning (first address returned by the kernel).
    pub source_ipv4_address: u32,
    /// IPv4 netmask associated with [`Self::source_ipv4_address`].
    pub ipv4_netmask: u32,
    /// Source Ethernet hardware address used in outgoing frames.
    pub source_mac_address: MacAddress,
}

/// One local interface that satisfies the ARP scan filtering rules.
#[derive(Debug, Clone, PartialEq, Eq)]
pub struct ArpScanInterfaceCandidate {
    /// Operating system interface name (for example `eth0` or `en0`).
    pub interface_name: String,
    /// Operating system interface index (`ifindex`).
    pub interface_index: u32,
    /// Primary IPv4 address on this interface.
    pub source_ipv4_address: u32,
    /// IPv4 netmask associated with [`Self::source_ipv4_address`].
    pub ipv4_netmask: u32,
    /// Ethernet hardware address for this interface.
    pub source_mac_address: MacAddress,
}


/// Whether `first` sorts strictly before `second`: by interface index, then by name.
pub open spec fn candidate_precedes(
    first: ArpScanInterfaceCandidate,
    second: ArpScanInterfaceCandidate,
) -> bool {
    first.interface_index < second.interface_index || (first.interface_index
        == second.interface_index && precedes(first.interface_name@, second.interface_name@))
}

/// No candidate of `candidates` sorts before an earlier one.
pub open spec fn candidates_in_order(candidates: Seq<ArpScanInterfaceCandidate>) -> bool {
    forall|i: int, j: int|
        0 <= i < j < candidates.len() ==> !candidate_precedes(candidates[j], candidates[i])
}

proof fn lemma_candidate_precedes_transitive(
    first: ArpScanInterfaceCandidate,
    second: ArpScanInterfaceCandidate,
    third: ArpScanInterfaceCandidate,
)
    requires
        candidate_precedes(first, second),
        candidate_precedes(second, third),
    ensures
        candidate_precedes(first, third),
{
    if first.interface_index == second.interface_index && second.interface_index
        == third.interface_index {
        lemma_precedes_transitive(
            first.interface_name@,
            second.interface_name@,
            third.interface_name@,
        );
    }
}

fn candidate_sorts_before(
    first: &ArpScanInterfaceCandidate,
    second: &ArpScanInterfaceCandidate,
) -> (before: bool)
    ensures
        before == candidate_precedes(*first, *second),
{
    first.interface_index < second.interface_index || (first.interface_index
        == second.interface_index && text_precedes(
        first.interface_name.as_str(),
        second.interface_name.as_str(),
    ))
}

/// The position after the last candidate of `sorted` that `candidate` does not sort before.
fn candidate_insertion_position(
    sorted: &Vec<ArpScanInterfaceCandidate>,
    candidate: &ArpScanInterfaceCandidate,
) -> (position: usize)
    ensures
        position <= sorted@.len(),
        forall|i: int| 0 <= i < position ==> !candidate_precedes(*candidate, sorted@[i]),
        position < sorted@.len() ==> candidate_precedes(*candidate, sorted@[position as int]),
{
    let mut position: usize = 0;
    while position < sorted.len()
        invariant
            position <= sorted@.len(),
            forall|i: int| 0 <= i < position ==> !candidate_precedes(*candidate, sorted@[i]),
        decreases sorted@.len() - position,
    {
        if candidate_sorts_before(candidate, &sorted[position]) {
            return position;
        }
        position = position + 1;
    }
    position
}

/// Sorts usable interfaces by interface index, then by name (candidates that compare equal keep
/// their order). The result holds the same candidates.
pub fn sort_candidates_by_interface_index_then_name(
    candidates: Vec<ArpScanInterfaceCandidate>,
) -> (sorted: Vec<ArpScanInterfaceCandidate>)
    ensures
        candidates_in_order(sorted@),
        sorted@.to_multiset() == candidates@.to_multiset(),
{
    broadcast use vstd::seq_lib::group_to_multiset_ensures;

    let mut remaining = candidates;
    let mut sorted: Vec<ArpScanInterfaceCandidate> = Vec::new();
    while remaining.len() > 0
        invariant
            candidates_in_order(sorted@),
            sorted@.to_multiset().add(remaining@.to_multiset()) == candidates@.to_multiset(),
        decreases remaining@.len(),
    {
        let ghost before_remaining = remaining@;
        let ghost before_sorted = sorted@;
        let candidate = remaining.remove(0);
        let position = candidate_insertion_position(&sorted, &candidate);
        sorted.insert(position, candidate);
        proof {
            vstd::seq_lib::to_multiset_remove(before_remaining, 0);
            vstd::seq_lib::to_multiset_insert(before_sorted, position as int, candidate);
            assert(remaining@ =~= before_remaining.remove(0));
            assert(sorted@ =~= before_sorted.insert(position as int, candidate));
            assert(before_remaining.to_multiset().contains(candidate)) by {
                broadcast use vstd::seq_lib::to_multiset_contains;

                assert(before_remaining.contains(before_remaining[0]));
            }
            assert(sorted@.to_multiset().add(remaining@.to_multiset()) =~= candidates@.to_multiset())
                by {
                broadcast use vstd::multiset::group_multiset_axioms;

            }
            assert forall|i: int, j: int| 0 <= i < j < sorted@.len() implies !candidate_precedes(
                sorted@[j],
                sorted@[i],
            ) by {
                if j < position {
                    assert(sorted@[i] == before_sorted[i] && sorted@[j] == before_sorted[j]);
                } else if j == position {
                    assert(sorted@[i] == before_sorted[i]);
                } else if i == position {
                    assert(sorted@[j] == before_sorted[j - 1]);
                    if candidate_precedes(sorted@[j], candidate) {
                        lemma_candidate_precedes_transitive(
                            before_sorted[j - 1],
                            candidate,
                            before_sorted[position as int],
                        );
                        if j - 1 == position {
                            lemma_precedes_total(
                                candidate.interface_name@,
                                before_sorted[position as int].interface_name@,
                            );
                            lemma_precedes_total(
                                before_sorted[position as int].interface_name@,
                                before_sorted[position as int].interface_name@,
                            );
                        }
                    }
                } else if i < position {
                    assert(sorted@[i] == before_sorted[i]);
                    assert(sorted@[j] == before_sorted[j - 1]);
                } else {
                    assert(sorted@[i] == before_sorted[i - 1]);
                    assert(sorted@[j] == before_sorted[j - 1]);
                }
            }
        }
    }
    proof {
        assert(remaining@.to_multiset() =~= vstd::multiset::Multiset::empty());
    }
    sorted
}

} // verus!
