//! IPv4 subnet arithmetic for address resolution scanning: netmasks and prefix lengths, the
//! network and broadcast addresses, and the interior host range.

use vstd::prelude::*;

use crate::error::AppError;
use crate::ipv4_text::{ipv4_string, ipv4_text};
use crate::text::{decimal_text, push_decimal, push_text};

verus! {

/// The netmask of a prefix length: its `prefix_length` most significant bits set (all ones from
/// 32 up, as shifting by no host bits leaves).
pub open spec fn netmask_of_prefix(prefix_length: nat) -> u32 {
    if prefix_length == 0 {
        0
    } else if prefix_length >= 32 {
        0xFFFF_FFFF
    } else {
        0xFFFF_FFFFu32 << ((32 - prefix_length) as u32)
    }
}

/// Whether `netmask` is contiguous: some run of leading ones, then only zeros.
pub open spec fn is_contiguous_netmask(netmask: u32) -> bool {
    exists|prefix_length: nat| prefix_length <= 32 && netmask_of_prefix(prefix_length) == netmask
}

/// The network address of `address` under `netmask`.
pub open spec fn network_address(address: u32, netmask: u32) -> u32 {
    address & netmask
}

/// The broadcast address of `address` under `netmask`.
pub open spec fn broadcast_address(address: u32, netmask: u32) -> u32 {
    (address & netmask) | !netmask
}

/// Whether `candidate` lies strictly between `network` and `broadcast`.
pub open spec fn strictly_inside(candidate: u32, network: u32, broadcast: u32) -> bool {
    network < candidate && candidate < broadcast
}

/// Distinct prefix lengths give distinct netmasks.
pub proof fn lemma_netmask_of_prefix_injective(first: nat, second: nat)
    requires
        first <= 32,
        second <= 32,
        netmask_of_prefix(first) == netmask_of_prefix(second),
    ensures
        first == second,
{
    if first != second {
        if 0 < first < 32 && 0 < second < 32 {
            let a = (32 - first) as u32;
            let b = (32 - second) as u32;
            assert(1 <= a <= 31 && 1 <= b <= 31 && a != b ==> 0xFFFF_FFFFu32 << a != 0xFFFF_FFFFu32
                << b) by (bit_vector);
        } else if 0 < first < 32 {
            let a = (32 - first) as u32;
            assert(1 <= a <= 31 ==> 0xFFFF_FFFFu32 << a != 0 && 0xFFFF_FFFFu32 << a != 0xFFFF_FFFF)
                by (bit_vector);
        } else if 0 < second < 32 {
            let b = (32 - second) as u32;
            assert(1 <= b <= 31 ==> 0xFFFF_FFFFu32 << b != 0 && 0xFFFF_FFFFu32 << b != 0xFFFF_FFFF)
                by (bit_vector);
        }
    }
}

/// The netmask whose `prefix_length` most significant bits are set; prefix lengths above 32 give
/// the all-ones mask.
pub fn contiguous_ipv4_netmask_from_prefix_length(prefix_length: u8) -> (netmask: u32)
    ensures
        netmask == netmask_of_prefix(prefix_length as nat),
{
    if prefix_length == 0 {
        0
    } else if prefix_length >= 32 {
        0xFFFF_FFFF
    } else {
        let host_bit_count: u32 = (32 - prefix_length) as u32;
        0xFFFF_FFFFu32 << host_bit_count
    }
}

/// Returns the prefix length for `netmask` when it is a contiguous classless inter-domain
/// routing netmask, or [`AppError::Ipv4NetmaskInvalid`] naming the netmask when it is not.
pub fn prefix_length_from_contiguous_netmask(netmask: u32) -> (prefix: Result<u8, AppError>)
    ensures
        match prefix {
            Ok(prefix_length) => prefix_length <= 32 && netmask_of_prefix(prefix_length as nat)
                == netmask,
            Err(error) => !is_contiguous_netmask(netmask) && (error matches AppError::Ipv4NetmaskInvalid {
                netmask: text,
            } && text@ == ipv4_text(netmask)),
        },
        is_contiguous_netmask(netmask) <==> prefix is Ok,
{
    let mut prefix_length: u8 = 0;
    while prefix_length <= 32
        invariant
            prefix_length <= 33,
            forall|p: nat| p < prefix_length ==> #[trigger] netmask_of_prefix(p) != netmask,
        decreases 33 - prefix_length,
    {
        if contiguous_ipv4_netmask_from_prefix_length(prefix_length) == netmask {
            return Ok(prefix_length);
        }
        prefix_length = prefix_length + 1;
    }
    proof {
        assert forall|p: nat| p <= 32 implies #[trigger] netmask_of_prefix(p) != netmask by {
            assert(p < prefix_length);
        }
    }
    Err(AppError::Ipv4NetmaskInvalid { netmask: ipv4_string(netmask) })
}

/// Reading a prefix length back from its netmask gives the prefix length.
pub proof fn lemma_prefix_length_of_netmask(prefix_length: nat, netmask: u32)
    requires
        prefix_length <= 32,
        netmask_of_prefix(prefix_length) == netmask,
    ensures
        forall|p: nat|
            p <= 32 && #[trigger] netmask_of_prefix(p) == netmask ==> p == prefix_length,
{
    assert forall|p: nat| p <= 32 && #[trigger] netmask_of_prefix(p) == netmask implies p
        == prefix_length by {
        lemma_netmask_of_prefix_injective(p, prefix_length);
    }
}

/// The message for a prefix length that leaves no room for interior hosts.
pub open spec fn unsupported_prefix_message(prefix_length: u8) -> Seq<char> {
    "IPv4 subnets with prefix length "@ + decimal_text(prefix_length as nat)
        + " are not supported for scanning"@
}

/// The interior host range of a subnet with prefix length at most 30.
proof fn lemma_interior_range(address: u32, prefix_length: nat)
    requires
        prefix_length <= 30,
    ensures
        ({
            let netmask = netmask_of_prefix(prefix_length);
            let network = network_address(address, netmask);
            let broadcast = broadcast_address(address, netmask);
            &&& network < u32::MAX
            &&& broadcast > 0
            &&& network + 1 <= broadcast - 1
            &&& network <= address <= broadcast
        }),
{
    let netmask = netmask_of_prefix(prefix_length);
    if prefix_length == 0 {
        assert(address & 0 == 0) by (bit_vector);
        assert(0u32 | !0u32 == 0xFFFF_FFFF) by (bit_vector);
    } else {
        let h = (32 - prefix_length) as u32;
        assert(2 <= h <= 31 ==> {
            let m = 0xFFFF_FFFFu32 << h;
            let n = address & m;
            let b = n | !m;
            &&& n <= address <= b
            &&& b - n >= 3
        }) by (bit_vector);
    }
}

/// Computes the first and last **host** IPv4 addresses (excluding network and broadcast) for the
/// subnet described by `interface_address` and `netmask`.
///
/// Returns [`AppError::Ipv4NetmaskInvalid`] when `netmask` is not contiguous and
/// [`AppError::Ipv4SubnetUnsupported`] when the prefix is `/31` or `/32`.
pub fn inclusive_host_address_range_excluding_edges(interface_address: u32, netmask: u32) -> (range:
    Result<(u32, u32), AppError>)
    ensures
        match range {
            Ok((first, last)) => {
                &&& exists|p: nat| p <= 30 && netmask_of_prefix(p) == netmask
                &&& first == network_address(interface_address, netmask) + 1
                &&& last == broadcast_address(interface_address, netmask) - 1
                &&& first <= last
            },
            Err(AppError::Ipv4NetmaskInvalid { netmask: text }) => !is_contiguous_netmask(netmask)
                && text@ == ipv4_text(netmask),
            Err(AppError::Ipv4SubnetUnsupported { message }) => exists|p: u8|
                31 <= p <= 32 && netmask_of_prefix(p as nat) == netmask && message@
                    == unsupported_prefix_message(p),
            Err(_) => false,
        },
{
    let prefix_length = match prefix_length_from_contiguous_netmask(netmask) {
        Ok(prefix_length) => prefix_length,
        Err(error) => {
            return Err(error);
        },
    };
    if prefix_length >= 31 {
        let mut message = String::new();
        push_text(&mut message, "IPv4 subnets with prefix length ");
        push_decimal(&mut message, prefix_length as u128);
        push_text(&mut message, " are not supported for scanning");
        assert(message@ =~= unsupported_prefix_message(prefix_length));
        return Err(AppError::Ipv4SubnetUnsupported { message });
    }
    proof {
        lemma_interior_range(interface_address, prefix_length as nat);
    }
    let network_bits = interface_address & netmask;
    let broadcast_bits = network_bits | !netmask;
    let first_host_bits = match network_bits.checked_add(1) {
        Some(first) => first,
        None => {
            return Err(
                AppError::Ipv4SubnetUnsupported {
                    message: String::from_str(
                        "subnet arithmetic overflow when computing first host address",
                    ),
                },
            );
        },
    };
    let last_host_bits = match broadcast_bits.checked_sub(1) {
        Some(last) => last,
        None => {
            return Err(
                AppError::Ipv4SubnetUnsupported {
                    message: String::from_str(
                        "subnet arithmetic overflow when computing last host address",
                    ),
                },
            );
        },
    };
    if first_host_bits > last_host_bits {
        return Err(
            AppError::Ipv4SubnetUnsupported {
                message: String::from_str(
                    "no usable host addresses exist between network and broadcast addresses",
                ),
            },
        );
    }
    Ok((first_host_bits, last_host_bits))
}

/// Returns `true` when `candidate` lies strictly between `network_bits` and `broadcast_bits`.
pub fn ipv4_address_is_strictly_inside_subnet(
    candidate: u32,
    network_bits: u32,
    broadcast_bits: u32,
) -> (inside: bool)
    ensures
        inside == strictly_inside(candidate, network_bits, broadcast_bits),
{
    candidate > network_bits && candidate < broadcast_bits
}


/// Why a single scan target that is not strictly interior is rejected.
pub open spec fn single_target_rejection_reason(target: u32, network: u32, broadcast: u32) -> Seq<
    char,
> {
    if target == network {
        "the address is the network address of the interface subnet"@
    } else if target == broadcast {
        "the address is the broadcast address of the interface subnet"@
    } else {
        "the address is not on the interface subnet"@
    }
}

/// Accepts `target_ipv4_address` as a single scan target only when it is a strictly interior
/// host address of the subnet of `source_ipv4_address` under `ipv4_netmask`.
///
/// Returns the errors of [`inclusive_host_address_range_excluding_edges`] for a subnet that
/// cannot be scanned, and [`AppError::SingleScanTargetRejected`] naming the interface, the target
/// and the reason for a network, broadcast or off-subnet target.
pub fn validate_strict_interior_scan_target_ipv4_address(
    interface_name: &str,
    target_ipv4_address: u32,
    source_ipv4_address: u32,
    ipv4_netmask: u32,
) -> (validation: Result<(), AppError>)
    ensures
        ({
            let network = network_address(source_ipv4_address, ipv4_netmask);
            let broadcast = broadcast_address(source_ipv4_address, ipv4_netmask);
            match validation {
                Ok(()) => (exists|p: nat| p <= 30 && netmask_of_prefix(p) == ipv4_netmask)
                    && strictly_inside(target_ipv4_address, network, broadcast),
                Err(AppError::SingleScanTargetRejected {
                    interface_name: name,
                    target_ipv4_address: target,
                    reason,
                }) => {
                    &&& exists|p: nat| p <= 30 && netmask_of_prefix(p) == ipv4_netmask
                    &&& !strictly_inside(target_ipv4_address, network, broadcast)
                    &&& name@ == interface_name@
                    &&& target@ == ipv4_text(target_ipv4_address)
                    &&& reason@ == single_target_rejection_reason(
                        target_ipv4_address,
                        network,
                        broadcast,
                    )
                },
                Err(AppError::Ipv4NetmaskInvalid { netmask: text }) => !is_contiguous_netmask(
                    ipv4_netmask,
                ) && text@ == ipv4_text(ipv4_netmask),
                Err(AppError::Ipv4SubnetUnsupported { message }) => exists|p: u8|
                    31 <= p <= 32 && netmask_of_prefix(p as nat) == ipv4_netmask && message@
                        == unsupported_prefix_message(p),
                Err(_) => false,
            }
        }),
{
    let (first_host_bits, last_host_bits) = match inclusive_host_address_range_excluding_edges(
        source_ipv4_address,
        ipv4_netmask,
    ) {
        Ok(range) => range,
        Err(error) => {
            return Err(error);
        },
    };
    if target_ipv4_address >= first_host_bits && target_ipv4_address <= last_host_bits {
        return Ok(());
    }
    let reason = if target_ipv4_address == first_host_bits - 1 {
        String::from_str("the address is the network address of the interface subnet")
    } else if target_ipv4_address == last_host_bits + 1 {
        String::from_str("the address is the broadcast address of the interface subnet")
    } else {
        String::from_str("the address is not on the interface subnet")
    };
    Err(
        AppError::SingleScanTargetRejected {
            interface_name: String::from_str(interface_name),
            target_ipv4_address: ipv4_string(target_ipv4_address),
            reason,
        },
    )
}

} // verus!
