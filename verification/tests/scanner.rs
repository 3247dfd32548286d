use std::collections::BTreeMap;
use std::num::NonZeroU64;
use std::time::Duration;

use new_arp_scan::mac_address::MacAddress;
use new_arp_scan::scanner::{
    inter_round_sleep_count_for_scan_schedule, ipv4_scan_target_address_sequence,
    ipv4_sender_is_probed_target, merge_address_resolution_reply_sender_into_discovered_hosts,
    poll_timeout_milliseconds_for_receive_wait, should_apply_pacing_after_scan_round,
    total_address_resolution_request_send_count, ArpReplyAcceptance,
};

fn ip(a: u8, b: u8, c: u8, d: u8) -> u32 {
    u32::from_be_bytes([a, b, c, d])
}

fn network_and_broadcast_slash_24() -> (u32, u32) {
    (ip(192, 168, 1, 0), ip(192, 168, 1, 255))
}

fn network_broadcast_slash_24() -> (u32, u32) {
    (ip(192, 168, 1, 0), ip(192, 168, 1, 255))
}

#[test]
fn maps_zero_duration_to_zero_milliseconds() {
    // Arrange
    let remaining = Duration::ZERO;

    // Act
    let outcome = poll_timeout_milliseconds_for_receive_wait(remaining.as_nanos());

    // Assert
    assert_eq!(
        outcome, 0,
        "zero remaining time should map to immediate poll timeout"
    );
}

#[test]
fn maps_small_duration_to_matching_milliseconds() {
    // Arrange
    let remaining = Duration::from_millis(1500);

    // Act
    let outcome = poll_timeout_milliseconds_for_receive_wait(remaining.as_nanos());

    // Assert
    assert_eq!(
        outcome, 1500,
        "poll timeout should match remaining milliseconds when it fits c_int"
    );
}

#[test]
fn clamps_duration_when_milliseconds_exceed_c_int_maximum() {
    // Arrange
    let remaining = Duration::from_millis(u64::from(libc::c_int::MAX as u32).saturating_add(1));

    // Act
    let outcome = poll_timeout_milliseconds_for_receive_wait(remaining.as_nanos());

    // Assert
    assert_eq!(
        outcome,
        libc::c_int::MAX,
        "oversized millisecond span should clamp to c_int::MAX for poll(2)"
    );
}

#[test]
fn maps_duration_when_milliseconds_equal_c_int_maximum_without_clamping() {
    // Arrange
    let remaining = Duration::from_millis(libc::c_int::MAX as u64);

    // Act
    let outcome = poll_timeout_milliseconds_for_receive_wait(remaining.as_nanos());

    // Assert
    assert_eq!(
        outcome,
        libc::c_int::MAX,
        "exactly representable maximum poll timeout should pass through unchanged"
    );
}

#[test]
fn appends_source_when_source_is_not_strictly_inside_open_host_interval() {
    // Arrange
    let (network_bits, broadcast_bits) = network_and_broadcast_slash_24();
    let source = ip(192, 168, 1, 0);
    let interior = [ip(192, 168, 1, 10)];

    // Act
    let targets = ipv4_scan_target_address_sequence(
        interior.to_vec(),
        source,
        network_bits,
        broadcast_bits,
    );

    // Assert
    assert_eq!(
        targets,
        vec![
            ip(192, 168, 1, 10),
            ip(192, 168, 1, 0),
        ],
        "interface address on the subnet boundary should be probed after interior hosts"
    );
}

#[test]
fn does_not_append_source_when_source_is_strictly_inside_open_host_interval() {
    // Arrange
    let (network_bits, broadcast_bits) = network_and_broadcast_slash_24();
    let source = ip(192, 168, 1, 50);
    let interior = [
        ip(192, 168, 1, 10),
        ip(192, 168, 1, 11),
    ];

    // Act
    let targets = ipv4_scan_target_address_sequence(
        interior.to_vec(),
        source,
        network_bits,
        broadcast_bits,
    );

    // Assert
    assert_eq!(
        targets,
        vec![
            ip(192, 168, 1, 10),
            ip(192, 168, 1, 11),
        ],
        "strictly interior interface address should not duplicate as trailing self-probe"
    );
}

#[test]
fn appends_broadcast_source_after_interior_hosts_when_broadcast_is_interface_address() {
    // Arrange
    let (network_bits, broadcast_bits) = network_and_broadcast_slash_24();
    let source = ip(192, 168, 1, 255);
    let interior = [ip(192, 168, 1, 10)];

    // Act
    let targets = ipv4_scan_target_address_sequence(
        interior.to_vec(),
        source,
        network_bits,
        broadcast_bits,
    );

    // Assert
    assert_eq!(
        targets,
        vec![
            ip(192, 168, 1, 10),
            ip(192, 168, 1, 255),
        ],
        "broadcast interface address should still receive a trailing self-probe"
    );
}

#[test]
fn yields_only_broadcast_source_when_interior_iterator_is_empty_and_source_is_broadcast() {
    // Arrange
    let (network_bits, broadcast_bits) = network_and_broadcast_slash_24();
    let source = ip(192, 168, 1, 255);

    // Act
    let targets = ipv4_scan_target_address_sequence(
        Vec::new(),
        source,
        network_bits,
        broadcast_bits,
    );

    // Assert
    assert_eq!(
        targets,
        vec![ip(192, 168, 1, 255)],
        "empty interior range with broadcast source should still probe that address once"
    );
}

#[test]
fn yields_empty_target_list_when_interior_iterator_is_empty_and_source_is_strictly_inside() {
    // Arrange
    let (network_bits, broadcast_bits) = network_and_broadcast_slash_24();
    let source = ip(192, 168, 1, 50);

    // Act
    let targets = ipv4_scan_target_address_sequence(
        Vec::new(),
        source,
        network_bits,
        broadcast_bits,
    );

    // Assert
    assert!(
        targets.is_empty(),
        "strictly interior source with no interior iterator should not add duplicate self row"
    );
}

#[test]
fn returns_true_when_more_rounds_remain_and_pacing_is_nonzero() {
    // Arrange
    let pacing = Duration::from_millis(5);

    // Act
    let outcome = should_apply_pacing_after_scan_round(0, 3, pacing.as_nanos());

    // Assert
    assert!(
        outcome,
        "pacing should apply between first and second round when pacing is nonzero"
    );
}

#[test]
fn returns_false_on_final_round_even_when_pacing_is_nonzero() {
    // Arrange
    let pacing = Duration::from_millis(5);

    // Act
    let outcome = should_apply_pacing_after_scan_round(2, 3, pacing.as_nanos());

    // Assert
    assert!(!outcome, "pacing must not run after the final round");
}

#[test]
fn returns_false_when_only_one_round_is_planned() {
    // Arrange
    let pacing = Duration::from_millis(5);

    // Act
    let outcome = should_apply_pacing_after_scan_round(0, 1, pacing.as_nanos());

    // Assert
    assert!(
        !outcome,
        "single-round scan should not sleep after the only round"
    );
}

#[test]
fn returns_false_when_pacing_duration_is_zero() {
    // Arrange
    let pacing = Duration::ZERO;

    // Act
    let outcome = should_apply_pacing_after_scan_round(0, 5, pacing.as_nanos());

    // Assert
    assert!(
        !outcome,
        "zero pacing should never schedule sleeps between rounds"
    );
}

#[test]
fn returns_false_when_total_rounds_is_zero_even_with_nonzero_pacing() {
    // Arrange
    let pacing = Duration::from_millis(1);

    // Act
    let outcome = should_apply_pacing_after_scan_round(0, 0, pacing.as_nanos());

    // Assert
    assert!(!outcome, "empty round plan must not schedule pacing sleeps");
}

#[test]
fn returns_true_for_middle_round_when_more_than_two_rounds_remain() {
    // Arrange
    let pacing = Duration::from_millis(1);

    // Act
    let outcome = should_apply_pacing_after_scan_round(1, 4, pacing.as_nanos());

    // Assert
    assert!(
        outcome,
        "middle rounds should still schedule pacing when more rounds follow"
    );
}

#[test]
fn total_send_count_is_zero_when_target_count_is_zero() {
    // Arrange
    let rounds = NonZeroU64::new(5).expect("five is non-zero");

    // Act
    let outcome = total_address_resolution_request_send_count(0, rounds.get());

    // Assert
    assert_eq!(
        outcome,
        Some(0),
        "empty target list should yield zero sends regardless of rounds"
    );
}

#[test]
fn total_send_count_multiplies_targets_by_rounds() {
    // Arrange
    let rounds = NonZeroU64::new(4).expect("four is non-zero");

    // Act
    let outcome = total_address_resolution_request_send_count(7, rounds.get());

    // Assert
    assert_eq!(
        outcome,
        Some(28),
        "seven targets across four rounds should schedule twenty-eight sends"
    );
}

#[test]
fn total_send_count_returns_none_when_product_overflows_u64() {
    // Arrange
    let rounds = NonZeroU64::new(u64::MAX).expect("maximum is non-zero");

    // Act
    let outcome = total_address_resolution_request_send_count(2, rounds.get());

    // Assert
    assert_eq!(
        outcome, None,
        "overflowing send count should surface as None instead of wrapping"
    );
}

#[test]
fn inter_round_sleep_count_matches_sum_of_pacing_gates_for_each_round_index() {
    // Arrange
    let pacing = Duration::from_nanos(1);

    for total_rounds in 0_u64..=6_u64 {
        // Act
        let expected = inter_round_sleep_count_for_scan_schedule(total_rounds, pacing.as_nanos());
        let summed = (0..total_rounds)
            .filter(|&round_index| {
                should_apply_pacing_after_scan_round(round_index, total_rounds, pacing.as_nanos())
            })
            .count() as u64;

        // Assert
        assert_eq!(
            summed, expected,
            "aggregated pacing gates should match closed-form count for total_rounds={total_rounds}"
        );
    }
}

#[test]
fn inter_round_sleep_count_is_zero_when_pacing_is_zero_even_with_many_rounds() {
    // Arrange
    let pacing = Duration::ZERO;

    // Act
    let outcome = inter_round_sleep_count_for_scan_schedule(50, pacing.as_nanos());

    // Assert
    assert_eq!(
        outcome, 0,
        "zero pacing should never schedule sleeps between rounds"
    );
}

#[test]
fn inserts_first_reply_for_each_ipv4_address() {
    // Arrange
    let mut map = BTreeMap::new();
    let mut warnings = Vec::new();
    let ip = ip(10, 0, 0, 5);
    let first_mac = MacAddress::from_octets([1, 2, 3, 4, 5, 6]);

    // Act
    merge_address_resolution_reply_sender_into_discovered_hosts(
        &mut map,
        ip,
        first_mac,
        &mut warnings,
    );

    // Assert
    assert_eq!(
        map.get(&ip).copied(),
        Some(first_mac),
        "first reply should populate the table"
    );
    assert!(
        warnings.is_empty(),
        "first insert should not warn, got: {warnings:?}"
    );
}

#[test]
fn ignores_identical_duplicate_replies_without_warning() {
    // Arrange
    let mut map = BTreeMap::new();
    let mut warnings = Vec::new();
    let ip = ip(10, 0, 0, 5);
    let mac = MacAddress::from_octets([1, 2, 3, 4, 5, 6]);

    // Act
    merge_address_resolution_reply_sender_into_discovered_hosts(
        &mut map,
        ip,
        mac,
        &mut warnings,
    );
    merge_address_resolution_reply_sender_into_discovered_hosts(
        &mut map,
        ip,
        mac,
        &mut warnings,
    );

    // Assert
    assert_eq!(map.get(&ip).copied(), Some(mac));
    assert!(
        warnings.is_empty(),
        "same media access control should not warn, got: {warnings:?}"
    );
}

#[test]
fn keeps_first_mac_and_emits_warning_for_each_conflicting_duplicate() {
    // Arrange
    let mut map = BTreeMap::new();
    let mut warnings = Vec::new();
    let ip = ip(10, 0, 0, 5);
    let first_mac = MacAddress::from_octets([1, 2, 3, 4, 5, 6]);
    let second_mac = MacAddress::from_octets([9, 8, 7, 6, 5, 4]);
    let third_mac = MacAddress::from_octets([0xAA; 6]);

    // Act
    merge_address_resolution_reply_sender_into_discovered_hosts(
        &mut map,
        ip,
        first_mac,
        &mut warnings,
    );
    merge_address_resolution_reply_sender_into_discovered_hosts(
        &mut map,
        ip,
        second_mac,
        &mut warnings,
    );
    merge_address_resolution_reply_sender_into_discovered_hosts(
        &mut map,
        ip,
        third_mac,
        &mut warnings,
    );

    // Assert
    assert_eq!(map.get(&ip).copied(), Some(first_mac));
    assert_eq!(
        warnings.len(),
        2,
        "each conflicting duplicate should warn once, got: {warnings:?}"
    );
    assert!(
        warnings[0].contains("conflicting") && warnings[0].contains("ignoring"),
        "warning should describe conflict, got: {}",
        warnings[0]
    );
}

#[test]
fn tracks_independent_ipv4_addresses_without_cross_talk() {
    // Arrange
    let mut map = BTreeMap::new();
    let mut warnings = Vec::new();
    let first_ip = ip(10, 0, 0, 2);
    let second_ip = ip(10, 0, 0, 3);
    let first_mac = MacAddress::from_octets([1, 1, 1, 1, 1, 1]);
    let second_mac = MacAddress::from_octets([2, 2, 2, 2, 2, 2]);

    // Act
    merge_address_resolution_reply_sender_into_discovered_hosts(
        &mut map,
        first_ip,
        first_mac,
        &mut warnings,
    );
    merge_address_resolution_reply_sender_into_discovered_hosts(
        &mut map,
        second_ip,
        second_mac,
        &mut warnings,
    );

    // Assert
    assert_eq!(
        map.len(),
        2,
        "two distinct IPv4 addresses should both be stored"
    );
    assert_eq!(map.get(&first_ip).copied(), Some(first_mac));
    assert_eq!(map.get(&second_ip).copied(), Some(second_mac));
    assert!(
        warnings.is_empty(),
        "independent first inserts should not warn, got: {warnings:?}"
    );
}

#[test]
fn emits_separate_warning_each_time_the_same_conflicting_media_access_control_address_returns()
{
    // Arrange
    let mut map = BTreeMap::new();
    let mut warnings = Vec::new();
    let ip = ip(10, 0, 0, 5);
    let first_mac = MacAddress::from_octets([1, 2, 3, 4, 5, 6]);
    let conflicting_mac = MacAddress::from_octets([9, 9, 9, 9, 9, 9]);

    // Act
    merge_address_resolution_reply_sender_into_discovered_hosts(
        &mut map,
        ip,
        first_mac,
        &mut warnings,
    );
    merge_address_resolution_reply_sender_into_discovered_hosts(
        &mut map,
        ip,
        conflicting_mac,
        &mut warnings,
    );
    merge_address_resolution_reply_sender_into_discovered_hosts(
        &mut map,
        ip,
        conflicting_mac,
        &mut warnings,
    );

    // Assert
    assert_eq!(map.get(&ip).copied(), Some(first_mac));
    assert_eq!(
        warnings.len(),
        2,
        "repeated identical conflicting sender should still warn each time, got: {warnings:?}"
    );
    for (index, warning) in warnings.iter().enumerate() {
        assert!(
            warning.contains("10.0.0.5")
                && warning.contains("01:02:03:04:05:06")
                && warning.contains("09:09:09:09:09:09"),
            "warning {index} should name the IPv4 and both media access control addresses, got: {warning}"
        );
    }
}

#[test]
fn treats_interface_source_address_as_in_scope_even_when_not_strictly_inside_open_interval() {
    // Arrange
    let (network_bits, broadcast_bits) = network_broadcast_slash_24();
    let source = ip(192, 168, 1, 1);

    // Act
    let outcome = ipv4_sender_is_probed_target(source, source, network_bits, broadcast_bits);

    // Assert
    assert!(
        outcome,
        "gateway-style interface address on the subnet edge should still count as in-scope"
    );
}

#[test]
fn interior_subnet_address_is_in_scope() {
    // Arrange
    let (network_bits, broadcast_bits) = network_broadcast_slash_24();
    let source = ip(192, 168, 1, 10);
    let sender = ip(192, 168, 1, 50);

    // Act
    let outcome = ipv4_sender_is_probed_target(sender, source, network_bits, broadcast_bits);

    // Assert
    assert!(
        outcome,
        "strictly interior host addresses should be accepted"
    );
}

#[test]
fn network_and_broadcast_addresses_are_out_of_scope_when_not_source() {
    // Arrange
    let (network_bits, broadcast_bits) = network_broadcast_slash_24();
    let source = ip(192, 168, 1, 10);
    let network = ip(192, 168, 1, 0);
    let broadcast = ip(192, 168, 1, 255);

    // Act
    let network_outcome =
        ipv4_sender_is_probed_target(network, source, network_bits, broadcast_bits);
    let broadcast_outcome =
        ipv4_sender_is_probed_target(broadcast, source, network_bits, broadcast_bits);

    // Assert
    assert!(
        !network_outcome,
        "network address should not match strict interior rule"
    );
    assert!(
        !broadcast_outcome,
        "broadcast address should not match strict interior rule"
    );
}

#[test]
fn address_outside_subnet_is_rejected_when_distinct_from_source() {
    // Arrange
    let (network_bits, broadcast_bits) = network_broadcast_slash_24();
    let source = ip(192, 168, 1, 10);
    let outsider = ip(10, 0, 0, 1);

    // Act
    let outcome = ipv4_sender_is_probed_target(outsider, source, network_bits, broadcast_bits);

    // Assert
    assert!(
        !outcome,
        "off-subnet senders should be ignored unless they equal the interface address"
    );
}

#[test]
fn exact_target_accepts_only_matching_sender() {
    // Arrange
    let target = ip(192, 168, 1, 50);
    let acceptance = ArpReplyAcceptance::ExactTarget {
        target_ipv4_address: target,
    };

    // Act
    let match_outcome = acceptance.accepts_sender_ipv4_address(target);
    let other_interior = acceptance.accepts_sender_ipv4_address(ip(192, 168, 1, 51));

    // Assert
    assert!(match_outcome, "exact target should accept matching sender");
    assert!(
        !other_interior,
        "different interior sender should be ignored in exact-target mode"
    );
}

#[test]
fn subnet_scope_matches_ipv4_sender_is_probed_target_rules() {
    // Arrange
    let network = ip(192, 168, 1, 0);
    let broadcast = ip(192, 168, 1, 255);
    let source = ip(192, 168, 1, 10);
    let acceptance = ArpReplyAcceptance::SubnetScope {
        source_ipv4_address: source,
        network_bits: network,
        broadcast_bits: broadcast,
    };

    // Act
    let interior = acceptance.accepts_sender_ipv4_address(ip(192, 168, 1, 20));

    // Assert
    assert!(
        interior,
        "subnet scope should accept interior senders like full scan"
    );
}

#[test]
fn subnet_scope_rejects_sender_outside_local_subnet_when_not_equal_to_source() {
    // Arrange
    let network = ip(192, 168, 1, 0);
    let broadcast = ip(192, 168, 1, 255);
    let source = ip(192, 168, 1, 10);
    let acceptance = ArpReplyAcceptance::SubnetScope {
        source_ipv4_address: source,
        network_bits: network,
        broadcast_bits: broadcast,
    };

    // Act
    let outsider = ip(10, 0, 0, 1);
    let outcome = acceptance.accepts_sender_ipv4_address(outsider);

    // Assert
    assert!(
        !outcome,
        "off-subnet sender should be rejected in subnet scope unless it equals the interface address"
    );
}


