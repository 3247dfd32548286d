
use new_arp_scan::error::AppError;
use new_arp_scan::ipv4_cidr::{Ipv4Cidr, Ipv4HostAddressIterator};

fn ip(a: u8, b: u8, c: u8, d: u8) -> u32 {
    u32::from_be_bytes([a, b, c, d])
}

fn drain_hosts(iterator: &mut Ipv4HostAddressIterator) -> Vec<u32> {
    let mut hosts = Vec::new();
    while let Some(host) = iterator.next() {
        hosts.push(host);
    }
    hosts
}

fn collect_hosts(mut iterator: Ipv4HostAddressIterator) -> Vec<u32> {
    drain_hosts(&mut iterator)
}

#[test]
fn slash_24_cidr_iterator_matches_subnet_helper_endpoints() {
    let address = ip(192, 168, 1, 10);
    let netmask = ip(255, 255, 255, 0);
    let cidr = Ipv4Cidr::try_from("192.168.1.10/24").expect("fixture CIDR should parse");

    let from_cidr = cidr
        .host_address_iterator()
        .expect("fixture /24 should yield a host iterator");
    let from_subnet =
        Ipv4HostAddressIterator::try_from_ipv4_address_on_subnet(address, netmask)
            .expect("fixture subnet should yield a host iterator");

    assert_eq!(
        from_cidr.size_hint(),
        from_subnet.size_hint(),
        "iterator length should match between CIDR and subnet construction"
    );
    assert!(
        collect_hosts(from_cidr) == collect_hosts(from_subnet),
        "CIDR-derived iterator should match subnet-derived iterator for the same /24"
    );
}

#[test]
fn slash_24_host_iterator_reports_size_hint_254_and_counts_without_vec_allocation() {
    let cidr = Ipv4Cidr::try_from("192.168.1.0/24").expect("fixture CIDR should parse");
    let iterator = cidr
        .host_address_iterator()
        .expect("fixture /24 should yield a host iterator");

    let (lower_bound, upper_bound) = iterator.size_hint();
    let counted = collect_hosts(iterator).len();

    assert_eq!(
        upper_bound,
        Some(254),
        "expected 254 usable hosts in /24 size hint upper bound"
    );
    assert_eq!(
        lower_bound, 254,
        "expected 254 usable hosts in /24 size hint lower bound"
    );
    assert_eq!(counted, 254, "count should match size hint");
}

#[test]
fn slash_30_iterator_yields_two_hosts_matching_size_hint() {
    let cidr = Ipv4Cidr::try_from("192.168.1.4/30").expect("fixture CIDR should parse");
    let iterator = cidr
        .host_address_iterator()
        .expect("fixture /30 should yield a host iterator");

    let (lower_bound, upper_bound) = iterator.size_hint();
    let collected: Vec<u32> = collect_hosts(iterator);

    assert_eq!(upper_bound, Some(2), "/30 should expose two interior hosts");
    assert_eq!(lower_bound, 2, "/30 size hint lower bound should match");
    assert_eq!(
        collected,
        vec![ip(192, 168, 1, 5), ip(192, 168, 1, 6),]
    );
}

#[test]
fn try_from_returns_error_when_input_is_empty_after_trim() {
    let input = "   ";

    let outcome = Ipv4Cidr::try_from(input);

    assert!(
        matches!(outcome, Err(AppError::Ipv4CidrStringInvalid { .. })),
        "whitespace-only input should be rejected, got: {outcome:?}"
    );
}

#[test]
fn try_from_returns_error_when_slash_is_missing() {
    let input = "192.168.1.1";

    let outcome = Ipv4Cidr::try_from(input);

    assert!(
        matches!(outcome, Err(AppError::Ipv4CidrStringInvalid { .. })),
        "missing slash should be rejected, got: {outcome:?}"
    );
}

#[test]
fn try_from_returns_error_when_prefix_is_not_decimal() {
    let input = "192.168.1.0/2a";

    let outcome = Ipv4Cidr::try_from(input);

    assert!(
        matches!(outcome, Err(AppError::Ipv4CidrStringInvalid { .. })),
        "non-decimal prefix should be rejected, got: {outcome:?}"
    );
}

#[test]
fn try_from_returns_error_when_prefix_exceeds_32() {
    let input = "10.0.0.0/33";

    let outcome = Ipv4Cidr::try_from(input);

    assert!(
        matches!(outcome, Err(AppError::Ipv4CidrStringInvalid { .. })),
        "prefix above 32 should be rejected, got: {outcome:?}"
    );
}

#[test]
fn try_from_returns_error_when_extra_slash_segments_exist() {
    let input = "10.0.0.0/8/extra";

    let outcome = Ipv4Cidr::try_from(input);

    assert!(
        matches!(outcome, Err(AppError::Ipv4CidrStringInvalid { .. })),
        "extra slash segments should be rejected, got: {outcome:?}"
    );
}

#[test]
fn from_str_matches_try_from() {
    let text = "192.0.2.0/24";

    let from_trait = Ipv4Cidr::from_str(text);
    let from_try = Ipv4Cidr::try_from(text);

    assert_eq!(
        from_trait.expect("FromStr should parse fixture"),
        from_try.expect("TryFrom should parse fixture"),
        "FromStr and TryFrom should agree"
    );
}

#[test]
fn slash_31_cidr_host_iterator_returns_subnet_unsupported() {
    let cidr = Ipv4Cidr::try_from("192.0.2.0/31").expect("fixture CIDR should parse");

    let outcome = cidr.host_address_iterator();

    assert!(
        matches!(outcome, Err(AppError::Ipv4SubnetUnsupported { .. })),
        "/31 expansion should be unsupported, got: {outcome:?}"
    );
}

#[test]
fn slash_32_cidr_host_iterator_returns_subnet_unsupported() {
    let cidr = Ipv4Cidr::try_from("192.0.2.1/32").expect("fixture CIDR should parse");

    let outcome = cidr.host_address_iterator();

    assert!(
        matches!(outcome, Err(AppError::Ipv4SubnetUnsupported { .. })),
        "/32 expansion should be unsupported, got: {outcome:?}"
    );
}

#[test]
fn size_hint_returns_unknown_when_interior_span_does_not_fit_usize() {
    let iterator = Ipv4HostAddressIterator::from_inclusive_host_range(0, u32::MAX);

    let hint = iterator.size_hint();

    let expected = match usize::try_from(1u64 << 32) {
        Ok(count) => (count, Some(count)),
        Err(_) => (0, None),
    };
    assert_eq!(
        hint,
        expected,
        "when the span does not fit `usize`, the upper bound must be unknown"
    );
}

#[test]
fn interior_space_in_address_part_is_rejected() {
    let input = "192.168. 1.1/24";

    let outcome = Ipv4Cidr::try_from(input);

    assert!(
        matches!(outcome, Err(AppError::Ipv4CidrStringInvalid { .. })),
        "interior space inside the IPv4 address should be rejected, got: {outcome:?}"
    );
}

#[test]
fn try_from_accepts_outer_ascii_whitespace_including_tabs_and_newlines() {
    let input = "\t192.168.0.1/16\n";

    let outcome = Ipv4Cidr::try_from(input);

    let parsed = outcome.expect("tab and newline padding should parse");
    assert_eq!(parsed.prefix_length, 16, "expected /16 prefix length");
    assert_eq!(parsed.ipv4_address, ip(192, 168, 0, 1));
}

#[test]
fn try_from_returns_error_when_address_segment_before_slash_is_empty() {
    let input = "/24";

    let outcome = Ipv4Cidr::try_from(input);

    assert!(
        matches!(outcome, Err(AppError::Ipv4CidrStringInvalid { .. })),
        "empty address segment should be rejected, got: {outcome:?}"
    );
}

#[test]
fn try_from_returns_error_when_prefix_segment_after_slash_is_empty() {
    let input = "192.168.1.1/";

    let outcome = Ipv4Cidr::try_from(input);

    assert!(
        matches!(outcome, Err(AppError::Ipv4CidrStringInvalid { .. })),
        "empty prefix segment should be rejected, got: {outcome:?}"
    );
}

#[test]
fn try_from_returns_error_when_prefix_contains_interior_ascii_whitespace() {
    let input = "192.168.1.1/2 4";

    let outcome = Ipv4Cidr::try_from(input);

    assert!(
        matches!(outcome, Err(AppError::Ipv4CidrStringInvalid { .. })),
        "interior whitespace inside the prefix should be rejected, got: {outcome:?}"
    );
}

#[test]
fn try_from_accepts_decimal_prefix_with_leading_zeros() {
    let input = "192.168.1.10/024";

    let outcome = Ipv4Cidr::try_from(input);

    let parsed = outcome.expect("leading zeros on decimal prefix should parse");
    assert_eq!(parsed.prefix_length, 24);
}

#[test]
fn try_from_returns_error_when_prefix_decimal_overflows_u32() {
    let input = "1.1.1.1/999999999999999999999999999999999999999999999999999999999999";

    let outcome = Ipv4Cidr::try_from(input);

    let error = outcome.expect_err("overlong decimal prefix should not parse as u32");
    let displayed = error.to_string();
    assert!(
        displayed.contains("not a valid decimal number"),
        "display should mention invalid decimal prefix, got: {displayed}"
    );
}

#[test]
fn try_from_returns_error_when_prefix_decimal_parse_succeeds_but_exceeds_slash_32() {
    let input = "1.1.1.1/4294967295";

    let outcome = Ipv4Cidr::try_from(input);

    let error = outcome.expect_err("prefix above 32 should be rejected even when it parses");
    let displayed = error.to_string();
    assert!(
        displayed.contains("greater than 32"),
        "display should explain the slash 32 upper bound, got: {displayed}"
    );
}

#[test]
fn try_from_returns_error_when_prefix_contains_non_ascii_decimal_digit() {
    let input = "192.168.1.1/２4";

    let outcome = Ipv4Cidr::try_from(input);

    assert!(
        matches!(outcome, Err(AppError::Ipv4CidrStringInvalid { .. })),
        "fullwidth digits must not be accepted as prefix, got: {outcome:?}"
    );
}

#[test]
fn slash_25_host_iterator_counts_126_interior_hosts() {
    let cidr = Ipv4Cidr::try_from("192.168.0.0/25").expect("fixture CIDR should parse");
    let iterator = cidr
        .host_address_iterator()
        .expect("fixture /25 should yield a host iterator");

    let counted = collect_hosts(iterator).len();

    assert_eq!(counted, 126, "/25 should expose 126 interior hosts");
}

#[test]
fn slash_16_host_iterator_counts_65534_interior_hosts() {
    let cidr = Ipv4Cidr::try_from("10.0.0.0/16").expect("fixture CIDR should parse");
    let iterator = cidr
        .host_address_iterator()
        .expect("fixture /16 should yield a host iterator");

    let counted = collect_hosts(iterator).len();

    assert_eq!(
        counted, 65534,
        "/16 should expose 2^16 minus two reserved addresses"
    );
}

#[test]
fn slash_zero_iterator_starts_at_first_usable_host_without_counting_entire_space() {
    let cidr = Ipv4Cidr::try_from("0.0.0.0/0").expect("fixture CIDR should parse");
    let mut iterator = cidr
        .host_address_iterator()
        .expect("fixture /0 should yield a host iterator");

    let first = iterator.next();

    assert_eq!(
        first,
        Some(ip(0, 0, 0, 1)),
        "first interior host of default-free /0 should be 0.0.0.1"
    );
}

#[test]
fn exhausted_host_iterator_returns_none_repeatedly_and_reports_zero_size_hint() {
    let cidr = Ipv4Cidr::try_from("192.168.1.4/30").expect("fixture CIDR should parse");
    let mut iterator = cidr
        .host_address_iterator()
        .expect("fixture /30 should yield a host iterator");

    let _ = drain_hosts(&mut iterator).len();
    let first_after = iterator.next();
    let second_after = iterator.next();
    let hint_after = iterator.size_hint();

    assert!(
        first_after.is_none() && second_after.is_none(),
        "iterator should stay exhausted after draining, got: {first_after:?} then {second_after:?}"
    );
    assert_eq!(
        hint_after,
        (0, Some(0)),
        "exhausted iterator should report exact zero size hint, got: {hint_after:?}"
    );
}

#[test]
fn cloned_host_iterator_preserves_remaining_sequence() {
    let cidr = Ipv4Cidr::try_from("192.168.1.0/29").expect("fixture CIDR should parse");
    let mut iterator = cidr
        .host_address_iterator()
        .expect("fixture /29 should yield a host iterator");
    let _ = iterator.next();

    let mut clone = iterator.clone();
    let remaining_from_clone: Vec<u32> = drain_hosts(&mut clone);
    let remaining_from_source: Vec<u32> = collect_hosts(iterator);

    assert_eq!(
        remaining_from_clone, remaining_from_source,
        "clone should match the remaining tail of the source iterator"
    );
}

#[test]
fn try_from_ipv4_address_on_subnet_returns_netmask_invalid_for_non_contiguous_netmask() {
    let ipv4_address = ip(192, 168, 1, 1);
    let invalid_netmask = ip(255, 0, 255, 0);

    let outcome =
        Ipv4HostAddressIterator::try_from_ipv4_address_on_subnet(ipv4_address, invalid_netmask);

    assert!(
        matches!(outcome, Err(AppError::Ipv4NetmaskInvalid { .. })),
        "non-contiguous netmask should surface netmask invalid, got: {outcome:?}"
    );
}

#[test]
fn try_from_returns_error_when_prefix_greater_than_32_message_is_actionable() {
    let input = "10.0.0.0/33";

    let outcome = Ipv4Cidr::try_from(input);

    let error = outcome.expect_err("prefix 33 should be rejected");
    let displayed = error.to_string();
    assert!(
        displayed.contains("33") && displayed.contains("32"),
        "operator-facing text should name the bad prefix and the upper bound, got: {displayed}"
    );
}

#[test]
fn try_from_returns_error_when_input_is_empty_string() {
    let input = "";

    let outcome = Ipv4Cidr::try_from(input);

    assert!(
        matches!(
            outcome,
            Err(AppError::Ipv4CidrStringInvalid { ref source, ref message })
                if source.is_empty() && message.contains("empty")
        ),
        "expected empty input to yield Ipv4CidrStringInvalid, got: {outcome:?}"
    );
}



#[test]
fn cidr_parse_error_names_the_input_and_reason() {
    let error = Ipv4Cidr::try_from("10.0.0.0/33").expect_err("prefix 33");
    assert_eq!(
        error.to_string(),
        "invalid IPv4 classless inter-domain routing notation `10.0.0.0/33`: prefix length 33 is greater than 32"
    );
    let address_error = Ipv4Cidr::try_from("300.0.0.0/8").expect_err("bad address");
    assert!(matches!(address_error, AppError::Ipv4CidrStringInvalid { .. }));
}

#[test]
fn slash_8_iterator_starts_after_network_and_stops_before_broadcast() {
    let cidr = Ipv4Cidr::try_from("10.1.2.3/8").expect("fixture CIDR should parse");
    assert_eq!(cidr.ipv4_address, ip(10, 1, 2, 3));
    let mut iterator = cidr.host_address_iterator().expect("/8 has hosts");
    assert_eq!(iterator.size_hint(), (16_777_214, Some(16_777_214)));
    assert_eq!(iterator.next(), Some(ip(10, 0, 0, 1)));
    let tail = Ipv4HostAddressIterator::from_inclusive_host_range(ip(10, 255, 255, 253), ip(10, 255, 255, 254));
    assert_eq!(collect_hosts(tail), vec![ip(10, 255, 255, 253), ip(10, 255, 255, 254)]);
}
