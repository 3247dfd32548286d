use new_arp_scan::ethernet_frame::{
    encode_ethernet_ii_frame, encode_ethernet_ii_frame_with_optional_ieee_8021q_tag,
    encode_ieee_8023_rfc_1042_llc_snap_frame, try_parse_ethernet_frame, EthernetFraming,
    Ieee8021qPriorityCodePoint, Ieee8021qTagControlInformation, Ieee8021qTagStack,
    Ieee8021qVlanIdentifier, ETHERNET_II_HEADER_LENGTH, ETHERNET_PROTOCOL_ARP,
    ETHERNET_PROTOCOL_IPV4, ETHERNET_PROTOCOL_VLAN_TAG, ETHERNET_PROTOCOL_VLAN_TAG_QINQ_9100,
    ETHERNET_PROTOCOL_VLAN_TAG_QINQ_9200, ETHERNET_PROTOCOL_VLAN_TAG_QINQ_9300,
    ETHERNET_PROTOCOL_VLAN_TAG_SERVICE, IEEE_8021Q_TAG_LENGTH, IEEE_8023_LLC_SNAP_HEADER_LENGTH,
    IEEE_8023_MAXIMUM_LENGTH, MINIMUM_ETHERNET_II_ETHERTYPE,
};
use new_arp_scan::mac_address::MacAddress;

#[test]
fn vlan_identifier_new_accepts_twelve_bit_range_and_rejects_4096() {
    // Arrange
    // Act
    let zero = Ieee8021qVlanIdentifier::new(0);
    let maximum = Ieee8021qVlanIdentifier::new(Ieee8021qVlanIdentifier::MAXIMUM);
    let too_large = Ieee8021qVlanIdentifier::new(4096);

    // Assert
    assert_eq!(zero.map(Ieee8021qVlanIdentifier::as_u16), Some(0));
    assert_eq!(
        maximum.map(Ieee8021qVlanIdentifier::as_u16),
        Some(0x0FFF),
        "4095 is a legal 12-bit VLAN identifier"
    );
    assert!(
        too_large.is_none(),
        "4096 is outside the IEEE 802.1Q 12-bit VID field"
    );
}

#[test]
fn tag_control_information_encodes_pcp_dei_and_vid() {
    // Arrange
    let vlan_identifier = Ieee8021qVlanIdentifier::new(0x044).expect("VID fits in 12 bits");
    let priority = Ieee8021qPriorityCodePoint::new(7).expect("PCP 7 fits in 3 bits");
    let tag = Ieee8021qTagControlInformation::new(priority, true, vlan_identifier);

    // Act
    let tci = tag.as_u16();
    let vid_only =
        Ieee8021qTagControlInformation::from_vlan_identifier(vlan_identifier).as_u16();

    // Assert
    assert_eq!(
        tci, 0xF044,
        "PCP 7, DEI 1, VID 0x044 should encode as TCI 0xF044"
    );
    assert_eq!(
        vid_only, 0x0044,
        "VID-only TCI should leave PCP and DEI zero"
    );
    assert_eq!(
        Ieee8021qTagControlInformation::from_tag_control_information(tci),
        tag,
        "TCI 0xF044 should decode back to PCP 7, DEI 1, VID 0x044"
    );
    assert!(
        Ieee8021qPriorityCodePoint::new(8).is_none(),
        "PCP 8 is outside the 3-bit field"
    );
}

#[test]
fn encode_with_vlan_inserts_tpid_tci_and_inner_ether_type() {
    // Arrange
    let destination = MacAddress::broadcast();
    let source = MacAddress::from_octets([2, 0, 0, 0, 0, 1]);
    let vlan_identifier = Ieee8021qVlanIdentifier::new(10).expect("VID 10 fits in 12 bits");
    let payload = [0xAAu8, 0xBB];

    // Act
    let frame = encode_ethernet_ii_frame_with_optional_ieee_8021q_tag(
        destination,
        source,
        Some(Ieee8021qTagStack::Customer(
            Ieee8021qTagControlInformation::from_vlan_identifier(vlan_identifier),
        )),
        ETHERNET_PROTOCOL_ARP,
        &payload,
    );

    // Assert
    assert_eq!(
        frame.len(),
        ETHERNET_II_HEADER_LENGTH + IEEE_8021Q_TAG_LENGTH + payload.len(),
        "tagged encoder must not add padding"
    );
    assert_eq!(&frame[12..14], &ETHERNET_PROTOCOL_VLAN_TAG.to_be_bytes());
    assert_eq!(&frame[14..16], &10u16.to_be_bytes());
    assert_eq!(&frame[16..18], &ETHERNET_PROTOCOL_ARP.to_be_bytes());
    assert_eq!(&frame[18..], payload.as_slice());
    let parsed = try_parse_ethernet_frame(&frame).expect("tagged encoding should parse");
    assert_eq!(parsed.vlan_identifier, Some(10));
    assert_eq!(
        parsed.vlan_tag.map(Ieee8021qTagControlInformation::as_u16),
        Some(10)
    );
    assert_eq!(parsed.ether_type, ETHERNET_PROTOCOL_ARP);
    assert_eq!(parsed.payload, payload.as_slice());
}

#[test]
fn encode_rfc_1042_llc_snap_uses_ieee_8023_length_and_round_trips() {
    // Arrange
    let destination = MacAddress::broadcast();
    let source = MacAddress::from_octets([2, 0, 0, 0, 0, 1]);
    let payload = [0xAAu8, 0xBB];
    let expected_length =
        u16::try_from(IEEE_8023_LLC_SNAP_HEADER_LENGTH + payload.len()).expect("fits u16");

    // Act
    let frame = encode_ieee_8023_rfc_1042_llc_snap_frame(
        destination,
        source,
        None,
        ETHERNET_PROTOCOL_ARP,
        &payload,
    );

    // Assert
    assert_eq!(&frame[12..14], &expected_length.to_be_bytes());
    assert_eq!(&frame[14..17], &[0xAA, 0xAA, 0x03]);
    assert_eq!(&frame[17..20], &[0, 0, 0]);
    assert_eq!(&frame[20..22], &ETHERNET_PROTOCOL_ARP.to_be_bytes());
    let parsed = try_parse_ethernet_frame(&frame).expect("RFC 1042 SNAP encoding should parse");
    assert_eq!(parsed.framing, EthernetFraming::Ieee8023LlcSnap);
    assert_eq!(parsed.ether_type, ETHERNET_PROTOCOL_ARP);
    assert_eq!(parsed.vlan_identifier, None);
    assert_eq!(parsed.vlan_tag, None);
    assert_eq!(parsed.payload, payload.as_slice());
}

#[test]
fn encode_rfc_1042_llc_snap_with_vlan_places_length_after_tci() {
    // Arrange
    let destination = MacAddress::broadcast();
    let source = MacAddress::from_octets([2, 0, 0, 0, 0, 1]);
    let payload = [0xAAu8, 0xBB];
    let vlan_identifier = Ieee8021qVlanIdentifier::new(10).expect("VID 10 fits in 12 bits");
    let expected_length =
        u16::try_from(IEEE_8023_LLC_SNAP_HEADER_LENGTH + payload.len()).expect("fits u16");

    // Act
    let frame = encode_ieee_8023_rfc_1042_llc_snap_frame(
        destination,
        source,
        Some(Ieee8021qTagStack::Customer(
            Ieee8021qTagControlInformation::from_vlan_identifier(vlan_identifier),
        )),
        ETHERNET_PROTOCOL_ARP,
        &payload,
    );

    // Assert
    assert_eq!(&frame[12..14], &ETHERNET_PROTOCOL_VLAN_TAG.to_be_bytes());
    assert_eq!(&frame[14..16], &10u16.to_be_bytes());
    assert_eq!(&frame[16..18], &expected_length.to_be_bytes());
    assert_eq!(&frame[18..21], &[0xAA, 0xAA, 0x03]);
    let parsed = try_parse_ethernet_frame(&frame).expect("tagged SNAP encoding should parse");
    assert_eq!(parsed.framing, EthernetFraming::Ieee8023LlcSnap);
    assert_eq!(parsed.vlan_identifier, Some(10));
    assert_eq!(parsed.ether_type, ETHERNET_PROTOCOL_ARP);
    assert_eq!(parsed.payload, payload.as_slice());
    let vlan_tag = parsed.vlan_tag.expect("tagged SNAP should expose TCI");
    assert_eq!(
        vlan_tag.priority_code_point,
        Ieee8021qPriorityCodePoint::zero()
    );
    assert!(!vlan_tag.drop_eligible_indicator);
}

#[test]
fn encode_produces_exact_header_plus_payload_length() {
    // Arrange
    let destination = MacAddress::broadcast();
    let source = MacAddress::from_octets([2, 0, 0, 0, 0, 1]);
    let payload = [1u8, 2, 3];

    // Act
    let frame = encode_ethernet_ii_frame(destination, source, ETHERNET_PROTOCOL_ARP, &payload);

    // Assert
    assert_eq!(
        frame.len(),
        ETHERNET_II_HEADER_LENGTH + payload.len(),
        "encoder must not add padding"
    );
}

#[test]
fn encode_places_destination_source_and_ether_type_in_network_order() {
    // Arrange
    let destination = MacAddress::from_octets([1, 2, 3, 4, 5, 6]);
    let source = MacAddress::from_octets([0x0A, 0x0B, 0x0C, 0x0D, 0x0E, 0x0F]);
    let payload: [u8; 0] = [];

    // Act
    let frame = encode_ethernet_ii_frame(destination, source, ETHERNET_PROTOCOL_IPV4, &payload);

    // Assert
    assert_eq!(&frame[0..6], &destination.octets());
    assert_eq!(&frame[6..12], &source.octets());
    assert_eq!(&frame[12..14], &[0x08, 0x00]);
    assert!(
        frame[14..].is_empty(),
        "empty payload should yield empty tail"
    );
}

#[test]
fn parse_round_trips_encoded_frame() {
    // Arrange
    let destination = MacAddress::broadcast();
    let source = MacAddress::from_octets([9, 8, 7, 6, 5, 4]);
    let payload = [0xDE, 0xAD];
    let wire = encode_ethernet_ii_frame(destination, source, ETHERNET_PROTOCOL_ARP, &payload);

    // Act
    let parsed = try_parse_ethernet_frame(&wire).expect("encoded frame should parse");

    // Assert
    assert_eq!(parsed.destination, destination);
    assert_eq!(parsed.source, source);
    assert_eq!(parsed.ether_type, ETHERNET_PROTOCOL_ARP);
    assert_eq!(parsed.vlan_identifier, None);
    assert_eq!(parsed.vlan_tag, None);
    assert_eq!(parsed.framing, EthernetFraming::EthernetIi);
    assert_eq!(parsed.payload, payload.as_slice());
}

#[test]
fn parse_rejects_undersized_frame() {
    // Arrange
    let frame = [0u8; 10];

    // Act
    let outcome = try_parse_ethernet_frame(&frame);

    // Assert
    assert_eq!(
        outcome.expect_err("short frame should fail"),
        "frame is shorter than Ethernet II header"
    );
}

#[test]
fn parse_decodes_ieee_8021q_tagged_ethernet_ii_arp() {
    // Arrange
    let destination = MacAddress::broadcast();
    let source = MacAddress::from_octets([1, 2, 3, 4, 5, 6]);
    let payload = [0x08, 0x06, 0xAA];
    let tagged = encode_ethernet_ii_frame(
        destination,
        source,
        ETHERNET_PROTOCOL_VLAN_TAG,
        &[0x20, 0x0A, payload[0], payload[1], payload[2]],
    );

    // Act
    let parsed = try_parse_ethernet_frame(&tagged).expect("single 802.1Q tag should parse");

    // Assert
    assert_eq!(parsed.vlan_identifier, Some(0x00A));
    assert_eq!(parsed.ether_type, ETHERNET_PROTOCOL_ARP);
    assert_eq!(parsed.framing, EthernetFraming::EthernetIi);
    assert_eq!(parsed.payload, &[0xAA]);
    assert_eq!(parsed.destination, destination);
    assert_eq!(parsed.source, source);
    let vlan_tag = parsed
        .vlan_tag
        .expect("single 802.1Q tag should expose TCI");
    assert_eq!(vlan_tag.priority_code_point.as_u8(), 1);
    assert!(!vlan_tag.drop_eligible_indicator);
    assert_eq!(vlan_tag.vlan_identifier.as_u16(), 0x00A);
}

#[test]
fn parse_decodes_ieee_8021q_priority_code_point_and_drop_eligible_indicator() {
    // Arrange
    let destination = MacAddress::broadcast();
    let source = MacAddress::from_octets([1, 2, 3, 4, 5, 6]);
    let tci: u16 = 0xF044;
    let mut payload = Vec::from(tci.to_be_bytes());
    payload.extend_from_slice(&ETHERNET_PROTOCOL_ARP.to_be_bytes());
    payload.push(0x99);
    let frame =
        encode_ethernet_ii_frame(destination, source, ETHERNET_PROTOCOL_VLAN_TAG, &payload);

    // Act
    let parsed = try_parse_ethernet_frame(&frame).expect("802.1Q frame should parse");

    // Assert
    assert_eq!(parsed.vlan_identifier, Some(0x044));
    let vlan_tag = parsed
        .vlan_tag
        .expect("tagged frame should expose Tag Control Information");
    assert_eq!(vlan_tag.priority_code_point.as_u8(), 7);
    assert!(vlan_tag.drop_eligible_indicator);
    assert_eq!(vlan_tag.vlan_identifier.as_u16(), 0x044);
    assert_eq!(vlan_tag.as_u16(), 0xF044);
    assert_eq!(parsed.ether_type, ETHERNET_PROTOCOL_ARP);
    assert_eq!(parsed.payload, &[0x99]);
}

#[test]
fn parse_rejects_service_tag_that_is_not_followed_by_a_customer_tag() {
    // Arrange: 0x88A8, a service TCI, then ARP directly instead of a 0x8100 customer tag.
    let destination = MacAddress::broadcast();
    let source = MacAddress::from_octets([1, 2, 3, 4, 5, 6]);
    let inner = [0x00, 0x01, 0x08, 0x06];
    let wire = encode_ethernet_ii_frame(
        destination,
        source,
        ETHERNET_PROTOCOL_VLAN_TAG_SERVICE,
        &inner,
    );

    // Act
    let outcome = try_parse_ethernet_frame(&wire);

    // Assert
    assert_eq!(
        outcome.expect_err("a lone service tag should be rejected"),
        "IEEE 802.1Q service tag is not followed by an IEEE 802.1Q customer tag",
        "an S-TAG without its C-TAG must not be read as untagged ARP"
    );
}

#[test]
fn parse_rejects_stacked_ieee_8021q_tags() {
    // Arrange
    let destination = MacAddress::broadcast();
    let source = MacAddress::from_octets([1, 2, 3, 4, 5, 6]);
    let inner = [0x00, 0x01, 0x81, 0x00, 0x00, 0x02, 0x08, 0x06];
    let wire =
        encode_ethernet_ii_frame(destination, source, ETHERNET_PROTOCOL_VLAN_TAG, &inner);

    // Act
    let outcome = try_parse_ethernet_frame(&wire);

    // Assert
    assert_eq!(
        outcome.expect_err("two stacked customer tags should be rejected"),
        "Ethernet frame stacks a VLAN tag inside an IEEE 802.1Q customer tag; only 0x88A8 may wrap 0x8100",
        "0x8100 inside 0x8100 is vendor QinQ, not the IEEE S-TAG/C-TAG pair"
    );
}

#[test]
fn parse_rejects_ieee_8023_length_that_is_not_llc_snap() {
    // Arrange
    let destination = MacAddress::broadcast();
    let source = MacAddress::from_octets([1, 2, 3, 4, 5, 6]);
    let payload = [0xE0, 0xE0, 0x03, 0x00, 0x00, 0x00, 0x00, 0x00];
    let wire =
        encode_ethernet_ii_frame(destination, source, IEEE_8023_MAXIMUM_LENGTH, &payload);

    // Act
    let outcome = try_parse_ethernet_frame(&wire);

    // Assert
    assert_eq!(
        outcome.expect_err("non-SNAP 802.3 should fail"),
        "IEEE 802.3 frame is not RFC 1042 LLC/SNAP"
    );
}

#[test]
fn parse_accepts_rfc_1042_llc_snap_arp() {
    // Arrange
    let destination = MacAddress::broadcast();
    let source = MacAddress::from_octets([1, 2, 3, 4, 5, 6]);
    let mut payload = vec![0xAA, 0xAA, 0x03, 0x00, 0x00, 0x00, 0x08, 0x06];
    payload.extend_from_slice(&[0x11, 0x22]);
    let wire = encode_ethernet_ii_frame(destination, source, 46, &payload);

    // Act
    let parsed = try_parse_ethernet_frame(&wire).expect("RFC 1042 SNAP ARP should parse");

    // Assert
    assert_eq!(parsed.ether_type, ETHERNET_PROTOCOL_ARP);
    assert_eq!(parsed.framing, EthernetFraming::Ieee8023LlcSnap);
    assert_eq!(parsed.vlan_identifier, None);
    assert_eq!(parsed.vlan_tag, None);
    assert_eq!(parsed.payload, &[0x11, 0x22]);
}

#[test]
fn parse_rejects_length_type_gap_between_8023_and_ethertype() {
    // Arrange
    let destination = MacAddress::broadcast();
    let source = MacAddress::from_octets([1, 2, 3, 4, 5, 6]);
    let gap_value = IEEE_8023_MAXIMUM_LENGTH + 1;
    assert!(
        gap_value < MINIMUM_ETHERNET_II_ETHERTYPE,
        "fixture must sit in the undefined gap"
    );
    let wire = encode_ethernet_ii_frame(destination, source, gap_value, &[]);

    // Act
    let outcome = try_parse_ethernet_frame(&wire);

    // Assert
    assert_eq!(
        outcome.expect_err("undefined length/type gap should fail"),
        "length/type field is neither an IEEE 802.3 length nor an Ethernet II EtherType"
    );
}

#[test]
fn parse_rejects_truncated_ieee_8021q_tag() {
    // Arrange
    let mut frame = encode_ethernet_ii_frame(
        MacAddress::broadcast(),
        MacAddress::from_octets([1, 2, 3, 4, 5, 6]),
        ETHERNET_PROTOCOL_VLAN_TAG,
        &[0x00],
    );
    frame.truncate(ETHERNET_II_HEADER_LENGTH + 1);

    // Act
    let outcome = try_parse_ethernet_frame(&frame);

    // Assert
    assert_eq!(
        outcome.expect_err("truncated 802.1Q should fail"),
        "IEEE 802.1Q tag is truncated"
    );
}

#[test]
fn parse_rejects_unofficial_qinq_tpids() {
    // Arrange
    let destination = MacAddress::broadcast();
    let source = MacAddress::from_octets([1, 2, 3, 4, 5, 6]);
    let inner = [0x00, 0x01, 0x08, 0x06];
    let tpids = [
        ETHERNET_PROTOCOL_VLAN_TAG_QINQ_9100,
        ETHERNET_PROTOCOL_VLAN_TAG_QINQ_9200,
        ETHERNET_PROTOCOL_VLAN_TAG_QINQ_9300,
    ];
    let frames: Vec<Vec<u8>> = tpids
        .iter()
        .map(|tpid| encode_ethernet_ii_frame(destination, source, *tpid, &inner))
        .collect();

    // Act
    let outcomes: Vec<_> = frames
        .iter()
        .map(|frame| try_parse_ethernet_frame(frame))
        .collect();

    // Assert
    for (tpid, outcome) in tpids.iter().zip(outcomes) {
        assert_eq!(
            outcome.expect_err("unofficial QinQ TPID should be rejected"),
            "Ethernet frame uses an unofficial QinQ TPID; only IEEE 802.1Q 0x8100 and 0x88A8 tagging is supported here",
            "TPID {tpid:#06x} is not an officially registered EtherType and must stay rejected"
        );
    }
}

#[test]
fn parse_rejects_ieee_8021ad_as_inner_type_after_customer_tag() {
    // Arrange
    let destination = MacAddress::broadcast();
    let source = MacAddress::from_octets([1, 2, 3, 4, 5, 6]);
    let mut inner = Vec::from(0x000Au16.to_be_bytes());
    inner.extend_from_slice(&ETHERNET_PROTOCOL_VLAN_TAG_SERVICE.to_be_bytes());
    inner.extend_from_slice(&ETHERNET_PROTOCOL_ARP.to_be_bytes());
    let frame =
        encode_ethernet_ii_frame(destination, source, ETHERNET_PROTOCOL_VLAN_TAG, &inner);

    // Act
    let outcome = try_parse_ethernet_frame(&frame);

    // Assert
    assert_eq!(
        outcome.expect_err("a service tag inside a customer tag should be rejected"),
        "Ethernet frame stacks a VLAN tag inside an IEEE 802.1Q customer tag; only 0x88A8 may wrap 0x8100",
        "IEEE 802.1ad orders the S-TAG outside the C-TAG; the reverse order is not accepted"
    );
}

#[test]
fn parse_rejects_truncated_rfc_1042_llc_snap_header() {
    // Arrange
    let destination = MacAddress::broadcast();
    let source = MacAddress::from_octets([1, 2, 3, 4, 5, 6]);
    let frame = encode_ethernet_ii_frame(destination, source, 46, &[0xAA, 0xAA, 0x03]);

    // Act
    let outcome = try_parse_ethernet_frame(&frame);

    // Assert
    assert_eq!(
        outcome.expect_err("truncated SNAP should fail"),
        "IEEE 802.3 LLC/SNAP header is truncated"
    );
}

#[test]
fn parse_rejects_snap_when_organizationally_unique_identifier_is_not_rfc_1042() {
    // Arrange
    let destination = MacAddress::broadcast();
    let source = MacAddress::from_octets([1, 2, 3, 4, 5, 6]);
    let payload = [0xAA, 0xAA, 0x03, 0x00, 0x00, 0x01, 0x08, 0x06];
    let frame = encode_ethernet_ii_frame(destination, source, 46, &payload);

    // Act
    let outcome = try_parse_ethernet_frame(&frame);

    // Assert
    assert_eq!(
        outcome.expect_err("non-zero SNAP OUI should fail"),
        "SNAP organizationally unique identifier is not RFC 1042 Ethernet"
    );
}

#[test]
fn parse_decodes_null_vlan_identifier_with_priority_code_point_and_drop_eligible() {
    // Arrange
    let destination = MacAddress::broadcast();
    let source = MacAddress::from_octets([1, 2, 3, 4, 5, 6]);
    let tag = Ieee8021qTagControlInformation::new(
        Ieee8021qPriorityCodePoint::new(7).expect("PCP 7 fits"),
        true,
        Ieee8021qVlanIdentifier::new(0).expect("null VID is legal"),
    );
    let frame = encode_ethernet_ii_frame_with_optional_ieee_8021q_tag(
        destination,
        source,
        Some(Ieee8021qTagStack::Customer(tag)),
        ETHERNET_PROTOCOL_ARP,
        &[0x99],
    );

    // Act
    let parsed = try_parse_ethernet_frame(&frame).expect("priority-tagged frame should parse");

    // Assert
    assert_eq!(tag.as_u16(), 0xF000);
    assert_eq!(parsed.vlan_identifier, Some(0));
    let vlan_tag = parsed.vlan_tag.expect("priority tagging should expose TCI");
    assert_eq!(vlan_tag.priority_code_point.as_u8(), 7);
    assert!(vlan_tag.drop_eligible_indicator);
    assert_eq!(vlan_tag.vlan_identifier.as_u16(), 0);
    assert_eq!(parsed.ether_type, ETHERNET_PROTOCOL_ARP);
}

#[test]
fn encode_rfc_1042_llc_snap_uses_maximum_ieee_8023_length_when_mac_client_data_is_full() {
    // Arrange
    let destination = MacAddress::broadcast();
    let source = MacAddress::from_octets([2, 0, 0, 0, 0, 1]);
    let payload =
        vec![0xAAu8; usize::from(IEEE_8023_MAXIMUM_LENGTH) - IEEE_8023_LLC_SNAP_HEADER_LENGTH];

    // Act
    let frame = encode_ieee_8023_rfc_1042_llc_snap_frame(
        destination,
        source,
        None,
        ETHERNET_PROTOCOL_ARP,
        &payload,
    );

    // Assert
    assert_eq!(&frame[12..14], &IEEE_8023_MAXIMUM_LENGTH.to_be_bytes());
    let parsed = try_parse_ethernet_frame(&frame).expect("maximum-length SNAP should parse");
    assert_eq!(parsed.framing, EthernetFraming::Ieee8023LlcSnap);
    assert_eq!(parsed.payload, payload.as_slice());
}



#[test]
fn encode_rfc_1042_llc_snap_clamps_length_field_above_ieee_8023_maximum() {
    let destination = MacAddress::broadcast();
    let source = MacAddress::from_octets([2, 0, 0, 0, 0, 1]);
    let payload = vec![0u8; 1493];

    let frame = encode_ieee_8023_rfc_1042_llc_snap_frame(
        destination,
        source,
        None,
        ETHERNET_PROTOCOL_ARP,
        &payload,
    );

    assert_eq!(frame.len(), 14 + 8 + 1493);
    assert_eq!(&frame[12..14], &1500u16.to_be_bytes());
    let parsed = try_parse_ethernet_frame(&frame).expect("clamped length should parse");
    assert_eq!(parsed.framing, EthernetFraming::Ieee8023LlcSnap);
    assert_eq!(parsed.payload, payload.as_slice());
}
