
use new_arp_scan::error::AppError;
use new_arp_scan::link_layer_backend::ArpScanInterfaceCandidate;
use new_arp_scan::mac_address::MacAddress;
use new_arp_scan::macos_interface_discovery::{
    accumulate_interface_records, classify_usable_scan_interfaces, discover_interface_scan_addresses,
    interface_flags_allow_arp_scanning, link_layer_address_from_sockaddr_dl_fields,
    resolve_scan_interface_name, ClassifiedScanInterface, InterfaceAddressPayload,
    InterfaceAddressRecord,
};
use new_arp_scan::macos_packet::{
    INTERFACE_FLAG_LOOPBACK, INTERFACE_FLAG_NO_ARP, INTERFACE_FLAG_UP, INTERFACE_TYPE_ETHERNET,
};

fn ip(a: u8, b: u8, c: u8, d: u8) -> u32 {
    u32::from_be_bytes([a, b, c, d])
}

fn flags_up() -> u32 {
    INTERFACE_FLAG_UP as u32
}

fn ipv4_record(name: &str, flags: u32, address: u32, netmask: u32) -> InterfaceAddressRecord {
    InterfaceAddressRecord {
        interface_name: name.to_string(),
        interface_flags: flags,
        payload: InterfaceAddressPayload::Ipv4 {
            address: address,
            netmask: Some(netmask),
        },
    }
}

fn link_record(name: &str, flags: u32, interface_type: u8, octets: [u8; 6]) -> InterfaceAddressRecord {
    InterfaceAddressRecord {
        interface_name: name.to_string(),
        interface_flags: flags,
        payload: InterfaceAddressPayload::LinkLayer {
            interface_type,
            hardware_address: Some(octets),
        },
    }
}

#[test]
fn classifies_up_ethernet_interface_with_ipv4_and_mac_as_usable() {
    // Arrange
    let octets = [0x02, 0x11, 0x22, 0x33, 0x44, 0x55];
    let records = vec![
        ipv4_record(
            "en0",
            flags_up(),
            ip(192, 168, 1, 20),
            ip(255, 255, 255, 0),
        ),
        link_record("en0", flags_up(), INTERFACE_TYPE_ETHERNET, octets),
    ];

    // Act
    let classified = classify_usable_scan_interfaces(&records);

    // Assert
    assert_eq!(
        classified,
        vec![ClassifiedScanInterface {
            interface_name: "en0".to_string(),
            source_ipv4_address: u32::from_be_bytes([192, 168, 1, 20]),
            ipv4_netmask: u32::from_be_bytes([255, 255, 255, 0]),
            source_mac_address: MacAddress::from_octets(octets),
        }],
        "an up Ethernet interface with IPv4, netmask, and a non-zero MAC should be usable"
    );
}

#[test]
fn excludes_loopback_interface() {
    // Arrange
    let flags = INTERFACE_FLAG_UP as u32 | INTERFACE_FLAG_LOOPBACK as u32;
    let records = vec![
        ipv4_record(
            "lo0",
            flags,
            u32::from_be_bytes([127, 0, 0, 1]),
            ip(255, 0, 0, 0),
        ),
        link_record("lo0", flags, INTERFACE_TYPE_ETHERNET, [1, 2, 3, 4, 5, 6]),
    ];

    // Act
    let classified = classify_usable_scan_interfaces(&records);

    // Assert
    assert!(
        classified.is_empty(),
        "loopback interfaces must be excluded, got: {classified:?}"
    );
}

#[test]
fn excludes_interface_with_noarp_flag() {
    // Arrange
    let flags = INTERFACE_FLAG_UP as u32 | INTERFACE_FLAG_NO_ARP as u32;
    let records = vec![
        ipv4_record(
            "en5",
            flags,
            ip(10, 0, 0, 5),
            ip(255, 255, 255, 0),
        ),
        link_record("en5", flags, INTERFACE_TYPE_ETHERNET, [1, 2, 3, 4, 5, 6]),
    ];

    // Act
    let classified = classify_usable_scan_interfaces(&records);

    // Assert
    assert!(
        classified.is_empty(),
        "NOARP interfaces must be excluded, got: {classified:?}"
    );
}

#[test]
fn excludes_interface_that_is_not_up() {
    // Arrange
    let flags = 0;
    let records = vec![
        ipv4_record(
            "en6",
            flags,
            ip(10, 0, 0, 6),
            ip(255, 255, 255, 0),
        ),
        link_record("en6", flags, INTERFACE_TYPE_ETHERNET, [1, 2, 3, 4, 5, 6]),
    ];

    // Act
    let classified = classify_usable_scan_interfaces(&records);

    // Assert
    assert!(
        classified.is_empty(),
        "interfaces that are not up must be excluded, got: {classified:?}"
    );
}

#[test]
fn excludes_non_ethernet_interface_type() {
    // Arrange
    let other_link_type = 0x18; // IFT_LOOP-style non-Ethernet medium.
    let records = vec![
        ipv4_record(
            "utun0",
            flags_up(),
            ip(10, 9, 9, 9),
            ip(255, 255, 255, 0),
        ),
        link_record("utun0", flags_up(), other_link_type, [1, 2, 3, 4, 5, 6]),
    ];

    // Act
    let classified = classify_usable_scan_interfaces(&records);

    // Assert
    assert!(
        classified.is_empty(),
        "non-Ethernet link types must be excluded, got: {classified:?}"
    );
}

#[test]
fn excludes_interface_without_ipv4_address() {
    // Arrange
    let records = vec![link_record(
        "en7",
        flags_up(),
        INTERFACE_TYPE_ETHERNET,
        [1, 2, 3, 4, 5, 6],
    )];

    // Act
    let classified = classify_usable_scan_interfaces(&records);

    // Assert
    assert!(
        classified.is_empty(),
        "interfaces without an IPv4 address must be excluded, got: {classified:?}"
    );
}

#[test]
fn excludes_interface_without_link_layer_address() {
    // Arrange
    let records = vec![ipv4_record(
        "en8",
        flags_up(),
        ip(10, 0, 0, 8),
        ip(255, 255, 255, 0),
    )];

    // Act
    let classified = classify_usable_scan_interfaces(&records);

    // Assert
    assert!(
        classified.is_empty(),
        "interfaces without an Ethernet address must be excluded, got: {classified:?}"
    );
}

#[test]
fn excludes_interface_with_all_zero_mac() {
    // Arrange
    let records = vec![
        ipv4_record(
            "en9",
            flags_up(),
            ip(10, 0, 0, 9),
            ip(255, 255, 255, 0),
        ),
        link_record("en9", flags_up(), INTERFACE_TYPE_ETHERNET, [0; 6]),
    ];

    // Act
    let classified = classify_usable_scan_interfaces(&records);

    // Assert
    assert!(
        classified.is_empty(),
        "all-zero hardware addresses must be excluded, got: {classified:?}"
    );
}

#[test]
fn macos_interface_discovery_interface_flags_allow_arp_scanning_accepts_up_non_loopback_without_no_arp() {
    // Arrange
    let flags = INTERFACE_FLAG_UP as u32;

    // Act
    let outcome = interface_flags_allow_arp_scanning(flags);

    // Assert
    assert!(
        outcome,
        "up, non-loopback, ARP-capable interfaces are allowed"
    );
}

#[test]
fn interface_flags_allow_arp_scanning_rejects_loopback_and_noarp_and_down() {
    // Arrange
    let loopback = INTERFACE_FLAG_UP as u32 | INTERFACE_FLAG_LOOPBACK as u32;
    let no_arp = INTERFACE_FLAG_UP as u32 | INTERFACE_FLAG_NO_ARP as u32;
    let down = 0;

    // Act / Assert
    assert!(
        !interface_flags_allow_arp_scanning(loopback),
        "loopback should be rejected"
    );
    assert!(
        !interface_flags_allow_arp_scanning(no_arp),
        "NOARP should be rejected"
    );
    assert!(
        !interface_flags_allow_arp_scanning(down),
        "interfaces that are not up should be rejected"
    );
}

#[test]
fn classification_keeps_usable_interfaces_in_name_order_and_first_ipv4_address() {
    let records = vec![
        ipv4_record("en1", flags_up(), ip(10, 0, 1, 5), ip(255, 255, 255, 0)),
        link_record("en1", flags_up(), INTERFACE_TYPE_ETHERNET, [2, 0, 0, 0, 1, 1]),
        ipv4_record("en0", flags_up(), ip(10, 0, 0, 5), ip(255, 255, 255, 0)),
        ipv4_record("en0", flags_up(), ip(10, 9, 9, 9), ip(255, 0, 0, 0)),
        link_record("en0", flags_up(), INTERFACE_TYPE_ETHERNET, [2, 0, 0, 0, 0, 1]),
        link_record("bad/name", flags_up(), INTERFACE_TYPE_ETHERNET, [2, 0, 0, 0, 9, 9]),
    ];
    let accumulated = accumulate_interface_records(&records);
    let names: Vec<&str> = accumulated.iter().map(|entry| entry.interface_name.as_str()).collect();
    assert_eq!(names, vec!["en0", "en1"]);
    let classified = classify_usable_scan_interfaces(&records);
    assert_eq!(classified.len(), 2);
    assert_eq!(classified[0].interface_name, "en0");
    assert_eq!(classified[0].source_ipv4_address, u32::from_be_bytes([10, 0, 0, 5]));
    assert_eq!(classified[1].interface_name, "en1");
}

#[test]
fn discovery_reports_lookup_failure_and_specific_rejections() {
    let records = vec![
        ipv4_record("utun0", flags_up(), ip(10, 9, 9, 9), ip(255, 255, 255, 0)),
        link_record("utun0", flags_up(), 0x18, [1, 2, 3, 4, 5, 6]),
        link_record("en7", flags_up(), INTERFACE_TYPE_ETHERNET, [1, 2, 3, 4, 5, 6]),
        ipv4_record("en0", flags_up(), ip(192, 168, 1, 20), ip(255, 255, 255, 0)),
        link_record("en0", flags_up(), INTERFACE_TYPE_ETHERNET, [2, 0, 0, 0, 0, 1]),
    ];
    match discover_interface_scan_addresses("en9", &records) {
        Err(AppError::InterfaceLookupFailed { interface_name, source }) => {
            assert_eq!(interface_name, "en9");
            assert_eq!(source.to_string(), "interface not present in getifaddrs output");
        }
        other => panic!("expected a lookup failure, got: {other:?}"),
    }
    match discover_interface_scan_addresses("utun0", &records) {
        Err(AppError::InterfaceHardwareAddressUnsupported { reason, .. }) => {
            assert_eq!(reason, "link-layer type 24 is not Ethernet");
        }
        other => panic!("expected a hardware rejection, got: {other:?}"),
    }
    match discover_interface_scan_addresses("en7", &records) {
        Err(AppError::InterfaceRejectedForScanning { reason, .. }) => {
            assert_eq!(reason, "interface has no IPv4 address and netmask");
        }
        other => panic!("expected a rejection, got: {other:?}"),
    }
    let addresses = discover_interface_scan_addresses("en0", &records).expect("usable");
    assert_eq!(addresses.source_ipv4_address, u32::from_be_bytes([192, 168, 1, 20]));
    assert_eq!(addresses.source_mac_address, MacAddress::from_octets([2, 0, 0, 0, 0, 1]));
    assert_eq!(
        resolve_scan_interface_name(Some("en0"), &records, &Vec::new()).expect("explicit"),
        "en0"
    );
    let candidate = ArpScanInterfaceCandidate {
        interface_name: "en0".to_string(),
        interface_index: 4,
        source_ipv4_address: addresses.source_ipv4_address,
        ipv4_netmask: addresses.ipv4_netmask,
        source_mac_address: addresses.source_mac_address,
    };
    assert_eq!(
        resolve_scan_interface_name(None, &records, &vec![candidate]).expect("single candidate"),
        "en0"
    );
}

#[test]
fn reads_ethernet_address_from_sockaddr_dl_fixture() {
    // Name "en0" occupies the first three bytes of sdl_data; the address follows it.
    let expected = [0xDEu8, 0xAD, 0xBE, 0xEF, 0x12, 0x34];
    let mut data = vec![b'e', b'n', b'0'];
    data.extend_from_slice(&expected);
    let (interface_type, hardware_address) =
        link_layer_address_from_sockaddr_dl_fields(INTERFACE_TYPE_ETHERNET, 3, 6, &data);
    assert_eq!(interface_type, INTERFACE_TYPE_ETHERNET);
    assert_eq!(hardware_address, Some(expected));
}

#[test]
fn read_link_layer_address_returns_none_when_address_length_is_not_six() {
    let (interface_type, hardware_address) =
        link_layer_address_from_sockaddr_dl_fields(0x18, 5, 0, &[b'u', b't', b'u', b'n', b'0']);
    assert_eq!(interface_type, 0x18);
    assert_eq!(hardware_address, None);
}
