use new_arp_scan::mac_address::MacAddress;
use new_arp_scan::mac_vendor_registry::{MacVendorRegistry, MacVendorRegistryParseError};

    #[test]
    fn longest_prefix_prefers_ma_s_over_ma_m_over_ma_l() {
        // Arrange
        let text = "\
F4A475\tMA-L vendor
F4A4750\tMA-M vendor
F4A475000\tMA-S vendor
";
        let registry = MacVendorRegistry::parse_ieee_oui_text(text).expect("fixture should parse");
        let twenty_four_bit_prefix_address =
            MacAddress::from_octets([0xF4, 0xA4, 0x75, 0xF0, 0x00, 0x01]);
        let twenty_eight_bit_prefix_address =
            MacAddress::from_octets([0xF4, 0xA4, 0x75, 0x0F, 0x00, 0x01]);
        let thirty_six_bit_prefix_address =
            MacAddress::from_octets([0xF4, 0xA4, 0x75, 0x00, 0x00, 0x01]);

        // Act
        let thirty_six_bit_vendor = registry.vendor_name_for(thirty_six_bit_prefix_address);
        let twenty_eight_bit_vendor = registry.vendor_name_for(twenty_eight_bit_prefix_address);
        let twenty_four_bit_vendor = registry.vendor_name_for(twenty_four_bit_prefix_address);

        // Assert
        assert_eq!(thirty_six_bit_vendor, Some("MA-S vendor"));
        assert_eq!(twenty_eight_bit_vendor, Some("MA-M vendor"));
        assert_eq!(twenty_four_bit_vendor, Some("MA-L vendor"));
    }

#[test]
fn returns_none_when_no_prefix_matches() {
    // Arrange
    let registry = MacVendorRegistry::parse_ieee_oui_text("001122\tExample\n")
        .expect("fixture should parse");
    let address = MacAddress::from_octets([0xFF, 0xEE, 0xDD, 0, 0, 1]);

    // Act
    let outcome = registry.vendor_name_for(address);

    // Assert
    assert_eq!(outcome, None);
}

#[test]
fn strips_colon_separators_from_prefix_field() {
    // Arrange
    let registry = MacVendorRegistry::parse_ieee_oui_text("00:11:22\tSeparated\n")
        .expect("colon-separated prefix should parse");
    let address = MacAddress::from_octets([0x00, 0x11, 0x22, 0x33, 0x44, 0x55]);

    // Act
    let outcome = registry.vendor_name_for(address);

    // Assert
    assert_eq!(outcome, Some("Separated"));
}

    #[test]
    fn ignores_comments_and_blank_lines() {
        // Arrange
        let text = "\
# ieee-oui.txt
\n
AABBCC\tVendor
";
        let registry = MacVendorRegistry::parse_ieee_oui_text(text).expect("comments should skip");

        // Act
        // Assert
        assert_eq!(registry.mapping_count(), 1);
    }

#[test]
fn rejects_line_without_tab() {
    // Arrange
    let text = "AABBCC Vendor without tab\n";

    // Act
    let outcome = MacVendorRegistry::parse_ieee_oui_text(text);

    // Assert
    assert!(
        matches!(
            outcome,
            Err(MacVendorRegistryParseError::LineMissingTab { line_number: 1 })
        ),
        "expected missing tab error, got: {:?}", outcome.as_ref().err()
    );
}

#[test]
fn rejects_non_hexadecimal_prefix() {
    // Arrange
    let text = "GGHHII\tBad\n";

    // Act
    let outcome = MacVendorRegistry::parse_ieee_oui_text(text);

    // Assert
    assert!(
        matches!(
            outcome,
            Err(MacVendorRegistryParseError::InvalidPrefix { line_number: 1, .. })
        ),
        "expected invalid prefix, got: {:?}", outcome.as_ref().err()
    );
}

    #[test]
    fn last_duplicate_prefix_wins() {
        // Arrange
        let text = "\
001122\tFirst
001122\tSecond
";
        let registry =
            MacVendorRegistry::parse_ieee_oui_text(text).expect("duplicates should parse");
        let address = MacAddress::from_octets([0x00, 0x11, 0x22, 0, 0, 1]);

        // Act
        let outcome = registry.vendor_name_for(address);

        // Assert
        assert_eq!(outcome, Some("Second"));
    }


#[test]
fn unknown_address_falls_back_to_shorter_prefix_and_counts_mappings() {
    let text = "00\tTwo digits\n001122\tThree octets\n";
    let registry = MacVendorRegistry::parse_ieee_oui_text(text).expect("fixture should parse");
    assert_eq!(registry.mapping_count(), 2);
    let address = MacAddress::from_octets([0x00, 0x99, 0x22, 0, 0, 1]);
    assert_eq!(registry.vendor_name_for(address), Some("Two digits"));
}

#[test]
fn parse_error_text_names_the_line() {
    let missing_tab = MacVendorRegistry::parse_ieee_oui_text("# header\nAABBCC Vendor\n")
        .err()
        .expect("second line has no tab");
    assert!(matches!(missing_tab, MacVendorRegistryParseError::LineMissingTab { line_number: 2 }));
    assert_eq!(
        missing_tab.to_string(),
        "MAC vendor mapping line 2 is missing a tab separator"
    );
}

#[test]
fn empty_registry_has_no_mappings() {
    let registry = MacVendorRegistry::new();
    assert_eq!(registry.mapping_count(), 0);
    assert_eq!(registry.vendor_name_for(MacAddress::broadcast()), None);
}

#[test]
fn rejects_prefix_with_non_hexadecimal_character_beside_digits() {
    let outcome = MacVendorRegistry::parse_ieee_oui_text("AABBCCG\tVendor\n");

    match outcome {
        Err(MacVendorRegistryParseError::InvalidPrefix { line_number, prefix }) => {
            assert_eq!(line_number, 1);
            assert_eq!(prefix, "AABBCCG");
        }
        other => panic!("expected invalid prefix, got: {:?}", other.err()),
    }
}

#[test]
fn strips_dash_and_dot_separators_from_prefix_field() {
    let registry = MacVendorRegistry::parse_ieee_oui_text("aa-bb.cc\tSeparated\n")
        .expect("dash and dot separators should be dropped");
    let address = MacAddress::from_octets([0xAA, 0xBB, 0xCC, 0, 0, 1]);
    assert_eq!(registry.vendor_name_for(address), Some("Separated"));
    assert_eq!(registry.mapping_count(), 1);
}

#[test]
fn mapping_count_counts_each_distinct_prefix_once() {
    let text = "# ieee-oui.txt\n\nAABBCC\tFirst\naa:bb:cc\tSecond\n001122\tOther\n";

    let registry = MacVendorRegistry::parse_ieee_oui_text(text).expect("fixture should parse");

    assert_eq!(registry.mapping_count(), 2);
    let address = MacAddress::from_octets([0xAA, 0xBB, 0xCC, 0, 0, 1]);
    assert_eq!(registry.vendor_name_for(address), Some("Second"));
    let unmatched = MacAddress::from_octets([0xFF, 0xEE, 0xDD, 0, 0, 1]);
    assert_eq!(registry.vendor_name_for(unmatched), None);
}
