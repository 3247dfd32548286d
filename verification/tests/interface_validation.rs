use new_arp_scan::error::AppError;
use new_arp_scan::interface_validation::{
    interface_request_name_octets, validate_interface_name_for_linux_packet_socket,
    INTERFACE_NAME_BUFFER_SIZE, INTERFACE_NAME_MAXIMUM_BYTES,
};

#[test]
fn returns_error_when_interface_name_is_empty() {
    // Arrange
    let interface_name = "";

    // Act
    let outcome = validate_interface_name_for_linux_packet_socket(interface_name);

    // Assert
    assert!(
        matches!(outcome, Err(AppError::InvalidInterfaceName { .. })),
        "empty name should be rejected, got: {outcome:?}"
    );
}

#[test]
fn returns_error_when_interface_name_exceeds_maximum_length() {
    // Arrange
    let interface_name = "a".repeat(INTERFACE_NAME_MAXIMUM_BYTES + 1);

    // Act
    let outcome = validate_interface_name_for_linux_packet_socket(&interface_name);

    // Assert
    assert!(
        matches!(outcome, Err(AppError::InvalidInterfaceName { .. })),
        "oversized name should be rejected, got: {outcome:?}"
    );
}

#[test]
fn returns_error_when_interface_name_contains_slash() {
    // Arrange
    let interface_name = "eth0/1";

    // Act
    let outcome = validate_interface_name_for_linux_packet_socket(interface_name);

    // Assert
    assert!(
        matches!(outcome, Err(AppError::InvalidInterfaceName { .. })),
        "slash should be rejected, got: {outcome:?}"
    );
}

#[test]
fn returns_error_when_interface_name_contains_nul_byte() {
    // Arrange
    let interface_name = "eth\0";

    // Act
    let outcome = validate_interface_name_for_linux_packet_socket(interface_name);

    // Assert
    assert!(
        matches!(outcome, Err(AppError::InvalidInterfaceName { .. })),
        "NUL should be rejected, got: {outcome:?}"
    );
}

#[test]
fn accepts_valid_interface_name() {
    // Arrange
    let interface_name = "eth0";

    // Act
    let outcome = validate_interface_name_for_linux_packet_socket(interface_name);

    // Assert
    assert!(
        matches!(outcome, Ok(())),
        "valid interface name should be accepted, got: {outcome:?}"
    );
}

#[test]
fn accepts_interface_name_at_maximum_byte_length() {
    // Arrange
    let interface_name = "a".repeat(INTERFACE_NAME_MAXIMUM_BYTES);

    // Act
    let outcome = validate_interface_name_for_linux_packet_socket(&interface_name);

    // Assert
    assert!(
        matches!(outcome, Ok(())),
        "IFNAMSIZ-1 byte names are valid on Linux, got: {outcome:?}"
    );
}


#[test]
fn returns_error_when_byte_length_reaches_ifreq_name_buffer_size() {
    // Arrange
    let interface_name = "a".repeat(INTERFACE_NAME_BUFFER_SIZE);

    // Act
    let outcome = interface_request_name_octets(&interface_name);

    // Assert
    assert!(
        matches!(outcome, Err(AppError::InvalidInterfaceName { .. })),
        "names that cannot fit with a trailing NUL in ifr_name should be rejected, got: {outcome:?}"
    );
}

#[test]
fn copies_short_name_into_leading_bytes_of_ifr_name() {
    // Act
    let request_name_bytes =
        interface_request_name_octets("ab").expect("two-byte name should copy into ifreq");

    // Assert
    assert_eq!(request_name_bytes[0], b'a');
    assert_eq!(request_name_bytes[1], b'b');
    assert_eq!(
        request_name_bytes[2], 0,
        "copy should not write past the final interface name byte; remainder stays zero-filled"
    );
}

#[test]
fn interface_name_errors_carry_the_operator_message() {
    let too_long = validate_interface_name_for_linux_packet_socket("abcdefghijklmnop");
    match too_long {
        Err(AppError::InvalidInterfaceName { message }) => {
            assert_eq!(message, "interface name must be at most 15 bytes, got 16");
        }
        other => panic!("expected an invalid name, got: {other:?}"),
    }
    match validate_interface_name_for_linux_packet_socket("") {
        Err(AppError::InvalidInterfaceName { message }) => {
            assert_eq!(message, "interface name must not be empty");
        }
        other => panic!("expected an invalid name, got: {other:?}"),
    }
    let multibyte = "é".repeat(8);
    assert!(
        validate_interface_name_for_linux_packet_socket(&multibyte).is_err(),
        "eight two-byte characters exceed fifteen bytes"
    );
}
