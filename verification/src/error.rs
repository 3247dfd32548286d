//! Application-wide error type and its operator-facing text.

use vstd::prelude::*;

use crate::text::{decimal_text, joined, push_decimal, push_joined, push_text, string_views};

verus! {

#[verifier::external_type_specification]
#[verifier::external_body]
pub struct InputOutputErrorType(std::io::Error);

/// Operator-facing text of an input/output error: the error's `Display` output
/// (`std::io::Error::to_string`).
///
/// Nothing is stated of the text: for an operating-system error it is the platform's message for
/// the error number, which depends on the machine and its locale.
#[verifier::external_body]
fn input_output_error_text(error: &std::io::Error) -> (text: String) {
    error.to_string()
}

/// The kinds of input/output error the library itself creates.
#[derive(Debug, Clone, Copy, PartialEq, Eq)]
pub enum InputOutputErrorKind {
    /// `std::io::ErrorKind::NotFound`.
    NotFound,
    /// `std::io::ErrorKind::InvalidData`.
    InvalidData,
}

/// An input/output error of `kind` carrying `message` (`std::io::Error::new(kind, message)`).
///
/// Nothing is stated of the value: the error type is opaque here, and its text is only ever read
/// through [`input_output_error_text`], which states nothing either.
#[verifier::external_body]
pub(crate) fn input_output_error(kind: InputOutputErrorKind, message: &str) -> (error: std::io::Error) {
    let kind = match kind {
        InputOutputErrorKind::NotFound => std::io::ErrorKind::NotFound,
        InputOutputErrorKind::InvalidData => std::io::ErrorKind::InvalidData,
    };
    std::io::Error::new(kind, message)
}

/// Represents failures surfaced by the library and binary.
#[derive(Debug)]
pub enum AppError {
    /// An underlying input/output operation failed.
    Io(std::io::Error),
    /// The host operating system does not support link-layer scanning.
    UnsupportedPlatform {
        /// Name of the operating system of the current process.
        operating_system: String,
    },
    /// The interface name violates basic Linux naming rules.
    InvalidInterfaceName {
        /// Human-readable explanation for operators.
        message: String,
    },
    /// The kernel could not resolve the interface name to an interface index.
    InterfaceLookupFailed {
        /// Interface name supplied by the caller.
        interface_name: String,
        /// Underlying operating system error (typically `errno`).
        source: std::io::Error,
    },
    /// Reading interface flags through `ioctl` failed.
    InterfaceFlagsQueryFailed {
        /// Interface name supplied by the caller.
        interface_name: String,
        /// Underlying operating system error (typically `errno`).
        source: std::io::Error,
    },
    /// The interface is not suitable for ARP scanning with a raw packet socket.
    InterfaceRejectedForScanning {
        /// Interface name supplied by the caller.
        interface_name: String,
        /// Human-readable reason (for example loopback, administratively down, or `NOARP`).
        reason: String,
    },
    /// Creating the raw packet socket or packet filter device failed.
    RawSocketOpenFailed {
        /// Underlying operating system error (typically `errno`).
        source: std::io::Error,
    },
    /// Opening a raw packet socket was denied because the process lacks `CAP_NET_RAW`.
    RawSocketCapabilityRequired {
        /// Underlying operating system error (typically `errno`).
        source: std::io::Error,
    },
    /// Opening a Berkeley Packet Filter device was denied because the process is not root.
    BpfDeviceAccessRequired {
        /// Underlying operating system error (typically `errno`).
        source: std::io::Error,
    },
    /// Binding the raw packet socket (or attaching the packet filter device) failed.
    SocketBindFailed {
        /// Underlying operating system error (typically `errno`).
        source: std::io::Error,
    },
    /// Reading the interface IPv4 address through `ioctl` failed.
    InterfaceIpv4AddressQueryFailed {
        /// Interface name supplied by the caller.
        interface_name: String,
        /// Underlying operating system error (typically `errno`).
        source: std::io::Error,
    },
    /// Reading the interface IPv4 netmask through `ioctl` failed.
    InterfaceIpv4NetmaskQueryFailed {
        /// Interface name supplied by the caller.
        interface_name: String,
        /// Underlying operating system error (typically `errno`).
        source: std::io::Error,
    },
    /// Reading the interface hardware address through `ioctl` failed.
    InterfaceHardwareAddressQueryFailed {
        /// Interface name supplied by the caller.
        interface_name: String,
        /// Underlying operating system error (typically `errno`).
        source: std::io::Error,
    },
    /// The interface hardware address is not Ethernet or is otherwise unsupported.
    InterfaceHardwareAddressUnsupported {
        /// Interface name supplied by the caller.
        interface_name: String,
        /// Human-readable explanation for operators.
        reason: String,
    },
    /// The socket address family for an interface IPv4 address was not `AF_INET`.
    InterfaceIpv4AddressInvalidFamily {
        /// Address family value returned by the kernel.
        address_family: u16,
    },
    /// The socket address family for an interface IPv4 netmask was not `AF_INET`.
    InterfaceIpv4NetmaskInvalidFamily {
        /// Interface name supplied by the caller.
        interface_name: String,
        /// Address family value returned by the kernel.
        address_family: u16,
    },
    /// The IPv4 netmask is not a valid contiguous classless inter-domain routing mask.
    Ipv4NetmaskInvalid {
        /// Netmask that was rejected, in dotted-decimal notation.
        netmask: String,
    },
    /// The IPv4 subnet cannot be scanned with the current rules (for example `/31` or `/32`).
    Ipv4SubnetUnsupported {
        /// Human-readable explanation for operators.
        message: String,
    },
    /// The IPv4 classless inter-domain routing string could not be parsed.
    Ipv4CidrStringInvalid {
        /// Input supplied by the caller (trimmed of leading and trailing ASCII whitespace only).
        source: String,
        /// Human-readable explanation for operators.
        message: String,
    },
    /// A single scan target is not a strictly interior host address of the interface subnet.
    SingleScanTargetRejected {
        /// Interface whose subnet the target was checked against.
        interface_name: String,
        /// The rejected target in dotted-decimal notation.
        target_ipv4_address: String,
        /// Human-readable reason.
        reason: String,
    },
    /// Waiting for packet socket readiness with `poll(2)` failed.
    PollWaitFailed {
        /// Underlying operating system error (typically `errno`).
        source: std::io::Error,
    },
    /// Receiving a raw Ethernet frame failed.
    RawPacketReceiveFailed {
        /// Underlying operating system error (typically `errno`).
        source: std::io::Error,
    },
    /// Enumerating local interfaces failed.
    InterfaceEnumerationFailed {
        /// Underlying operating system error (typically `errno`).
        source: std::io::Error,
    },
    /// Automatic interface selection found no usable interface.
    AutomaticInterfaceSelectionNoneFound,
    /// Automatic interface selection found more than one usable interface.
    AutomaticInterfaceSelectionAmbiguous {
        /// Names of interfaces that were all considered usable.
        interface_names: Vec<String>,
    },
}

/// The text that describes `error`, when its underlying input/output error (if it has one) reads
/// `source_text`.
pub open spec fn app_error_text(error: &AppError, source_text: Seq<char>) -> Seq<char> {
    match error {
        AppError::Io(_) => "input/output error: "@ + source_text,
        AppError::UnsupportedPlatform { operating_system } =>
            "this command requires Linux packet sockets; host operating system is "@
                + operating_system@,
        AppError::InvalidInterfaceName { message } => "invalid interface name: "@ + message@,
        AppError::InterfaceLookupFailed { interface_name, .. } =>
            "failed to look up interface index for `"@ + interface_name@ + "`: "@ + source_text,
        AppError::InterfaceFlagsQueryFailed { interface_name, .. } =>
            "failed to read interface flags for `"@ + interface_name@ + "`: "@ + source_text,
        AppError::InterfaceRejectedForScanning { interface_name, reason } => "interface `"@
            + interface_name@ + "` is not suitable for ARP scanning: "@ + reason@,
        AppError::RawSocketOpenFailed { .. } => "failed to open raw packet socket: "@ + source_text,
        AppError::RawSocketCapabilityRequired { .. } =>
            "opening a raw packet socket requires the Linux capability CAP_NET_RAW (or equivalent privileges); permission denied: "@
                + source_text,
        AppError::BpfDeviceAccessRequired { .. } =>
            "opening a Berkeley Packet Filter device requires root or BPF access (try running with sudo); permission denied: "@
                + source_text,
        AppError::SocketBindFailed { .. } => "failed to bind raw packet socket: "@ + source_text,
        AppError::InterfaceIpv4AddressQueryFailed { interface_name, .. } =>
            "failed to read IPv4 address for `"@ + interface_name@ + "`: "@ + source_text,
        AppError::InterfaceIpv4NetmaskQueryFailed { interface_name, .. } =>
            "failed to read IPv4 netmask for `"@ + interface_name@ + "`: "@ + source_text,
        AppError::InterfaceHardwareAddressQueryFailed { interface_name, .. } =>
            "failed to read hardware address for `"@ + interface_name@ + "`: "@ + source_text,
        AppError::InterfaceHardwareAddressUnsupported { interface_name, reason } =>
            "hardware address for `"@ + interface_name@
                + "` is not supported for ARP scanning: "@ + reason@,
        AppError::InterfaceIpv4AddressInvalidFamily { address_family } =>
            "interface IPv4 address query returned an unexpected address family: "@
                + decimal_text(*address_family as nat),
        AppError::InterfaceIpv4NetmaskInvalidFamily { interface_name, address_family } =>
            "interface IPv4 netmask query for `"@ + interface_name@
                + "` returned an unexpected address family: "@ + decimal_text(
                *address_family as nat,
            ),
        AppError::Ipv4NetmaskInvalid { netmask } => "IPv4 netmask `"@ + netmask@
            + "` is not a valid contiguous netmask"@,
        AppError::Ipv4SubnetUnsupported { message } =>
            "IPv4 subnet is not supported for scanning: "@ + message@,
        AppError::Ipv4CidrStringInvalid { source, message } =>
            "invalid IPv4 classless inter-domain routing notation `"@ + source@ + "`: "@
                + message@,
        AppError::SingleScanTargetRejected { interface_name, target_ipv4_address, reason } =>
            "IPv4 address `"@ + target_ipv4_address@ + "` cannot be scanned alone on `"@
                + interface_name@ + "`: "@ + reason@,
        AppError::PollWaitFailed { .. } =>
            "failed while waiting for raw packet socket readiness: "@ + source_text,
        AppError::RawPacketReceiveFailed { .. } => "failed to receive raw Ethernet frame: "@
            + source_text,
        AppError::InterfaceEnumerationFailed { .. } => "failed to enumerate network interfaces: "@
            + source_text,
        AppError::AutomaticInterfaceSelectionNoneFound =>
            "no usable network interface was found for automatic selection; specify one explicitly with --interface <NAME>"@,
        AppError::AutomaticInterfaceSelectionAmbiguous { interface_names } =>
            "multiple usable network interfaces were found for automatic selection: "@ + joined(
                string_views(interface_names@),
                ", "@,
            ) + "; specify one explicitly with --interface <NAME>"@,
    }
}

/// Whether `error` carries an underlying input/output error.
pub open spec fn has_input_output_source(error: &AppError) -> bool {
    match error {
        AppError::Io(_) | AppError::InterfaceLookupFailed { .. }
        | AppError::InterfaceFlagsQueryFailed { .. } | AppError::RawSocketOpenFailed { .. }
        | AppError::RawSocketCapabilityRequired { .. } | AppError::BpfDeviceAccessRequired { .. }
        | AppError::SocketBindFailed { .. } | AppError::InterfaceIpv4AddressQueryFailed { .. }
        | AppError::InterfaceIpv4NetmaskQueryFailed { .. }
        | AppError::InterfaceHardwareAddressQueryFailed { .. } | AppError::PollWaitFailed { .. }
        | AppError::RawPacketReceiveFailed { .. } | AppError::InterfaceEnumerationFailed { .. } =>
            true,
        _ => false,
    }
}

impl AppError {
    /// Operator-facing description of this error.
    ///
    /// Every variant reads as [`app_error_text`] states; where the variant carries an underlying
    /// input/output error, that error's own text (which depends on the platform) ends the
    /// description.
    pub fn to_string(&self) -> (text: String)
        ensures
            exists|source_text: Seq<char>| text@ == app_error_text(self, source_text),
            !has_input_output_source(self) ==> text@ == app_error_text(self, Seq::empty()),
    {
        let mut text = String::new();
        match self {
            AppError::Io(error) => {
                push_text(&mut text, "input/output error: ");
                let source_text = input_output_error_text(error);
                push_text(&mut text, source_text.as_str());
                assert(text@ == app_error_text(self, source_text@));
            },
            AppError::UnsupportedPlatform { operating_system } => {
                push_text(
                    &mut text,
                    "this command requires Linux packet sockets; host operating system is ",
                );
                push_text(&mut text, operating_system.as_str());
            },
            AppError::InvalidInterfaceName { message } => {
                push_text(&mut text, "invalid interface name: ");
                push_text(&mut text, message.as_str());
            },
            AppError::InterfaceLookupFailed { interface_name, source } => {
                push_text(&mut text, "failed to look up interface index for `");
                push_text(&mut text, interface_name.as_str());
                push_text(&mut text, "`: ");
                let source_text = input_output_error_text(source);
                push_text(&mut text, source_text.as_str());
                assert(text@ == app_error_text(self, source_text@));
            },
            AppError::InterfaceFlagsQueryFailed { interface_name, source } => {
                push_text(&mut text, "failed to read interface flags for `");
                push_text(&mut text, interface_name.as_str());
                push_text(&mut text, "`: ");
                let source_text = input_output_error_text(source);
                push_text(&mut text, source_text.as_str());
                assert(text@ == app_error_text(self, source_text@));
            },
            AppError::InterfaceRejectedForScanning { interface_name, reason } => {
                push_text(&mut text, "interface `");
                push_text(&mut text, interface_name.as_str());
                push_text(&mut text, "` is not suitable for ARP scanning: ");
                push_text(&mut text, reason.as_str());
            },
            AppError::RawSocketOpenFailed { source } => {
                push_text(&mut text, "failed to open raw packet socket: ");
                let source_text = input_output_error_text(source);
                push_text(&mut text, source_text.as_str());
                assert(text@ == app_error_text(self, source_text@));
            },
            AppError::RawSocketCapabilityRequired { source } => {
                push_text(
                    &mut text,
                    "opening a raw packet socket requires the Linux capability CAP_NET_RAW (or equivalent privileges); permission denied: ",
                );
                let source_text = input_output_error_text(source);
                push_text(&mut text, source_text.as_str());
                assert(text@ == app_error_text(self, source_text@));
            },
            AppError::BpfDeviceAccessRequired { source } => {
                push_text(
                    &mut text,
                    "opening a Berkeley Packet Filter device requires root or BPF access (try running with sudo); permission denied: ",
                );
                let source_text = input_output_error_text(source);
                push_text(&mut text, source_text.as_str());
                assert(text@ == app_error_text(self, source_text@));
            },
            AppError::SocketBindFailed { source } => {
                push_text(&mut text, "failed to bind raw packet socket: ");
                let source_text = input_output_error_text(source);
                push_text(&mut text, source_text.as_str());
                assert(text@ == app_error_text(self, source_text@));
            },
            AppError::InterfaceIpv4AddressQueryFailed { interface_name, source } => {
                push_text(&mut text, "failed to read IPv4 address for `");
                push_text(&mut text, interface_name.as_str());
                push_text(&mut text, "`: ");
                let source_text = input_output_error_text(source);
                push_text(&mut text, source_text.as_str());
                assert(text@ == app_error_text(self, source_text@));
            },
            AppError::InterfaceIpv4NetmaskQueryFailed { interface_name, source } => {
                push_text(&mut text, "failed to read IPv4 netmask for `");
                push_text(&mut text, interface_name.as_str());
                push_text(&mut text, "`: ");
                let source_text = input_output_error_text(source);
                push_text(&mut text, source_text.as_str());
                assert(text@ == app_error_text(self, source_text@));
            },
            AppError::InterfaceHardwareAddressQueryFailed { interface_name, source } => {
                push_text(&mut text, "failed to read hardware address for `");
                push_text(&mut text, interface_name.as_str());
                push_text(&mut text, "`: ");
                let source_text = input_output_error_text(source);
                push_text(&mut text, source_text.as_str());
                assert(text@ == app_error_text(self, source_text@));
            },
            AppError::InterfaceHardwareAddressUnsupported { interface_name, reason } => {
                push_text(&mut text, "hardware address for `");
                push_text(&mut text, interface_name.as_str());
                push_text(&mut text, "` is not supported for ARP scanning: ");
                push_text(&mut text, reason.as_str());
            },
            AppError::InterfaceIpv4AddressInvalidFamily { address_family } => {
                push_text(
                    &mut text,
                    "interface IPv4 address query returned an unexpected address family: ",
                );
                push_decimal(&mut text, *address_family as u128);
            },
            AppError::InterfaceIpv4NetmaskInvalidFamily { interface_name, address_family } => {
                push_text(&mut text, "interface IPv4 netmask query for `");
                push_text(&mut text, interface_name.as_str());
                push_text(&mut text, "` returned an unexpected address family: ");
                push_decimal(&mut text, *address_family as u128);
            },
            AppError::Ipv4NetmaskInvalid { netmask } => {
                push_text(&mut text, "IPv4 netmask `");
                push_text(&mut text, netmask.as_str());
                push_text(&mut text, "` is not a valid contiguous netmask");
            },
            AppError::Ipv4SubnetUnsupported { message } => {
                push_text(&mut text, "IPv4 subnet is not supported for scanning: ");
                push_text(&mut text, message.as_str());
            },
            AppError::Ipv4CidrStringInvalid { source, message } => {
                push_text(&mut text, "invalid IPv4 classless inter-domain routing notation `");
                push_text(&mut text, source.as_str());
                push_text(&mut text, "`: ");
                push_text(&mut text, message.as_str());
            },
            AppError::SingleScanTargetRejected { interface_name, target_ipv4_address, reason } => {
                push_text(&mut text, "IPv4 address `");
                push_text(&mut text, target_ipv4_address.as_str());
                push_text(&mut text, "` cannot be scanned alone on `");
                push_text(&mut text, interface_name.as_str());
                push_text(&mut text, "`: ");
                push_text(&mut text, reason.as_str());
            },
            AppError::PollWaitFailed { source } => {
                push_text(&mut text, "failed while waiting for raw packet socket readiness: ");
                let source_text = input_output_error_text(source);
                push_text(&mut text, source_text.as_str());
                assert(text@ == app_error_text(self, source_text@));
            },
            AppError::RawPacketReceiveFailed { source } => {
                push_text(&mut text, "failed to receive raw Ethernet frame: ");
                let source_text = input_output_error_text(source);
                push_text(&mut text, source_text.as_str());
                assert(text@ == app_error_text(self, source_text@));
            },
            AppError::InterfaceEnumerationFailed { source } => {
                push_text(&mut text, "failed to enumerate network interfaces: ");
                let source_text = input_output_error_text(source);
                push_text(&mut text, source_text.as_str());
                assert(text@ == app_error_text(self, source_text@));
            },
            AppError::AutomaticInterfaceSelectionNoneFound => {
                push_text(
                    &mut text,
                    "no usable network interface was found for automatic selection; specify one explicitly with --interface <NAME>",
                );
            },
            AppError::AutomaticInterfaceSelectionAmbiguous { interface_names } => {
                push_text(
                    &mut text,
                    "multiple usable network interfaces were found for automatic selection: ",
                );
                push_joined(&mut text, interface_names, ", ");
                push_text(&mut text, "; specify one explicitly with --interface <NAME>");
            },
        }
        proof {
            if !has_input_output_source(self) {
                assert(text@ =~= app_error_text(self, Seq::empty()));
            }
        }
        text
    }

    /// The underlying input/output error, for the variants that carry one.
    pub fn source(&self) -> (source: Option<&std::io::Error>)
        ensures
            source is Some <==> has_input_output_source(self),
            match self {
                AppError::Io(error) => source == Some(error),
                AppError::InterfaceLookupFailed { source: inner, .. }
                | AppError::InterfaceFlagsQueryFailed { source: inner, .. }
                | AppError::RawSocketOpenFailed { source: inner }
                | AppError::RawSocketCapabilityRequired { source: inner }
                | AppError::BpfDeviceAccessRequired { source: inner }
                | AppError::SocketBindFailed { source: inner }
                | AppError::InterfaceIpv4AddressQueryFailed { source: inner, .. }
                | AppError::InterfaceIpv4NetmaskQueryFailed { source: inner, .. }
                | AppError::InterfaceHardwareAddressQueryFailed { source: inner, .. }
                | AppError::PollWaitFailed { source: inner }
                | AppError::RawPacketReceiveFailed { source: inner }
                | AppError::InterfaceEnumerationFailed { source: inner } => source == Some(inner),
                _ => source is None,
            },
    {
        match self {
            AppError::Io(error) => Some(error),
            AppError::InterfaceLookupFailed { source, .. }
            | AppError::InterfaceFlagsQueryFailed { source, .. }
            | AppError::RawSocketOpenFailed { source }
            | AppError::RawSocketCapabilityRequired { source }
            | AppError::BpfDeviceAccessRequired { source }
            | AppError::SocketBindFailed { source }
            | AppError::InterfaceIpv4AddressQueryFailed { source, .. }
            | AppError::InterfaceIpv4NetmaskQueryFailed { source, .. }
            | AppError::InterfaceHardwareAddressQueryFailed { source, .. }
            | AppError::PollWaitFailed { source }
            | AppError::RawPacketReceiveFailed { source }
            | AppError::InterfaceEnumerationFailed { source } => Some(source),
            _ => None,
        }
    }

    /// Wraps an input/output error (`From<std::io::Error>`).
    pub fn from(error: std::io::Error) -> (application_error: AppError)
        ensures
            application_error == AppError::Io(error),
    {
        AppError::Io(error)
    }
}

} // verus!
