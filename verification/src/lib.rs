//! Address resolution protocol scanning: link-layer framing, IPv4 subnet arithmetic, scan
//! scheduling, reply bookkeeping and operator-facing text, each stated and proved with Verus.

pub mod text;
pub mod error;
pub mod octets;
pub mod mac_address;
pub mod ethernet_frame;
pub mod address_resolution_protocol;
pub mod ipv4_text;
pub mod ipv4_subnet;
pub mod ipv4_cidr;
pub mod interface_validation;
pub mod link_layer_backend;
pub mod linux_packet;
pub mod linux_socket;
pub mod linux_interface_discovery;

pub mod macos_bpf_socket;
pub mod macos_packet;
pub mod macos_interface_discovery;
pub mod mac_vendor_registry;
pub mod application_command;
pub mod application_outcome;
pub mod scanner;
pub mod scan_schedule;

pub use application_command::{
    ApplicationCommand, DEFAULT_SCAN_ATTEMPTS, DEFAULT_SCAN_PACING, DEFAULT_SCAN_TIMEOUT,
};
pub use application_outcome::{
    ApplicationOutcome, DiscoveredHost, ScanOutcome, ScanTimingSummary, UsableInterfaceListingRow,
    UsableInterfacesListOutcome,
};
pub use error::AppError;
pub use ethernet_frame::Ieee8021qVlanIdentifier;
pub use ipv4_cidr::{Ipv4Cidr, Ipv4HostAddressIterator};
pub use mac_address::{MacAddress, MacAddressParseError};
