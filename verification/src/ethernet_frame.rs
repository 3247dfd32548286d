//! Ethernet II frame encoding and defensive parsing.
//!
//! Encoders return the header octets plus the caller-supplied payload with no automatic
//! minimum-frame padding. The parser distinguishes IEEE 802.3 length fields from Ethernet II
//! `EtherType` values, decodes either a single IEEE 802.1Q customer tag (TPID `0x8100`) or one
//! IEEE 802.1Q service tag (TPID `0x88A8`) wrapping exactly one customer tag, accepts RFC 1042
//! LLC/SNAP encapsulation, and rejects every other tag arrangement so higher layers never misread
//! a shifted layout.

use vstd::prelude::*;

use crate::mac_address::MacAddress;
use crate::octets::{
    be16, lemma_be16_of_u16_octets, push_octets, push_u16_octets, read_be16, u16_octets,
};

verus! {

/// Length of an untagged Ethernet II header (destination, source, `EtherType`).
pub const ETHERNET_II_HEADER_LENGTH: usize = 14;

/// Extra octets added by a single IEEE 802.1Q tag (TPID + TCI).
pub const IEEE_8021Q_TAG_LENGTH: usize = 4;

/// Extra octets added by an IEEE 802.1Q service tag stacked on a customer tag (S-TAG + C-TAG).
pub const IEEE_8021AD_TAG_STACK_LENGTH: usize = IEEE_8021Q_TAG_LENGTH * 2;

/// Length of an IEEE 802.2 LLC header plus RFC 1042 SNAP header (DSAP, SSAP, control, OUI, type).
pub const IEEE_8023_LLC_SNAP_HEADER_LENGTH: usize = 8;

/// IEEE 802.3 maximum MAC client data length; values in `0..=1500` in the length/type field are
/// lengths, not `EtherType` values.
pub const IEEE_8023_MAXIMUM_LENGTH: u16 = 1500;

/// Smallest length/type value that is an Ethernet II `EtherType` (IEEE 802.3 / RFC 5342).
pub const MINIMUM_ETHERNET_II_ETHERTYPE: u16 = 1536;

/// `EtherType` for IEEE 802.1Q VLAN tagging (`ETH_P_8021Q`).
pub const ETHERNET_PROTOCOL_VLAN_TAG: u16 = 0x8100;

/// `EtherType` for IEEE 802.1Q service VLAN tagging / IEEE 802.1ad S-TAG (`ETH_P_8021AD`),
/// registered by IANA as decimal 34984.
pub const ETHERNET_PROTOCOL_VLAN_TAG_SERVICE: u16 = 0x88A8;

/// Unofficial stacked-VLAN TPID `0x9100` still seen on some switches.
pub const ETHERNET_PROTOCOL_VLAN_TAG_QINQ_9100: u16 = 0x9100;

/// Unofficial stacked-VLAN TPID `0x9200` still seen on some switches.
pub const ETHERNET_PROTOCOL_VLAN_TAG_QINQ_9200: u16 = 0x9200;

/// Unofficial stacked-VLAN TPID `0x9300` still seen on some switches.
pub const ETHERNET_PROTOCOL_VLAN_TAG_QINQ_9300: u16 = 0x9300;

/// IEEE 802.1Q VLAN identifier mask (12 bits) applied to the TCI.
pub const IEEE_8021Q_VLAN_IDENTIFIER_MASK: u16 = 0x0FFF;

/// IEEE 802.1Q Priority Code Point bit shift within the Tag Control Information field.
pub const IEEE_8021Q_PRIORITY_CODE_POINT_SHIFT: u16 = 13;

/// IEEE 802.1Q Drop Eligible Indicator bit within the Tag Control Information field.
pub const IEEE_8021Q_DROP_ELIGIBLE_INDICATOR_BIT: u16 = 0x1000;

/// `EtherType` for IPv4 (`ETH_P_IP`).
pub const ETHERNET_PROTOCOL_IPV4: u16 = 0x0800;

/// `EtherType` for address resolution protocol (`ETH_P_ARP`).
pub const ETHERNET_PROTOCOL_ARP: u16 = 0x0806;

/// RFC 1042 LLC DSAP/SSAP value identifying SNAP (`0xAA`).
pub const LLC_SNAP_ADDRESS: u8 = 0xAA;

/// IEEE 802.2 unnumbered-information control value used with SNAP (`0x03`).
pub const LLC_UNNUMBERED_INFORMATION: u8 = 0x03;

/// Rejection message for a frame shorter than an Ethernet II header.
pub const FRAME_TOO_SHORT_MESSAGE: &'static str = "frame is shorter than Ethernet II header";

/// Rejection message for the unofficial vendor `QinQ` TPIDs `0x9100` / `0x9200` / `0x9300`.
pub const UNSUPPORTED_QINQ_TPID_MESSAGE: &'static str = "Ethernet frame uses an unofficial QinQ TPID; only IEEE 802.1Q 0x8100 and 0x88A8 tagging is supported here";

/// Rejection message for a customer tag directly inside another customer tag.
pub const STACKED_CUSTOMER_TAG_MESSAGE: &'static str = "Ethernet frame stacks a VLAN tag inside an IEEE 802.1Q customer tag; only 0x88A8 may wrap 0x8100";

/// Rejection message for a lone customer tag whose fields are cut off.
pub const CUSTOMER_TAG_ALONE_TRUNCATED_MESSAGE: &'static str = "IEEE 802.1Q tag is truncated";

/// Rejection message for a service tag whose Tag Control Information or inner TPID is cut off.
pub const SERVICE_TAG_TRUNCATED_MESSAGE: &'static str = "IEEE 802.1Q service tag is truncated";

/// Rejection message for a customer tag inside a service tag whose fields are cut off.
pub const CUSTOMER_TAG_TRUNCATED_MESSAGE: &'static str =
    "IEEE 802.1Q customer tag inside a service tag is truncated";

/// Rejection message for `0x88A8` that is not followed by a `0x8100` customer tag.
pub const SERVICE_TAG_WITHOUT_CUSTOMER_TAG_MESSAGE: &'static str =
    "IEEE 802.1Q service tag is not followed by an IEEE 802.1Q customer tag";

/// Rejection message for a third tag after a legal service-plus-customer pair.
pub const TAG_STACK_TOO_DEEP_MESSAGE: &'static str =
    "Ethernet frame stacks more than one IEEE 802.1Q service tag and one customer tag";

/// Rejection message for a length/type value between 1501 and 1535.
pub const LENGTH_TYPE_GAP_MESSAGE: &'static str =
    "length/type field is neither an IEEE 802.3 length nor an Ethernet II EtherType";

/// Rejection message for an IEEE 802.3 frame too short for LLC/SNAP.
pub const LLC_SNAP_TRUNCATED_MESSAGE: &'static str = "IEEE 802.3 LLC/SNAP header is truncated";

/// Rejection message for an IEEE 802.3 frame whose LLC header is not SNAP.
pub const NOT_LLC_SNAP_MESSAGE: &'static str = "IEEE 802.3 frame is not RFC 1042 LLC/SNAP";

/// Rejection message for SNAP with an organizationally unique identifier other than zero.
pub const SNAP_NOT_RFC_1042_MESSAGE: &'static str =
    "SNAP organizationally unique identifier is not RFC 1042 Ethernet";

/// A 12-bit IEEE 802.1Q VLAN identifier (`0..=4095`).
///
/// Identifier `0` is the null VID (priority tagging). Identifier `4095` is reserved in IEEE 802.1Q
/// but is still a legal 12-bit TCI field.
#[derive(Debug, Clone, Copy, PartialEq, Eq, Hash)]
pub struct Ieee8021qVlanIdentifier(u16);

impl Ieee8021qVlanIdentifier {
    /// Inclusive maximum 12-bit VLAN identifier.
    pub const MAXIMUM: u16 = IEEE_8021Q_VLAN_IDENTIFIER_MASK;

    #[verifier::type_invariant]
    spec fn fits_twelve_bits(self) -> bool {
        self.0 <= 0x0FFF
    }

    /// The identifier's value.
    pub closed spec fn value(self) -> u16 {
        self.0
    }

    /// Returns a VLAN identifier when `vlan_identifier` fits in 12 bits.
    pub fn new(vlan_identifier: u16) -> (identifier: Option<Ieee8021qVlanIdentifier>)
        ensures
            identifier is Some <==> vlan_identifier <= 0x0FFF,
            identifier matches Some(identifier) ==> identifier.value() == vlan_identifier,
    {
        if vlan_identifier <= Self::MAXIMUM {
            Some(Ieee8021qVlanIdentifier(vlan_identifier))
        } else {
            None
        }
    }

    /// Keeps the low twelve bits of `tag_control_information`.
    pub fn from_tag_control_information(tag_control_information: u16) -> (identifier:
        Ieee8021qVlanIdentifier)
        ensures
            identifier.value() == tag_control_information % 4096,
    {
        let value = tag_control_information & IEEE_8021Q_VLAN_IDENTIFIER_MASK;
        assert(tag_control_information & 0x0FFF == tag_control_information % 4096) by (bit_vector);
        Ieee8021qVlanIdentifier(value)
    }

    /// Returns the 12-bit identifier in host byte order.
    pub fn as_u16(self) -> (value: u16)
        ensures
            value == self.value(),
            value <= 0x0FFF,
    {
        proof {
            use_type_invariant(&self);
        }
        self.0
    }
}

/// A 3-bit IEEE 802.1Q Priority Code Point (`0..=7`).
#[derive(Debug, Clone, Copy, PartialEq, Eq, Hash)]
pub struct Ieee8021qPriorityCodePoint(u8);

impl Ieee8021qPriorityCodePoint {
    /// Inclusive maximum 3-bit Priority Code Point.
    pub const MAXIMUM: u8 = 7;

    #[verifier::type_invariant]
    spec fn fits_three_bits(self) -> bool {
        self.0 <= 7
    }

    /// The priority's value.
    pub closed spec fn value(self) -> u8 {
        self.0
    }

    /// Best-effort / default priority (PCP 0).
    pub fn zero() -> (priority: Ieee8021qPriorityCodePoint)
        ensures
            priority.value() == 0,
    {
        Ieee8021qPriorityCodePoint(0)
    }

    /// Returns a Priority Code Point when `priority_code_point` fits in 3 bits.
    pub fn new(priority_code_point: u8) -> (priority: Option<Ieee8021qPriorityCodePoint>)
        ensures
            priority is Some <==> priority_code_point <= 7,
            priority matches Some(priority) ==> priority.value() == priority_code_point,
    {
        if priority_code_point <= Self::MAXIMUM {
            Some(Ieee8021qPriorityCodePoint(priority_code_point))
        } else {
            None
        }
    }

    /// Returns the 3-bit priority in host byte order.
    pub fn as_u8(self) -> (value: u8)
        ensures
            value == self.value(),
            value <= 7,
    {
        proof {
            use_type_invariant(&self);
        }
        self.0
    }

    /// Keeps the top three bits of `tag_control_information`.
    pub fn from_tag_control_information(tag_control_information: u16) -> (priority:
        Ieee8021qPriorityCodePoint)
        ensures
            priority.value() == tag_control_information / 8192,
    {
        let value = ((tag_control_information >> IEEE_8021Q_PRIORITY_CODE_POINT_SHIFT) & 0b111) as u8;
        assert((tag_control_information >> 13u16) & 7 == tag_control_information / 8192) by (bit_vector);
        Ieee8021qPriorityCodePoint(value)
    }
}

/// Full IEEE 802.1Q Tag Control Information: PCP (3 bits), DEI (1 bit), and VID (12 bits).
#[derive(Debug, Clone, Copy, PartialEq, Eq, Hash)]
pub struct Ieee8021qTagControlInformation {
    /// IEEE 802.1Q Priority Code Point (`0..=7`).
    pub priority_code_point: Ieee8021qPriorityCodePoint,
    /// IEEE 802.1Q Drop Eligible Indicator (formerly CFI).
    pub drop_eligible_indicator: bool,
    /// IEEE 802.1Q VLAN identifier (`0..=4095`).
    pub vlan_identifier: Ieee8021qVlanIdentifier,
}

/// The 16-bit Tag Control Information that PCP, DEI and VID encode to.
pub open spec fn tag_control_information_value(
    priority_code_point: u8,
    drop_eligible_indicator: bool,
    vlan_identifier: u16,
) -> int {
    priority_code_point as int * 8192 + (if drop_eligible_indicator {
        4096int
    } else {
        0int
    }) + vlan_identifier as int
}

impl Ieee8021qTagControlInformation {
    /// The 16-bit field this Tag Control Information encodes to.
    pub open spec fn value(self) -> int {
        tag_control_information_value(
            self.priority_code_point.value(),
            self.drop_eligible_indicator,
            self.vlan_identifier.value(),
        )
    }

    /// Builds Tag Control Information from a VLAN identifier with PCP 0 and DEI 0.
    pub fn from_vlan_identifier(vlan_identifier: Ieee8021qVlanIdentifier) -> (tag:
        Ieee8021qTagControlInformation)
        ensures
            tag.priority_code_point.value() == 0,
            !tag.drop_eligible_indicator,
            tag.vlan_identifier == vlan_identifier,
    {
        Ieee8021qTagControlInformation {
            priority_code_point: Ieee8021qPriorityCodePoint::zero(),
            drop_eligible_indicator: false,
            vlan_identifier,
        }
    }

    /// Builds Tag Control Information from PCP, DEI, and VID.
    pub fn new(
        priority_code_point: Ieee8021qPriorityCodePoint,
        drop_eligible_indicator: bool,
        vlan_identifier: Ieee8021qVlanIdentifier,
    ) -> (tag: Ieee8021qTagControlInformation)
        ensures
            tag.priority_code_point == priority_code_point,
            tag.drop_eligible_indicator == drop_eligible_indicator,
            tag.vlan_identifier == vlan_identifier,
    {
        Ieee8021qTagControlInformation { priority_code_point, drop_eligible_indicator, vlan_identifier }
    }

    /// Encodes PCP, DEI, and VID as a 16-bit TCI in host byte order.
    pub fn as_u16(self) -> (value: u16)
        ensures
            value as int == self.value(),
    {
        let priority = self.priority_code_point.as_u8();
        let identifier = self.vlan_identifier.as_u16();
        let drop_eligible: u16 = if self.drop_eligible_indicator {
            IEEE_8021Q_DROP_ELIGIBLE_INDICATOR_BIT
        } else {
            0
        };
        let encoded = ((priority as u16) << IEEE_8021Q_PRIORITY_CODE_POINT_SHIFT) | drop_eligible
            | identifier;
        let p = priority as u16;
        assert(p <= 7 && identifier <= 0x0FFF && (drop_eligible == 0 || drop_eligible == 0x1000)
            ==> (p << 13u16) | drop_eligible | identifier == p * 8192 + drop_eligible + identifier)
            by (bit_vector);
        encoded
    }

    /// Decodes a 16-bit TCI into PCP, DEI, and VID.
    pub fn from_tag_control_information(tag_control_information: u16) -> (tag:
        Ieee8021qTagControlInformation)
        ensures
            tag.value() == tag_control_information as int,
            tag.priority_code_point.value() == tag_control_information / 8192,
            tag.drop_eligible_indicator == ((tag_control_information / 4096) % 2 == 1),
            tag.vlan_identifier.value() == tag_control_information % 4096,
    {
        let dei = (tag_control_information & IEEE_8021Q_DROP_ELIGIBLE_INDICATOR_BIT) != 0;
        let t = tag_control_information;
        assert((t & 0x1000 != 0) == ((t / 4096) % 2 == 1)) by (bit_vector);
        assert(t as int == (t / 8192) as int * 8192 + (if (t / 4096) % 2 == 1 { 4096int } else { 0int }) + (t % 4096) as int) by (nonlinear_arith);
        Ieee8021qTagControlInformation {
            priority_code_point: Ieee8021qPriorityCodePoint::from_tag_control_information(t),
            drop_eligible_indicator: dei,
            vlan_identifier: Ieee8021qVlanIdentifier::from_tag_control_information(t),
        }
    }

    /// Same as [`Ieee8021qTagControlInformation::from_vlan_identifier`].
    pub fn from(vlan_identifier: Ieee8021qVlanIdentifier) -> (tag: Ieee8021qTagControlInformation)
        ensures
            tag.priority_code_point.value() == 0,
            !tag.drop_eligible_indicator,
            tag.vlan_identifier == vlan_identifier,
    {
        Self::from_vlan_identifier(vlan_identifier)
    }
}

} // verus!

verus! {

/// The VLAN tags carried by one frame: a lone IEEE 802.1Q customer tag (TPID `0x8100`), or an
/// IEEE 802.1Q service tag (TPID `0x88A8`) wrapping exactly one customer tag.
#[derive(Debug, Clone, Copy, PartialEq, Eq, Hash)]
pub enum Ieee8021qTagStack {
    /// One customer tag (C-TAG), TPID `0x8100`.
    Customer(Ieee8021qTagControlInformation),
    /// One service tag (S-TAG, TPID `0x88A8`) followed by one customer tag (C-TAG, TPID `0x8100`).
    ServiceAndCustomer {
        /// Outer service Tag Control Information.
        service: Ieee8021qTagControlInformation,
        /// Inner customer Tag Control Information.
        customer: Ieee8021qTagControlInformation,
    },
}

/// The octets a tag stack occupies after the source address.
pub open spec fn tag_stack_octets(tags: Ieee8021qTagStack) -> Seq<u8> {
    match tags {
        Ieee8021qTagStack::Customer(customer) => u16_octets(ETHERNET_PROTOCOL_VLAN_TAG) + u16_octets(
            customer.value() as u16,
        ),
        Ieee8021qTagStack::ServiceAndCustomer { service, customer } => u16_octets(
            ETHERNET_PROTOCOL_VLAN_TAG_SERVICE,
        ) + u16_octets(service.value() as u16) + u16_octets(ETHERNET_PROTOCOL_VLAN_TAG)
            + u16_octets(customer.value() as u16),
    }
}

/// The octets an optional tag stack occupies after the source address.
pub open spec fn optional_tag_stack_octets(tags: Option<Ieee8021qTagStack>) -> Seq<u8> {
    match tags {
        Some(tags) => tag_stack_octets(tags),
        None => Seq::<u8>::empty(),
    }
}

impl Ieee8021qTagStack {
    /// The service Tag Control Information, when there is one.
    pub open spec fn service(self) -> Option<Ieee8021qTagControlInformation> {
        match self {
            Ieee8021qTagStack::Customer(_) => None,
            Ieee8021qTagStack::ServiceAndCustomer { service, .. } => Some(service),
        }
    }

    /// The customer Tag Control Information.
    pub open spec fn customer(self) -> Ieee8021qTagControlInformation {
        match self {
            Ieee8021qTagStack::Customer(customer) => customer,
            Ieee8021qTagStack::ServiceAndCustomer { customer, .. } => customer,
        }
    }

    /// Builds the stack from an optional service TCI and a required customer TCI.
    pub fn new(
        service: Option<Ieee8021qTagControlInformation>,
        customer: Ieee8021qTagControlInformation,
    ) -> (tags: Ieee8021qTagStack)
        ensures
            tags.service() == service,
            tags.customer() == customer,
    {
        match service {
            Some(service) => Ieee8021qTagStack::ServiceAndCustomer { service, customer },
            None => Ieee8021qTagStack::Customer(customer),
        }
    }

    /// Same as [`Ieee8021qTagStack::new`] with no service tag.
    pub fn from(customer: Ieee8021qTagControlInformation) -> (tags: Ieee8021qTagStack)
        ensures
            tags == Ieee8021qTagStack::Customer(customer),
    {
        Ieee8021qTagStack::Customer(customer)
    }

    /// Returns the outer service Tag Control Information, when the stack carries an S-TAG.
    pub fn service_tag_control_information(self) -> (service: Option<
        Ieee8021qTagControlInformation,
    >)
        ensures
            service == self.service(),
    {
        match self {
            Ieee8021qTagStack::Customer(_) => None,
            Ieee8021qTagStack::ServiceAndCustomer { service, .. } => Some(service),
        }
    }

    /// Returns the inner customer Tag Control Information, which is always present.
    pub fn customer_tag_control_information(self) -> (customer: Ieee8021qTagControlInformation)
        ensures
            customer == self.customer(),
    {
        match self {
            Ieee8021qTagStack::Customer(customer) => customer,
            Ieee8021qTagStack::ServiceAndCustomer { customer, .. } => customer,
        }
    }

    /// Octets this stack adds to an Ethernet header.
    pub fn encoded_octet_count(self) -> (count: usize)
        ensures
            count == tag_stack_octets(self).len(),
            count == (if self is Customer {
                IEEE_8021Q_TAG_LENGTH
            } else {
                IEEE_8021AD_TAG_STACK_LENGTH
            }),
    {
        match self {
            Ieee8021qTagStack::Customer(_) => IEEE_8021Q_TAG_LENGTH,
            Ieee8021qTagStack::ServiceAndCustomer { .. } => IEEE_8021AD_TAG_STACK_LENGTH,
        }
    }

    /// Returns the outermost TPID this stack puts in the length/type field at offset 12.
    pub fn outer_tag_protocol_identifier(self) -> (tag_protocol_identifier: u16)
        ensures
            tag_protocol_identifier == (if self is Customer {
                ETHERNET_PROTOCOL_VLAN_TAG
            } else {
                ETHERNET_PROTOCOL_VLAN_TAG_SERVICE
            }),
            u16_octets(tag_protocol_identifier) == tag_stack_octets(self).subrange(0, 2),
    {
        let tpid = match self {
            Ieee8021qTagStack::Customer(_) => ETHERNET_PROTOCOL_VLAN_TAG,
            Ieee8021qTagStack::ServiceAndCustomer { .. } => ETHERNET_PROTOCOL_VLAN_TAG_SERVICE,
        };
        assert(u16_octets(tpid) =~= tag_stack_octets(self).subrange(0, 2));
        tpid
    }
}

/// How the payload following the MAC addresses is framed.
#[derive(Debug, Clone, Copy, PartialEq, Eq)]
pub enum EthernetFraming {
    /// Ethernet II: length/type field is an `EtherType` (`>= 1536`).
    EthernetIi,
    /// IEEE 802.3 length field plus RFC 1042 LLC/SNAP.
    Ieee8023LlcSnap,
}

/// The RFC 1042 LLC/SNAP header for `ether_type`.
pub open spec fn llc_snap_octets(ether_type: u16) -> Seq<u8> {
    seq![LLC_SNAP_ADDRESS, LLC_SNAP_ADDRESS, LLC_UNNUMBERED_INFORMATION, 0u8, 0u8, 0u8] + u16_octets(
        ether_type,
    )
}

/// An Ethernet II frame: destination, source, optional tag stack, `EtherType`, payload.
pub open spec fn ethernet_ii_frame(
    destination: Seq<u8>,
    source: Seq<u8>,
    tags: Option<Ieee8021qTagStack>,
    ether_type: u16,
    payload: Seq<u8>,
) -> Seq<u8> {
    destination + source + optional_tag_stack_octets(tags) + u16_octets(ether_type) + payload
}

/// The IEEE 802.3 length field an RFC 1042 frame carries for `payload_length` octets of payload:
/// LLC + SNAP + payload, clamped to [`IEEE_8023_MAXIMUM_LENGTH`] when it exceeds that maximum.
pub open spec fn llc_snap_length_field(payload_length: nat) -> u16 {
    if IEEE_8023_LLC_SNAP_HEADER_LENGTH + payload_length <= IEEE_8023_MAXIMUM_LENGTH {
        (IEEE_8023_LLC_SNAP_HEADER_LENGTH + payload_length) as u16
    } else {
        IEEE_8023_MAXIMUM_LENGTH
    }
}

/// An IEEE 802.3 frame with RFC 1042 LLC/SNAP: destination, source, optional tag stack, length,
/// LLC/SNAP, payload.
pub open spec fn llc_snap_frame(
    destination: Seq<u8>,
    source: Seq<u8>,
    tags: Option<Ieee8021qTagStack>,
    ether_type: u16,
    payload: Seq<u8>,
) -> Seq<u8> {
    destination + source + optional_tag_stack_octets(tags) + u16_octets(
        llc_snap_length_field(payload.len()),
    ) + llc_snap_octets(ether_type) + payload
}

fn push_tag_stack(frame: &mut Vec<u8>, tags: Ieee8021qTagStack)
    ensures
        final(frame)@ == old(frame)@ + tag_stack_octets(tags),
{
    push_u16_octets(frame, tags.outer_tag_protocol_identifier());
    match tags.service_tag_control_information() {
        Some(service) => {
            push_u16_octets(frame, service.as_u16());
            push_u16_octets(frame, ETHERNET_PROTOCOL_VLAN_TAG);
        },
        None => {},
    }
    push_u16_octets(frame, tags.customer_tag_control_information().as_u16());
    assert(final(frame)@ =~= old(frame)@ + tag_stack_octets(tags));
}

/// Builds an Ethernet II frame with exactly `ETHERNET_II_HEADER_LENGTH + payload.len()` octets.
///
/// No minimum-frame padding is applied; callers that require the IEEE 802.3 minimum must pad.
pub fn encode_ethernet_ii_frame(
    destination: MacAddress,
    source: MacAddress,
    ether_type: u16,
    payload: &[u8],
) -> (frame: Vec<u8>)
    ensures
        frame@ == ethernet_ii_frame(destination@, source@, None, ether_type, payload@),
{
    let mut frame: Vec<u8> = Vec::new();
    let destination_octets = destination.octets();
    let source_octets = source.octets();
    push_octets(&mut frame, &destination_octets);
    push_octets(&mut frame, &source_octets);
    push_u16_octets(&mut frame, ether_type);
    push_octets(&mut frame, payload);
    assert(frame@ =~= ethernet_ii_frame(destination@, source@, None, ether_type, payload@));
    frame
}

/// Builds an Ethernet II frame, inserting the IEEE 802.1Q tag stack, when there is one, after the
/// source address. No minimum-frame padding is applied.
pub fn encode_ethernet_ii_frame_with_optional_ieee_8021q_tag(
    destination: MacAddress,
    source: MacAddress,
    vlan_tag: Option<Ieee8021qTagStack>,
    ether_type: u16,
    payload: &[u8],
) -> (frame: Vec<u8>)
    ensures
        frame@ == ethernet_ii_frame(destination@, source@, vlan_tag, ether_type, payload@),
{
    let mut frame: Vec<u8> = Vec::new();
    let destination_octets = destination.octets();
    let source_octets = source.octets();
    push_octets(&mut frame, &destination_octets);
    push_octets(&mut frame, &source_octets);
    match vlan_tag {
        Some(tags) => push_tag_stack(&mut frame, tags),
        None => {},
    }
    push_u16_octets(&mut frame, ether_type);
    push_octets(&mut frame, payload);
    assert(frame@ =~= ethernet_ii_frame(destination@, source@, vlan_tag, ether_type, payload@));
    frame
}

/// Builds an IEEE 802.3 frame with RFC 1042 LLC/SNAP encapsulation and an optional IEEE 802.1Q tag
/// stack. The length field counts LLC + SNAP + payload (tags sit before it and are not counted)
/// and is clamped to [`IEEE_8023_MAXIMUM_LENGTH`] when that count exceeds it. No minimum-frame
/// padding is applied.
pub fn encode_ieee_8023_rfc_1042_llc_snap_frame(
    destination: MacAddress,
    source: MacAddress,
    vlan_tag: Option<Ieee8021qTagStack>,
    ether_type: u16,
    payload: &[u8],
) -> (frame: Vec<u8>)
    ensures
        frame@ == llc_snap_frame(destination@, source@, vlan_tag, ether_type, payload@),
{
    let length_field: u16 = if payload.len() <= (IEEE_8023_MAXIMUM_LENGTH as usize) - IEEE_8023_LLC_SNAP_HEADER_LENGTH {
        (IEEE_8023_LLC_SNAP_HEADER_LENGTH + payload.len()) as u16
    } else {
        IEEE_8023_MAXIMUM_LENGTH
    };
    let mut frame: Vec<u8> = Vec::new();
    let destination_octets = destination.octets();
    let source_octets = source.octets();
    push_octets(&mut frame, &destination_octets);
    push_octets(&mut frame, &source_octets);
    match vlan_tag {
        Some(tags) => push_tag_stack(&mut frame, tags),
        None => {},
    }
    push_u16_octets(&mut frame, length_field);
    frame.push(LLC_SNAP_ADDRESS);
    frame.push(LLC_SNAP_ADDRESS);
    frame.push(LLC_UNNUMBERED_INFORMATION);
    frame.push(0);
    frame.push(0);
    frame.push(0);
    push_u16_octets(&mut frame, ether_type);
    push_octets(&mut frame, payload);
    assert(frame@ =~= llc_snap_frame(destination@, source@, vlan_tag, ether_type, payload@));
    frame
}

} // verus!

verus! {

/// What the parser reads from a frame besides its addresses: the raw Tag Control Information of
/// the service and customer tags, the inner `EtherType`, the framing, and where the payload
/// starts.
pub struct EthernetFrameLayout {
    pub service_tag: Option<u16>,
    pub customer_tag: Option<u16>,
    pub ether_type: u16,
    pub framing: EthernetFraming,
    pub payload_start: nat,
}

/// The unofficial vendor stacked-VLAN TPIDs.
pub open spec fn is_unofficial_vlan_tpid(type_or_length: u16) -> bool {
    type_or_length == ETHERNET_PROTOCOL_VLAN_TAG_QINQ_9100 || type_or_length
        == ETHERNET_PROTOCOL_VLAN_TAG_QINQ_9200 || type_or_length
        == ETHERNET_PROTOCOL_VLAN_TAG_QINQ_9300
}

/// Any TPID that would open another tag.
pub open spec fn is_any_vlan_tpid(type_or_length: u16) -> bool {
    type_or_length == ETHERNET_PROTOCOL_VLAN_TAG || type_or_length
        == ETHERNET_PROTOCOL_VLAN_TAG_SERVICE || is_unofficial_vlan_tpid(type_or_length)
}

/// Decodes the optional tag stack after the source address of `s` (at least 14 octets long):
/// the service and customer TCIs, the length/type field after them and its offset.
pub open spec fn decode_tag_stack(s: Seq<u8>) -> Result<(Option<u16>, Option<u16>, u16, nat), &'static str> {
    let type_or_length = be16(s, 12);
    if is_unofficial_vlan_tpid(type_or_length) {
        Err(UNSUPPORTED_QINQ_TPID_MESSAGE)
    } else if type_or_length == ETHERNET_PROTOCOL_VLAN_TAG_SERVICE {
        if s.len() < 18 {
            Err(SERVICE_TAG_TRUNCATED_MESSAGE)
        } else if be16(s, 16) != ETHERNET_PROTOCOL_VLAN_TAG {
            Err(SERVICE_TAG_WITHOUT_CUSTOMER_TAG_MESSAGE)
        } else if s.len() < 22 {
            Err(CUSTOMER_TAG_TRUNCATED_MESSAGE)
        } else if is_any_vlan_tpid(be16(s, 20)) {
            Err(TAG_STACK_TOO_DEEP_MESSAGE)
        } else {
            Ok((Some(be16(s, 14)), Some(be16(s, 18)), be16(s, 20), 22))
        }
    } else if type_or_length == ETHERNET_PROTOCOL_VLAN_TAG {
        if s.len() < 18 {
            Err(CUSTOMER_TAG_ALONE_TRUNCATED_MESSAGE)
        } else if is_any_vlan_tpid(be16(s, 16)) {
            Err(STACKED_CUSTOMER_TAG_MESSAGE)
        } else {
            Ok((None, Some(be16(s, 14)), be16(s, 16), 18))
        }
    } else {
        Ok((None, None, type_or_length, 14))
    }
}

/// Decodes the length/type field `type_or_length` whose payload starts at `start`: an `EtherType`,
/// or an IEEE 802.3 length introducing RFC 1042 LLC/SNAP.
pub open spec fn decode_ether_type(s: Seq<u8>, type_or_length: u16, start: nat) -> Result<(u16, nat, EthernetFraming), &'static str> {
    if type_or_length >= MINIMUM_ETHERNET_II_ETHERTYPE {
        Ok((type_or_length, start, EthernetFraming::EthernetIi))
    } else if type_or_length > IEEE_8023_MAXIMUM_LENGTH {
        Err(LENGTH_TYPE_GAP_MESSAGE)
    } else if s.len() < start + 8 {
        Err(LLC_SNAP_TRUNCATED_MESSAGE)
    } else if s[start as int] != LLC_SNAP_ADDRESS || s[start as int + 1] != LLC_SNAP_ADDRESS
        || s[start as int + 2] != LLC_UNNUMBERED_INFORMATION {
        Err(NOT_LLC_SNAP_MESSAGE)
    } else if s[start as int + 3] != 0 || s[start as int + 4] != 0 || s[start as int + 5] != 0 {
        Err(SNAP_NOT_RFC_1042_MESSAGE)
    } else {
        Ok((be16(s, start as int + 6), start + 8, EthernetFraming::Ieee8023LlcSnap))
    }
}

/// How the parser reads `s`, or the message it rejects `s` with.
pub open spec fn parse_ethernet_frame(s: Seq<u8>) -> Result<EthernetFrameLayout, &'static str> {
    if s.len() < ETHERNET_II_HEADER_LENGTH {
        Err(FRAME_TOO_SHORT_MESSAGE)
    } else {
        match decode_tag_stack(s) {
            Err(message) => Err(message),
            Ok((service_tag, customer_tag, type_or_length, start)) => match decode_ether_type(
                s,
                type_or_length,
                start,
            ) {
                Err(message) => Err(message),
                Ok((ether_type, payload_start, framing)) => Ok(
                    EthernetFrameLayout {
                        service_tag,
                        customer_tag,
                        ether_type,
                        framing,
                        payload_start,
                    },
                ),
            },
        }
    }
}

/// A borrowed view of a parsed Ethernet frame after optional 802.1Q and LLC/SNAP decoding.
#[derive(Debug, Clone, Copy, PartialEq, Eq)]
pub struct ParsedEthernetFrame<'a> {
    /// Destination hardware address.
    pub destination: MacAddress,
    /// Source hardware address.
    pub source: MacAddress,
    /// Inner `EtherType` in host byte order (after stripping tags and/or SNAP).
    pub ether_type: u16,
    /// IEEE 802.1Q service Tag Control Information when an outer S-TAG (TPID `0x88A8`) was
    /// present. Always accompanied by [`Self::vlan_tag`]; an S-TAG alone does not parse.
    pub service_vlan_tag: Option<Ieee8021qTagControlInformation>,
    /// IEEE 802.1Q customer Tag Control Information when a customer tag (TPID `0x8100`) was
    /// present, whether alone or inside a service tag.
    pub vlan_tag: Option<Ieee8021qTagControlInformation>,
    /// Customer IEEE 802.1Q VLAN identifier when a customer tag was present (low 12 TCI bits).
    pub vlan_identifier: Option<u16>,
    /// Framing used to reach [`Self::ether_type`].
    pub framing: EthernetFraming,
    /// Payload following the decoded headers (may be empty).
    pub payload: &'a [u8],
}

/// `tag` decodes the raw Tag Control Information `raw`.
pub open spec fn decodes_tag(tag: Option<Ieee8021qTagControlInformation>, raw: Option<u16>) -> bool {
    match (tag, raw) {
        (None, None) => true,
        (Some(tag), Some(raw)) => tag.value() == raw as int && tag.priority_code_point.value() <= 7
            && tag.vlan_identifier.value() <= 0x0FFF,
        _ => false,
    }
}

/// `parsed` is what the parser returns for frame `s` read as `layout`.
pub open spec fn parsed_matches(parsed: ParsedEthernetFrame, s: Seq<u8>, layout: EthernetFrameLayout) -> bool {
    &&& parsed.destination@ == s.subrange(0, 6)
    &&& parsed.source@ == s.subrange(6, 12)
    &&& parsed.ether_type == layout.ether_type
    &&& decodes_tag(parsed.service_vlan_tag, layout.service_tag)
    &&& decodes_tag(parsed.vlan_tag, layout.customer_tag)
    &&& parsed.vlan_identifier == (match layout.customer_tag {
        Some(raw) => Some((raw % 4096) as u16),
        None => None,
    })
    &&& parsed.framing == layout.framing
    &&& layout.payload_start <= s.len()
    &&& parsed.payload@ == s.subrange(layout.payload_start as int, s.len() as int)
}

fn is_unsupported_vlan_tpid(type_or_length: u16) -> (result: bool)
    ensures
        result == is_unofficial_vlan_tpid(type_or_length),
{
    type_or_length == ETHERNET_PROTOCOL_VLAN_TAG_QINQ_9100 || type_or_length
        == ETHERNET_PROTOCOL_VLAN_TAG_QINQ_9200 || type_or_length
        == ETHERNET_PROTOCOL_VLAN_TAG_QINQ_9300
}

fn decode_optional_ieee_8021q_tag_stack(frame_slice: &[u8]) -> (decoded: Result<
    (Option<Ieee8021qTagStack>, u16, usize),
    &'static str,
>)
    requires
        frame_slice@.len() >= ETHERNET_II_HEADER_LENGTH,
    ensures
        match decode_tag_stack(frame_slice@) {
            Err(message) => decoded == Err::<(Option<Ieee8021qTagStack>, u16, usize), &'static str>(message),
            Ok((service, customer, type_or_length, start)) => decoded matches Ok((tags, t, st)) && t
                == type_or_length && st == start && match tags {
                None => service is None && customer is None,
                Some(tags) => decodes_tag(tags.service(), service) && decodes_tag(
                    Some(tags.customer()),
                    customer,
                ),
            },
        },
{
    let type_or_length = read_be16(frame_slice, 12);
    if is_unsupported_vlan_tpid(type_or_length) {
        return Err(UNSUPPORTED_QINQ_TPID_MESSAGE);
    }
    if type_or_length == ETHERNET_PROTOCOL_VLAN_TAG_SERVICE {
        if frame_slice.len() < 18 {
            return Err(SERVICE_TAG_TRUNCATED_MESSAGE);
        }
        let service_raw = read_be16(frame_slice, 14);
        if read_be16(frame_slice, 16) != ETHERNET_PROTOCOL_VLAN_TAG {
            return Err(SERVICE_TAG_WITHOUT_CUSTOMER_TAG_MESSAGE);
        }
        if frame_slice.len() < 22 {
            return Err(CUSTOMER_TAG_TRUNCATED_MESSAGE);
        }
        let customer_raw = read_be16(frame_slice, 18);
        let inner = read_be16(frame_slice, 20);
        if inner == ETHERNET_PROTOCOL_VLAN_TAG || inner == ETHERNET_PROTOCOL_VLAN_TAG_SERVICE
            || is_unsupported_vlan_tpid(inner) {
            return Err(TAG_STACK_TOO_DEEP_MESSAGE);
        }
        let service = Ieee8021qTagControlInformation::from_tag_control_information(service_raw);
        let customer = Ieee8021qTagControlInformation::from_tag_control_information(customer_raw);
        return Ok((Some(Ieee8021qTagStack::ServiceAndCustomer { service, customer }), inner, 22));
    }
    if type_or_length != ETHERNET_PROTOCOL_VLAN_TAG {
        return Ok((None, type_or_length, ETHERNET_II_HEADER_LENGTH));
    }
    if frame_slice.len() < 18 {
        return Err(CUSTOMER_TAG_ALONE_TRUNCATED_MESSAGE);
    }
    let customer_raw = read_be16(frame_slice, 14);
    let inner = read_be16(frame_slice, 16);
    if inner == ETHERNET_PROTOCOL_VLAN_TAG || inner == ETHERNET_PROTOCOL_VLAN_TAG_SERVICE
        || is_unsupported_vlan_tpid(inner) {
        return Err(STACKED_CUSTOMER_TAG_MESSAGE);
    }
    let customer = Ieee8021qTagControlInformation::from_tag_control_information(customer_raw);
    Ok((Some(Ieee8021qTagStack::Customer(customer)), inner, 18))
}

fn decode_ethertype_or_ieee_8023_snap(
    frame_slice: &[u8],
    type_or_length: u16,
    payload_start: usize,
) -> (decoded: Result<(u16, usize, EthernetFraming), &'static str>)
    requires
        payload_start <= frame_slice@.len(),
    ensures
        match decode_ether_type(frame_slice@, type_or_length, payload_start as nat) {
            Err(message) => decoded == Err::<(u16, usize, EthernetFraming), &'static str>(message),
            Ok((ether_type, start, framing)) => decoded == Ok::<(u16, usize, EthernetFraming), &'static str>((ether_type, start as usize, framing)),
        },
{
    if type_or_length >= MINIMUM_ETHERNET_II_ETHERTYPE {
        return Ok((type_or_length, payload_start, EthernetFraming::EthernetIi));
    }
    if type_or_length > IEEE_8023_MAXIMUM_LENGTH {
        return Err(LENGTH_TYPE_GAP_MESSAGE);
    }
    decode_rfc_1042_llc_snap(frame_slice, payload_start)
}

fn decode_rfc_1042_llc_snap(frame_slice: &[u8], payload_start: usize) -> (decoded: Result<
    (u16, usize, EthernetFraming),
    &'static str,
>)
    requires
        payload_start <= frame_slice@.len(),
    ensures
        ({
            let s = frame_slice@;
            let start = payload_start as int;
            if s.len() < start + 8 {
                decoded == Err::<(u16, usize, EthernetFraming), &'static str>(LLC_SNAP_TRUNCATED_MESSAGE)
            } else if s[start] != LLC_SNAP_ADDRESS || s[start + 1] != LLC_SNAP_ADDRESS || s[start + 2]
                != LLC_UNNUMBERED_INFORMATION {
                decoded == Err::<(u16, usize, EthernetFraming), &'static str>(NOT_LLC_SNAP_MESSAGE)
            } else if s[start + 3] != 0 || s[start + 4] != 0 || s[start + 5] != 0 {
                decoded == Err::<(u16, usize, EthernetFraming), &'static str>(SNAP_NOT_RFC_1042_MESSAGE)
            } else {
                decoded == Ok::<(u16, usize, EthernetFraming), &'static str>((be16(s, start + 6), (start + 8) as usize, EthernetFraming::Ieee8023LlcSnap))
            }
        }),
{
    if frame_slice.len() - payload_start < IEEE_8023_LLC_SNAP_HEADER_LENGTH {
        return Err(LLC_SNAP_TRUNCATED_MESSAGE);
    }
    if frame_slice[payload_start] != LLC_SNAP_ADDRESS || frame_slice[payload_start + 1]
        != LLC_SNAP_ADDRESS || frame_slice[payload_start + 2] != LLC_UNNUMBERED_INFORMATION {
        return Err(NOT_LLC_SNAP_MESSAGE);
    }
    if frame_slice[payload_start + 3] != 0 || frame_slice[payload_start + 4] != 0
        || frame_slice[payload_start + 5] != 0 {
        return Err(SNAP_NOT_RFC_1042_MESSAGE);
    }
    let ether_type = read_be16(frame_slice, payload_start + 6);
    Ok((ether_type, payload_start + IEEE_8023_LLC_SNAP_HEADER_LENGTH, EthernetFraming::Ieee8023LlcSnap))
}

/// Parses destination, source, and the payload after Ethernet II, an optional IEEE 802.1Q tag
/// stack, and optional RFC 1042 LLC/SNAP headers.
///
/// Exactly two tag arrangements are accepted: one customer tag (TPID `0x8100`), or one service tag
/// (TPID `0x88A8`) immediately followed by one customer tag. Every other arrangement is rejected
/// so the inner `EtherType` is never read from the wrong offset. IEEE 802.3 length values that do
/// not introduce RFC 1042 SNAP are rejected.
pub fn try_parse_ethernet_frame(frame_slice: &[u8]) -> (parsed: Result<ParsedEthernetFrame<'_>, &'static str>)
    ensures
        match parse_ethernet_frame(frame_slice@) {
            Err(message) => parsed matches Err(m) && m == message,
            Ok(layout) => parsed matches Ok(p) && parsed_matches(p, frame_slice@, layout),
        },
{
    if frame_slice.len() < ETHERNET_II_HEADER_LENGTH {
        return Err(FRAME_TOO_SHORT_MESSAGE);
    }
    let destination_octets: [u8; 6] = [
        frame_slice[0],
        frame_slice[1],
        frame_slice[2],
        frame_slice[3],
        frame_slice[4],
        frame_slice[5],
    ];
    let source_octets: [u8; 6] = [
        frame_slice[6],
        frame_slice[7],
        frame_slice[8],
        frame_slice[9],
        frame_slice[10],
        frame_slice[11],
    ];
    let (vlan_tag, inner_type_or_length, payload_start) = match decode_optional_ieee_8021q_tag_stack(frame_slice) {
        Ok(decoded) => decoded,
        Err(message) => {
            return Err(message);
        },
    };
    let (ether_type, payload_start, framing) = match decode_ethertype_or_ieee_8023_snap(
        frame_slice,
        inner_type_or_length,
        payload_start,
    ) {
        Ok(decoded) => decoded,
        Err(message) => {
            return Err(message);
        },
    };
    let (service_vlan_tag, customer_tag) = match vlan_tag {
        Some(tags) => (tags.service_tag_control_information(), Some(tags.customer_tag_control_information())),
        None => (None, None),
    };
    let vlan_identifier = match customer_tag {
        Some(tag) => Some(tag.vlan_identifier.as_u16()),
        None => None,
    };
    let destination = MacAddress::from_octets(destination_octets);
    let source = MacAddress::from_octets(source_octets);
    assert(destination@ =~= frame_slice@.subrange(0, 6));
    assert(source@ =~= frame_slice@.subrange(6, 12));
    let payload = vstd::slice::slice_subrange(frame_slice, payload_start, frame_slice.len());
    Ok(ParsedEthernetFrame {
        destination,
        source,
        ether_type,
        service_vlan_tag,
        vlan_tag: customer_tag,
        vlan_identifier,
        framing,
        payload,
    })
}


/// Priority and identifier fit their fields, as every value of the two types does.
pub open spec fn tag_control_information_is_valid(tag: Ieee8021qTagControlInformation) -> bool {
    tag.priority_code_point.value() <= 7 && tag.vlan_identifier.value() <= 0x0FFF
}

/// Every Tag Control Information of a stack fits its fields.
pub open spec fn tag_stack_is_valid(tags: Option<Ieee8021qTagStack>) -> bool {
    match tags {
        None => true,
        Some(tags) => tag_control_information_is_valid(tags.customer()) && match tags.service() {
            Some(service) => tag_control_information_is_valid(service),
            None => true,
        },
    }
}

/// The raw service Tag Control Information a stack puts on the wire.
pub open spec fn raw_service_tag(tags: Option<Ieee8021qTagStack>) -> Option<u16> {
    match tags {
        Some(tags) => match tags.service() {
            Some(service) => Some(service.value() as u16),
            None => None,
        },
        None => None,
    }
}

/// The raw customer Tag Control Information a stack puts on the wire.
pub open spec fn raw_customer_tag(tags: Option<Ieee8021qTagStack>) -> Option<u16> {
    match tags {
        Some(tags) => Some(tags.customer().value() as u16),
        None => None,
    }
}

/// A Tag Control Information is determined by the 16-bit field it encodes to: decoding the
/// field of a tag gives that tag back.
pub proof fn lemma_tag_control_information_round_trip(
    tag: Ieee8021qTagControlInformation,
    decoded: Ieee8021qTagControlInformation,
)
    requires
        tag_control_information_is_valid(tag),
        tag_control_information_is_valid(decoded),
        decoded.value() == tag.value(),
    ensures
        decoded == tag,
        0 <= tag.value() <= 0xFFFF,
{
    let a = tag.priority_code_point.0 as int;
    let b = decoded.priority_code_point.0 as int;
    let i = tag.vlan_identifier.0 as int;
    let j = decoded.vlan_identifier.0 as int;
    assert(a == b && i == j && tag.drop_eligible_indicator == decoded.drop_eligible_indicator);
}

proof fn lemma_tag_value_fits(tag: Ieee8021qTagControlInformation)
    requires
        tag_control_information_is_valid(tag),
    ensures
        0 <= tag.value() <= 0xFFFF,
        tag.value() as u16 as int == tag.value(),
{
}


/// Where the payload of a frame starts: after the addresses, the tags and the length/type field.
pub open spec fn header_length(tags: Option<Ieee8021qTagStack>) -> nat {
    (ETHERNET_II_HEADER_LENGTH + optional_tag_stack_octets(tags).len()) as nat
}

/// How the parser reads a frame that carries `tags` and then a length/type field worth
/// `type_or_length`, followed by `rest`.
proof fn lemma_decode_encoded_tag_stack(
    addresses: Seq<u8>,
    tags: Option<Ieee8021qTagStack>,
    type_or_length: u16,
    rest: Seq<u8>,
)
    requires
        addresses.len() == 12,
        tag_stack_is_valid(tags),
        !is_any_vlan_tpid(type_or_length),
    ensures
        ({
            let frame = addresses + optional_tag_stack_octets(tags) + u16_octets(type_or_length)
                + rest;
            &&& frame.len() >= ETHERNET_II_HEADER_LENGTH
            &&& decode_tag_stack(frame) == Ok::<(Option<u16>, Option<u16>, u16, nat), &'static str>(
                (raw_service_tag(tags), raw_customer_tag(tags), type_or_length, header_length(tags)),
            )
        }),
{
    let frame = addresses + optional_tag_stack_octets(tags) + u16_octets(type_or_length) + rest;
    match tags {
        None => {
            assert(frame =~= addresses + u16_octets(type_or_length) + rest);
            lemma_be16_of_u16_octets(addresses, type_or_length, rest);
        },
        Some(Ieee8021qTagStack::Customer(customer)) => {
            lemma_tag_value_fits(customer);
            let c = customer.value() as u16;
            let tail = u16_octets(c) + u16_octets(type_or_length) + rest;
            assert(frame =~= addresses + u16_octets(ETHERNET_PROTOCOL_VLAN_TAG) + tail);
            lemma_be16_of_u16_octets(addresses, ETHERNET_PROTOCOL_VLAN_TAG, tail);
            let p1 = addresses + u16_octets(ETHERNET_PROTOCOL_VLAN_TAG);
            assert(frame =~= p1 + u16_octets(c) + (u16_octets(type_or_length) + rest));
            lemma_be16_of_u16_octets(p1, c, u16_octets(type_or_length) + rest);
            let p2 = p1 + u16_octets(c);
            assert(frame =~= p2 + u16_octets(type_or_length) + rest);
            lemma_be16_of_u16_octets(p2, type_or_length, rest);
        },
        Some(Ieee8021qTagStack::ServiceAndCustomer { service, customer }) => {
            lemma_tag_value_fits(customer);
            lemma_tag_value_fits(service);
            let c = customer.value() as u16;
            let v = service.value() as u16;
            let p0 = addresses;
            let p1 = p0 + u16_octets(ETHERNET_PROTOCOL_VLAN_TAG_SERVICE);
            let p2 = p1 + u16_octets(v);
            let p3 = p2 + u16_octets(ETHERNET_PROTOCOL_VLAN_TAG);
            let p4 = p3 + u16_octets(c);
            let r4 = u16_octets(type_or_length) + rest;
            let r3 = u16_octets(c) + r4;
            let r2 = u16_octets(ETHERNET_PROTOCOL_VLAN_TAG) + r3;
            let r1 = u16_octets(v) + r2;
            assert(frame =~= p0 + u16_octets(ETHERNET_PROTOCOL_VLAN_TAG_SERVICE) + r1);
            lemma_be16_of_u16_octets(p0, ETHERNET_PROTOCOL_VLAN_TAG_SERVICE, r1);
            assert(frame =~= p1 + u16_octets(v) + r2);
            lemma_be16_of_u16_octets(p1, v, r2);
            assert(frame =~= p2 + u16_octets(ETHERNET_PROTOCOL_VLAN_TAG) + r3);
            lemma_be16_of_u16_octets(p2, ETHERNET_PROTOCOL_VLAN_TAG, r3);
            assert(frame =~= p3 + u16_octets(c) + r4);
            lemma_be16_of_u16_octets(p3, c, r4);
            assert(frame =~= p4 + u16_octets(type_or_length) + rest);
            lemma_be16_of_u16_octets(p4, type_or_length, rest);
        },
    }
}

/// Parsing an Ethernet II frame built by the encoder gives back its addresses, its tags, its
/// `EtherType` and its payload, for every `EtherType` from 1536 up that is not itself a VLAN TPID.
pub proof fn lemma_parse_encoded_ethernet_ii_frame(
    destination: Seq<u8>,
    source: Seq<u8>,
    tags: Option<Ieee8021qTagStack>,
    ether_type: u16,
    payload: Seq<u8>,
)
    requires
        destination.len() == 6,
        source.len() == 6,
        tag_stack_is_valid(tags),
        ether_type >= MINIMUM_ETHERNET_II_ETHERTYPE,
        !is_any_vlan_tpid(ether_type),
    ensures
        ({
            let frame = ethernet_ii_frame(destination, source, tags, ether_type, payload);
            &&& parse_ethernet_frame(frame) == Ok::<EthernetFrameLayout, &'static str>(
                EthernetFrameLayout {
                    service_tag: raw_service_tag(tags),
                    customer_tag: raw_customer_tag(tags),
                    ether_type,
                    framing: EthernetFraming::EthernetIi,
                    payload_start: header_length(tags),
                },
            )
            &&& frame.subrange(0, 6) == destination
            &&& frame.subrange(6, 12) == source
            &&& frame.subrange(header_length(tags) as int, frame.len() as int) == payload
        }),
{
    let frame = ethernet_ii_frame(destination, source, tags, ether_type, payload);
    let addresses = destination + source;
    assert(frame =~= addresses + optional_tag_stack_octets(tags) + u16_octets(ether_type) + payload);
    lemma_decode_encoded_tag_stack(addresses, tags, ether_type, payload);
    assert(frame.subrange(0, 6) =~= destination);
    assert(frame.subrange(6, 12) =~= source);
    assert(frame.subrange(header_length(tags) as int, frame.len() as int) =~= payload);
}

/// Parsing an RFC 1042 LLC/SNAP frame built by the encoder gives back its addresses, its tags,
/// its `EtherType` and its payload; the length field the encoder writes is always a valid IEEE
/// 802.3 length, since it is clamped to 1500.
pub proof fn lemma_parse_encoded_llc_snap_frame(
    destination: Seq<u8>,
    source: Seq<u8>,
    tags: Option<Ieee8021qTagStack>,
    ether_type: u16,
    payload: Seq<u8>,
)
    requires
        destination.len() == 6,
        source.len() == 6,
        tag_stack_is_valid(tags),
    ensures
        ({
            let frame = llc_snap_frame(destination, source, tags, ether_type, payload);
            let start = (header_length(tags) + IEEE_8023_LLC_SNAP_HEADER_LENGTH) as nat;
            &&& parse_ethernet_frame(frame) == Ok::<EthernetFrameLayout, &'static str>(
                EthernetFrameLayout {
                    service_tag: raw_service_tag(tags),
                    customer_tag: raw_customer_tag(tags),
                    ether_type,
                    framing: EthernetFraming::Ieee8023LlcSnap,
                    payload_start: start,
                },
            )
            &&& frame.subrange(0, 6) == destination
            &&& frame.subrange(6, 12) == source
            &&& frame.subrange(start as int, frame.len() as int) == payload
        }),
{
    let frame = llc_snap_frame(destination, source, tags, ether_type, payload);
    let addresses = destination + source;
    let length = llc_snap_length_field(payload.len());
    let rest = llc_snap_octets(ether_type) + payload;
    assert(frame =~= addresses + optional_tag_stack_octets(tags) + u16_octets(length) + rest);
    lemma_decode_encoded_tag_stack(addresses, tags, length, rest);
    let start = header_length(tags);
    let prefix = addresses + optional_tag_stack_octets(tags) + u16_octets(length) + seq![
        LLC_SNAP_ADDRESS,
        LLC_SNAP_ADDRESS,
        LLC_UNNUMBERED_INFORMATION,
        0u8,
        0u8,
        0u8,
    ];
    assert(frame =~= prefix + u16_octets(ether_type) + payload);
    lemma_be16_of_u16_octets(prefix, ether_type, payload);
    assert(frame[start as int] == LLC_SNAP_ADDRESS);
    assert(frame[start as int + 1] == LLC_SNAP_ADDRESS);
    assert(frame[start as int + 2] == LLC_UNNUMBERED_INFORMATION);
    assert(frame[start as int + 3] == 0 && frame[start as int + 4] == 0 && frame[start as int + 5] == 0);
    assert(frame.subrange(0, 6) =~= destination);
    assert(frame.subrange(6, 12) =~= source);
    assert(frame.subrange(start as int + 8, frame.len() as int) =~= payload);
}

/// What the parser hands back for a frame the Ethernet II encoder built: the addresses, the tag
/// stack, the `EtherType` and the payload that went in.
pub proof fn lemma_ethernet_ii_round_trip(
    destination: MacAddress,
    source: MacAddress,
    tags: Option<Ieee8021qTagStack>,
    ether_type: u16,
    payload: Seq<u8>,
    parsed: ParsedEthernetFrame,
)
    requires
        tag_stack_is_valid(tags),
        ether_type >= MINIMUM_ETHERNET_II_ETHERTYPE,
        !is_any_vlan_tpid(ether_type),
        ({
            let frame = ethernet_ii_frame(destination@, source@, tags, ether_type, payload);
            parse_ethernet_frame(frame) matches Ok(layout) && parsed_matches(parsed, frame, layout)
        }),
    ensures
        parsed.destination@ == destination@,
        parsed.source@ == source@,
        parsed.service_vlan_tag == (match tags {
            Some(tags) => tags.service(),
            None => None,
        }),
        parsed.vlan_tag == (match tags {
            Some(tags) => Some(tags.customer()),
            None => None::<Ieee8021qTagControlInformation>,
        }),
        parsed.ether_type == ether_type,
        parsed.framing == EthernetFraming::EthernetIi,
        parsed.payload@ == payload,
{
    destination.lemma_six_octets();
    source.lemma_six_octets();
    lemma_parse_encoded_ethernet_ii_frame(destination@, source@, tags, ether_type, payload);
    lemma_parsed_tags(tags, parsed);
}

/// What the parser hands back for a frame the RFC 1042 LLC/SNAP encoder built: the addresses, the
/// tag stack, the `EtherType` and the payload that went in.
pub proof fn lemma_llc_snap_round_trip(
    destination: MacAddress,
    source: MacAddress,
    tags: Option<Ieee8021qTagStack>,
    ether_type: u16,
    payload: Seq<u8>,
    parsed: ParsedEthernetFrame,
)
    requires
        tag_stack_is_valid(tags),
        ({
            let frame = llc_snap_frame(destination@, source@, tags, ether_type, payload);
            parse_ethernet_frame(frame) matches Ok(layout) && parsed_matches(parsed, frame, layout)
        }),
    ensures
        parsed.destination@ == destination@,
        parsed.source@ == source@,
        parsed.service_vlan_tag == (match tags {
            Some(tags) => tags.service(),
            None => None,
        }),
        parsed.vlan_tag == (match tags {
            Some(tags) => Some(tags.customer()),
            None => None::<Ieee8021qTagControlInformation>,
        }),
        parsed.ether_type == ether_type,
        parsed.framing == EthernetFraming::Ieee8023LlcSnap,
        parsed.payload@ == payload,
{
    destination.lemma_six_octets();
    source.lemma_six_octets();
    lemma_parse_encoded_llc_snap_frame(destination@, source@, tags, ether_type, payload);
    lemma_parsed_tags(tags, parsed);
}

proof fn lemma_parsed_tags(tags: Option<Ieee8021qTagStack>, parsed: ParsedEthernetFrame)
    requires
        tag_stack_is_valid(tags),
        decodes_tag(parsed.service_vlan_tag, raw_service_tag(tags)),
        decodes_tag(parsed.vlan_tag, raw_customer_tag(tags)),
    ensures
        parsed.service_vlan_tag == (match tags {
            Some(tags) => tags.service(),
            None => None,
        }),
        parsed.vlan_tag == (match tags {
            Some(tags) => Some(tags.customer()),
            None => None::<Ieee8021qTagControlInformation>,
        }),
{
    match tags {
        None => {},
        Some(t) => {
            lemma_tag_value_fits(t.customer());
            lemma_tag_control_information_round_trip(t.customer(), parsed.vlan_tag->0);
            match t.service() {
                Some(service) => {
                    lemma_tag_value_fits(service);
                    lemma_tag_control_information_round_trip(service, parsed.service_vlan_tag->0);
                },
                None => {},
            }
        },
    }
}

} // verus!
