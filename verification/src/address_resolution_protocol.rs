//! IPv4 address resolution protocol (ARP) over Ethernet: request, probe and announcement frames,
//! and reply parsing.
//!
//! Request frames carry an Ethernet II header, a 28-octet ARP payload laid out as in RFC 826, and
//! zero padding up to the IEEE 802.3 minimum frame length without the frame check sequence.
//! Replies are accepted over Ethernet II, IEEE 802.1Q tags and RFC 1042 LLC/SNAP; RFC 5494
//! reserved hardware-type and opcode values are rejected. IPv4 addresses are `u32` values in host
//! order, so their octets on the wire are the big-endian octets of the value.

use vstd::prelude::*;

use crate::ethernet_frame::{
    encode_ethernet_ii_frame, ethernet_ii_frame, lemma_parse_encoded_ethernet_ii_frame,
    parse_ethernet_frame, parsed_matches, try_parse_ethernet_frame, ETHERNET_PROTOCOL_ARP,
    ETHERNET_PROTOCOL_IPV4,
};
use crate::mac_address::{broadcast_octets, zero_octets, MacAddress};
use crate::octets::{
    be16, be32, lemma_be16_of_u16_octets, lemma_be32_of_u32_octets, push_octets, push_u16_octets,
    push_u32_octets, read_be16, read_be32, u16_octets, u32_octets,
};

verus! {

/// ARP hardware type for Ethernet (`ARPHRD_ETHER`, RFC 826 `ar$hrd`).
pub const ARP_HARDWARE_TYPE_ETHERNET: u16 = 1;

/// ARP opcode for a request (`ARPOP_REQUEST`, RFC 826 `ares_op$REQUEST`).
pub const ARP_OPERATION_REQUEST: u16 = 1;

/// ARP opcode for a reply (`ARPOP_REPLY`, RFC 826 `ares_op$REPLY`).
pub const ARP_OPERATION_REPLY: u16 = 2;

/// RFC 5494 reserved `ar$hrd` / `ar$op` value 0.
pub const ARP_RESERVED_FIELD_ZERO: u16 = 0;

/// RFC 5494 reserved `ar$hrd` / `ar$op` value 65535.
pub const ARP_RESERVED_FIELD_ALL_ONES: u16 = 65535;

/// RFC 826 `ar$hrd` offset in an IPv4-over-Ethernet ARP payload.
const ARP_HARDWARE_TYPE_OFFSET: usize = 0;

/// RFC 826 `ar$pro` offset.
const ARP_PROTOCOL_TYPE_OFFSET: usize = 2;

/// RFC 826 `ar$hln` offset.
const ARP_HARDWARE_LENGTH_OFFSET: usize = 4;

/// RFC 826 `ar$pln` offset.
const ARP_PROTOCOL_LENGTH_OFFSET: usize = 5;

/// RFC 826 `ar$op` offset.
const ARP_OPCODE_OFFSET: usize = 6;

/// RFC 826 `ar$sha` offset for Ethernet (`ar$hln` = 6).
const ARP_SENDER_HARDWARE_OFFSET: usize = 8;

/// RFC 826 `ar$spa` offset for Ethernet plus IPv4.
const ARP_SENDER_PROTOCOL_OFFSET: usize = 14;

/// Length of a minimal ARP packet for IPv4 over Ethernet (fixed field layout).
pub const ADDRESS_RESOLUTION_PROTOCOL_IPV4_PAYLOAD_LENGTH: usize = 28;

/// Ethernet hardware address length (`ar$hln`) for IEEE 802 48-bit addresses.
pub const ARP_ETHERNET_HARDWARE_ADDRESS_LENGTH: u8 = 6;

/// IPv4 protocol address length (`ar$pln`).
pub const ARP_IPV4_PROTOCOL_ADDRESS_LENGTH: u8 = 4;

/// Minimum Ethernet frame length excluding the frame check sequence (IEEE 802.3).
pub const MINIMUM_ETHERNET_FRAME_LENGTH_WITHOUT_FRAME_CHECK_SEQUENCE: usize = 60;

/// IEEE 802.3 MAC client data minimum (46 octets) that ARP's 28-octet payload is padded to.
pub const MINIMUM_ETHERNET_MAC_CLIENT_DATA_LENGTH: usize = 46;

/// Rejection message for a frame whose inner `EtherType` is not ARP.
pub const NOT_ARP_MESSAGE: &'static str = "EtherType is not address resolution protocol";

/// Rejection message for an ARP payload shorter than 28 octets.
pub const ARP_PAYLOAD_TOO_SHORT_MESSAGE: &'static str =
    "address resolution payload is shorter than IPv4 over Ethernet";

/// Rejection message for hardware type 0 or 65535.
pub const RESERVED_HARDWARE_TYPE_MESSAGE: &'static str =
    "address resolution hardware type is reserved by RFC 5494";

/// Rejection message for a hardware type other than Ethernet.
pub const NOT_ETHERNET_HARDWARE_MESSAGE: &'static str =
    "address resolution hardware type is not Ethernet";

/// Rejection message for a protocol type other than IPv4.
pub const NOT_IPV4_PROTOCOL_MESSAGE: &'static str = "address resolution protocol type is not IPv4";

/// Rejection message for address lengths other than 6 and 4.
pub const WRONG_ADDRESS_LENGTHS_MESSAGE: &'static str =
    "address resolution address lengths are not Ethernet plus IPv4";

/// Rejection message for opcode 0 or 65535.
pub const RESERVED_OPCODE_MESSAGE: &'static str = "address resolution opcode is reserved by RFC 5494";

/// Rejection message for a request where a reply was expected.
pub const REQUEST_NOT_REPLY_MESSAGE: &'static str =
    "address resolution opcode is a request, not a reply";

/// Rejection message for any other opcode.
pub const UNRECOGNIZED_OPCODE_MESSAGE: &'static str =
    "address resolution opcode is not a recognized reply";

/// The 28-octet RFC 826 payload for Ethernet hardware and IPv4 protocol addresses.
pub open spec fn arp_payload(
    sender_hardware: Seq<u8>,
    sender_protocol: u32,
    target_hardware: Seq<u8>,
    target_protocol: u32,
    opcode: u16,
) -> Seq<u8> {
    u16_octets(ARP_HARDWARE_TYPE_ETHERNET) + u16_octets(ETHERNET_PROTOCOL_IPV4) + seq![
        ARP_ETHERNET_HARDWARE_ADDRESS_LENGTH,
        ARP_IPV4_PROTOCOL_ADDRESS_LENGTH,
    ] + u16_octets(opcode) + sender_hardware + u32_octets(sender_protocol) + target_hardware
        + u32_octets(target_protocol)
}

/// Eighteen zero octets: the padding that brings 14 + 28 octets up to the 60-octet minimum.
pub open spec fn minimum_frame_padding() -> Seq<u8> {
    Seq::new(18, |i: int| 0u8)
}

/// A broadcast Ethernet II frame from `sender_hardware` carrying an ARP payload, zero-padded to
/// the IEEE 802.3 minimum.
pub open spec fn arp_ethernet_frame(
    sender_hardware: Seq<u8>,
    sender_protocol: u32,
    target_hardware: Seq<u8>,
    target_protocol: u32,
    opcode: u16,
) -> Seq<u8> {
    ethernet_ii_frame(
        broadcast_octets(),
        sender_hardware,
        None,
        ETHERNET_PROTOCOL_ARP,
        arp_payload(sender_hardware, sender_protocol, target_hardware, target_protocol, opcode),
    ) + minimum_frame_padding()
}

/// What the reply parser reads from an ARP payload: the sender protocol and hardware addresses,
/// or the message it rejects the payload with.
pub open spec fn arp_reply_fields(arp: Seq<u8>) -> Result<(u32, Seq<u8>), &'static str> {
    let hardware_type = be16(arp, 0);
    let opcode = be16(arp, 6);
    if arp.len() < ADDRESS_RESOLUTION_PROTOCOL_IPV4_PAYLOAD_LENGTH {
        Err(ARP_PAYLOAD_TOO_SHORT_MESSAGE)
    } else if hardware_type == ARP_RESERVED_FIELD_ZERO || hardware_type
        == ARP_RESERVED_FIELD_ALL_ONES {
        Err(RESERVED_HARDWARE_TYPE_MESSAGE)
    } else if hardware_type != ARP_HARDWARE_TYPE_ETHERNET {
        Err(NOT_ETHERNET_HARDWARE_MESSAGE)
    } else if be16(arp, 2) != ETHERNET_PROTOCOL_IPV4 {
        Err(NOT_IPV4_PROTOCOL_MESSAGE)
    } else if arp[4] != ARP_ETHERNET_HARDWARE_ADDRESS_LENGTH || arp[5]
        != ARP_IPV4_PROTOCOL_ADDRESS_LENGTH {
        Err(WRONG_ADDRESS_LENGTHS_MESSAGE)
    } else if opcode == ARP_RESERVED_FIELD_ZERO || opcode == ARP_RESERVED_FIELD_ALL_ONES {
        Err(RESERVED_OPCODE_MESSAGE)
    } else if opcode == ARP_OPERATION_REQUEST {
        Err(REQUEST_NOT_REPLY_MESSAGE)
    } else if opcode != ARP_OPERATION_REPLY {
        Err(UNRECOGNIZED_OPCODE_MESSAGE)
    } else {
        Ok((be32(arp, 14), arp.subrange(8, 14)))
    }
}

/// What the reply parser returns for the frame `s`: the sender IPv4 address and the sender
/// hardware address octets (`ar$spa`, `ar$sha`), or the rejection message.
pub open spec fn parse_arp_reply(s: Seq<u8>) -> Result<(u32, Seq<u8>), &'static str> {
    match parse_ethernet_frame(s) {
        Err(message) => Err(message),
        Ok(layout) => if layout.ether_type != ETHERNET_PROTOCOL_ARP {
            Err(NOT_ARP_MESSAGE)
        } else {
            arp_reply_fields(s.subrange(layout.payload_start as int, s.len() as int))
        },
    }
}

/// Builds the 28-octet RFC 826 payload for Ethernet hardware and IPv4 protocol addresses.
pub fn build_address_resolution_payload(
    source_mac_address: MacAddress,
    source_ipv4_address: u32,
    target_mac_address: MacAddress,
    target_ipv4_address: u32,
    opcode: u16,
) -> (payload: Vec<u8>)
    ensures
        payload@ == arp_payload(
            source_mac_address@,
            source_ipv4_address,
            target_mac_address@,
            target_ipv4_address,
            opcode,
        ),
{
    let mut payload: Vec<u8> = Vec::new();
    push_u16_octets(&mut payload, ARP_HARDWARE_TYPE_ETHERNET);
    push_u16_octets(&mut payload, ETHERNET_PROTOCOL_IPV4);
    payload.push(ARP_ETHERNET_HARDWARE_ADDRESS_LENGTH);
    payload.push(ARP_IPV4_PROTOCOL_ADDRESS_LENGTH);
    push_u16_octets(&mut payload, opcode);
    let source_octets = source_mac_address.octets();
    push_octets(&mut payload, &source_octets);
    push_u32_octets(&mut payload, source_ipv4_address);
    let target_octets = target_mac_address.octets();
    push_octets(&mut payload, &target_octets);
    push_u32_octets(&mut payload, target_ipv4_address);
    assert(payload@ =~= arp_payload(
        source_mac_address@,
        source_ipv4_address,
        target_mac_address@,
        target_ipv4_address,
        opcode,
    ));
    payload
}

fn build_address_resolution_ethernet_frame(
    source_mac_address: MacAddress,
    source_ipv4_address: u32,
    target_mac_address: MacAddress,
    target_ipv4_address: u32,
    opcode: u16,
) -> (frame: [u8; MINIMUM_ETHERNET_FRAME_LENGTH_WITHOUT_FRAME_CHECK_SEQUENCE])
    ensures
        frame@ == arp_ethernet_frame(
            source_mac_address@,
            source_ipv4_address,
            target_mac_address@,
            target_ipv4_address,
            opcode,
        ),
{
    let payload = build_address_resolution_payload(
        source_mac_address,
        source_ipv4_address,
        target_mac_address,
        target_ipv4_address,
        opcode,
    );
    let ethernet_body = encode_ethernet_ii_frame(
        MacAddress::broadcast(),
        source_mac_address,
        ETHERNET_PROTOCOL_ARP,
        payload.as_slice(),
    );
    proof {
        source_mac_address.lemma_six_octets();
        target_mac_address.lemma_six_octets();
    }
    let mut frame = [0u8; MINIMUM_ETHERNET_FRAME_LENGTH_WITHOUT_FRAME_CHECK_SEQUENCE];
    let ghost expected = arp_ethernet_frame(
        source_mac_address@,
        source_ipv4_address,
        target_mac_address@,
        target_ipv4_address,
        opcode,
    );
    assert(ethernet_body@.len() == 42);
    let mut index: usize = 0;
    while index < ethernet_body.len()
        invariant
            ethernet_body@.len() == 42,
            expected == ethernet_body@ + minimum_frame_padding(),
            index <= 42,
            frame@.len() == 60,
            forall|j: int| 0 <= j < index ==> frame@[j] == ethernet_body@[j],
            forall|j: int| index <= j < 60 ==> frame@[j] == 0,
        decreases 42 - index,
    {
        frame[index] = ethernet_body[index];
        index = index + 1;
    }
    assert(frame@ =~= expected);
    frame
}

/// Builds a minimum-length on-wire Ethernet frame carrying an IPv4 ARP request from
/// `source_ipv4_address` for `target_ipv4_address` (an RFC 826 request, not an RFC 5227 Probe).
///
/// The frame is broadcast from `source_mac_address`, asks with target hardware address zero, and
/// is zero-padded to [`MINIMUM_ETHERNET_FRAME_LENGTH_WITHOUT_FRAME_CHECK_SEQUENCE`] octets.
pub fn build_address_resolution_request_ethernet_frame(
    source_mac_address: MacAddress,
    source_ipv4_address: u32,
    target_ipv4_address: u32,
) -> (frame: [u8; MINIMUM_ETHERNET_FRAME_LENGTH_WITHOUT_FRAME_CHECK_SEQUENCE])
    ensures
        frame@ == arp_ethernet_frame(
            source_mac_address@,
            source_ipv4_address,
            zero_octets(),
            target_ipv4_address,
            ARP_OPERATION_REQUEST,
        ),
{
    build_address_resolution_ethernet_frame(
        source_mac_address,
        source_ipv4_address,
        MacAddress::zero(),
        target_ipv4_address,
        ARP_OPERATION_REQUEST,
    )
}

/// Builds an RFC 5227 ARP Probe: an ARP request with an all-zero sender IPv4 address and an
/// all-zero target hardware address, asking for `target_ipv4_address`.
pub fn build_address_resolution_probe_ethernet_frame(
    source_mac_address: MacAddress,
    target_ipv4_address: u32,
) -> (frame: [u8; MINIMUM_ETHERNET_FRAME_LENGTH_WITHOUT_FRAME_CHECK_SEQUENCE])
    ensures
        frame@ == arp_ethernet_frame(
            source_mac_address@,
            0,
            zero_octets(),
            target_ipv4_address,
            ARP_OPERATION_REQUEST,
        ),
{
    build_address_resolution_ethernet_frame(
        source_mac_address,
        0,
        MacAddress::zero(),
        target_ipv4_address,
        ARP_OPERATION_REQUEST,
    )
}

/// Builds an RFC 5227 ARP Announcement: an ARP request whose sender and target IPv4 addresses are
/// both the claimed address.
pub fn build_address_resolution_announcement_ethernet_frame(
    source_mac_address: MacAddress,
    claimed_ipv4_address: u32,
) -> (frame: [u8; MINIMUM_ETHERNET_FRAME_LENGTH_WITHOUT_FRAME_CHECK_SEQUENCE])
    ensures
        frame@ == arp_ethernet_frame(
            source_mac_address@,
            claimed_ipv4_address,
            zero_octets(),
            claimed_ipv4_address,
            ARP_OPERATION_REQUEST,
        ),
{
    build_address_resolution_ethernet_frame(
        source_mac_address,
        claimed_ipv4_address,
        MacAddress::zero(),
        claimed_ipv4_address,
        ARP_OPERATION_REQUEST,
    )
}

/// Parses an IPv4 ARP reply from a raw Ethernet frame buffer.
///
/// Trailing padding beyond the ARP payload is ignored once the fixed ARP fields are validated.
/// IEEE 802.1Q tags and RFC 1042 LLC/SNAP encapsulation are accepted. The sender protocol and
/// hardware addresses (`ar$spa`, `ar$sha`) are returned, as RFC 826 defines them; the Ethernet
/// source address plays no part.
pub fn try_parse_address_resolution_reply_ipv4_over_ethernet(frame: &[u8]) -> (parsed: Result<
    (u32, MacAddress),
    &'static str,
>)
    ensures
        match parse_arp_reply(frame@) {
            Err(message) => parsed == Err::<(u32, MacAddress), &'static str>(message),
            Ok((sender_ipv4, sender_hardware)) => parsed matches Ok((ip, mac)) && ip == sender_ipv4
                && mac@ == sender_hardware,
        },
{
    let parsed = match try_parse_ethernet_frame(frame) {
        Ok(parsed) => parsed,
        Err(message) => {
            return Err(message);
        },
    };
    if parsed.ether_type != ETHERNET_PROTOCOL_ARP {
        return Err(NOT_ARP_MESSAGE);
    }
    let arp = parsed.payload;
    if arp.len() < ADDRESS_RESOLUTION_PROTOCOL_IPV4_PAYLOAD_LENGTH {
        return Err(ARP_PAYLOAD_TOO_SHORT_MESSAGE);
    }
    let hardware_type = read_be16(arp, ARP_HARDWARE_TYPE_OFFSET);
    if hardware_type == ARP_RESERVED_FIELD_ZERO || hardware_type == ARP_RESERVED_FIELD_ALL_ONES {
        return Err(RESERVED_HARDWARE_TYPE_MESSAGE);
    }
    if hardware_type != ARP_HARDWARE_TYPE_ETHERNET {
        return Err(NOT_ETHERNET_HARDWARE_MESSAGE);
    }
    let protocol_type = read_be16(arp, ARP_PROTOCOL_TYPE_OFFSET);
    if protocol_type != ETHERNET_PROTOCOL_IPV4 {
        return Err(NOT_IPV4_PROTOCOL_MESSAGE);
    }
    if arp[ARP_HARDWARE_LENGTH_OFFSET] != ARP_ETHERNET_HARDWARE_ADDRESS_LENGTH
        || arp[ARP_PROTOCOL_LENGTH_OFFSET] != ARP_IPV4_PROTOCOL_ADDRESS_LENGTH {
        return Err(WRONG_ADDRESS_LENGTHS_MESSAGE);
    }
    let opcode = read_be16(arp, ARP_OPCODE_OFFSET);
    if opcode == ARP_RESERVED_FIELD_ZERO || opcode == ARP_RESERVED_FIELD_ALL_ONES {
        return Err(RESERVED_OPCODE_MESSAGE);
    }
    if opcode == ARP_OPERATION_REQUEST {
        return Err(REQUEST_NOT_REPLY_MESSAGE);
    }
    if opcode != ARP_OPERATION_REPLY {
        return Err(UNRECOGNIZED_OPCODE_MESSAGE);
    }
    let sender_mac_octets: [u8; 6] = [
        arp[ARP_SENDER_HARDWARE_OFFSET],
        arp[ARP_SENDER_HARDWARE_OFFSET + 1],
        arp[ARP_SENDER_HARDWARE_OFFSET + 2],
        arp[ARP_SENDER_HARDWARE_OFFSET + 3],
        arp[ARP_SENDER_HARDWARE_OFFSET + 4],
        arp[ARP_SENDER_HARDWARE_OFFSET + 5],
    ];
    let sender_ipv4 = read_be32(arp, ARP_SENDER_PROTOCOL_OFFSET);
    let sender = MacAddress::from_octets(sender_mac_octets);
    assert(sender@ =~= arp@.subrange(8, 14));
    Ok((sender_ipv4, sender))
}

/// How the reply parser reads a payload the frame builder laid out.
proof fn lemma_arp_payload_fields(
    sender_hardware: Seq<u8>,
    sender_protocol: u32,
    target_hardware: Seq<u8>,
    target_protocol: u32,
    opcode: u16,
    padding: Seq<u8>,
)
    requires
        sender_hardware.len() == 6,
        target_hardware.len() == 6,
    ensures
        ({
            let arp = arp_payload(
                sender_hardware,
                sender_protocol,
                target_hardware,
                target_protocol,
                opcode,
            ) + padding;
            &&& arp.len() >= ADDRESS_RESOLUTION_PROTOCOL_IPV4_PAYLOAD_LENGTH
            &&& be16(arp, 0) == ARP_HARDWARE_TYPE_ETHERNET
            &&& be16(arp, 2) == ETHERNET_PROTOCOL_IPV4
            &&& arp[4] == ARP_ETHERNET_HARDWARE_ADDRESS_LENGTH
            &&& arp[5] == ARP_IPV4_PROTOCOL_ADDRESS_LENGTH
            &&& be16(arp, 6) == opcode
            &&& arp.subrange(8, 14) == sender_hardware
            &&& be32(arp, 14) == sender_protocol
        }),
{
    let lengths = seq![ARP_ETHERNET_HARDWARE_ADDRESS_LENGTH, ARP_IPV4_PROTOCOL_ADDRESS_LENGTH];
    let tail = sender_hardware + u32_octets(sender_protocol) + target_hardware + u32_octets(
        target_protocol,
    ) + padding;
    let arp = arp_payload(sender_hardware, sender_protocol, target_hardware, target_protocol, opcode)
        + padding;
    let empty = Seq::<u8>::empty();
    assert(arp =~= empty + u16_octets(ARP_HARDWARE_TYPE_ETHERNET) + (u16_octets(
        ETHERNET_PROTOCOL_IPV4,
    ) + lengths + u16_octets(opcode) + tail));
    lemma_be16_of_u16_octets(
        empty,
        ARP_HARDWARE_TYPE_ETHERNET,
        u16_octets(ETHERNET_PROTOCOL_IPV4) + lengths + u16_octets(opcode) + tail,
    );
    let p2 = u16_octets(ARP_HARDWARE_TYPE_ETHERNET);
    assert(arp =~= p2 + u16_octets(ETHERNET_PROTOCOL_IPV4) + (lengths + u16_octets(opcode) + tail));
    lemma_be16_of_u16_octets(p2, ETHERNET_PROTOCOL_IPV4, lengths + u16_octets(opcode) + tail);
    let p6 = p2 + u16_octets(ETHERNET_PROTOCOL_IPV4) + lengths;
    assert(arp =~= p6 + u16_octets(opcode) + tail);
    lemma_be16_of_u16_octets(p6, opcode, tail);
    let p14 = p6 + u16_octets(opcode) + sender_hardware;
    let rest = target_hardware + u32_octets(target_protocol) + padding;
    assert(arp =~= p14 + u32_octets(sender_protocol) + rest);
    lemma_be32_of_u32_octets(p14, sender_protocol, rest);
    assert(arp.subrange(8, 14) =~= sender_hardware);
}

/// Reading back a reply frame laid out by the frame builder gives the sender protocol and
/// hardware addresses that were written into it.
pub proof fn lemma_parse_built_reply(
    sender_hardware: Seq<u8>,
    sender_protocol: u32,
    target_hardware: Seq<u8>,
    target_protocol: u32,
)
    requires
        sender_hardware.len() == 6,
        target_hardware.len() == 6,
    ensures
        parse_arp_reply(
            arp_ethernet_frame(
                sender_hardware,
                sender_protocol,
                target_hardware,
                target_protocol,
                ARP_OPERATION_REPLY,
            ),
        ) == Ok::<(u32, Seq<u8>), &'static str>((sender_protocol, sender_hardware)),
{
    lemma_parse_built_frame(
        sender_hardware,
        sender_protocol,
        target_hardware,
        target_protocol,
        ARP_OPERATION_REPLY,
    );
    lemma_arp_payload_fields(
        sender_hardware,
        sender_protocol,
        target_hardware,
        target_protocol,
        ARP_OPERATION_REPLY,
        minimum_frame_padding(),
    );
}

/// A request frame from the frame builders is never taken for a reply: the reply parser rejects
/// it as a request.
pub proof fn lemma_parse_built_request(
    sender_hardware: Seq<u8>,
    sender_protocol: u32,
    target_hardware: Seq<u8>,
    target_protocol: u32,
)
    requires
        sender_hardware.len() == 6,
        target_hardware.len() == 6,
    ensures
        parse_arp_reply(
            arp_ethernet_frame(
                sender_hardware,
                sender_protocol,
                target_hardware,
                target_protocol,
                ARP_OPERATION_REQUEST,
            ),
        ) == Err::<(u32, Seq<u8>), &'static str>(REQUEST_NOT_REPLY_MESSAGE),
{
    lemma_parse_built_frame(
        sender_hardware,
        sender_protocol,
        target_hardware,
        target_protocol,
        ARP_OPERATION_REQUEST,
    );
}

proof fn lemma_parse_built_frame(
    sender_hardware: Seq<u8>,
    sender_protocol: u32,
    target_hardware: Seq<u8>,
    target_protocol: u32,
    opcode: u16,
)
    requires
        sender_hardware.len() == 6,
        target_hardware.len() == 6,
    ensures
        parse_arp_reply(
            arp_ethernet_frame(
                sender_hardware,
                sender_protocol,
                target_hardware,
                target_protocol,
                opcode,
            ),
        ) == arp_reply_fields(
            arp_payload(sender_hardware, sender_protocol, target_hardware, target_protocol, opcode)
                + minimum_frame_padding(),
        ),
{
    let payload = arp_payload(
        sender_hardware,
        sender_protocol,
        target_hardware,
        target_protocol,
        opcode,
    );
    let padded = payload + minimum_frame_padding();
    let frame = arp_ethernet_frame(
        sender_hardware,
        sender_protocol,
        target_hardware,
        target_protocol,
        opcode,
    );
    assert(frame =~= ethernet_ii_frame(
        broadcast_octets(),
        sender_hardware,
        None,
        ETHERNET_PROTOCOL_ARP,
        padded,
    ));
    lemma_parse_encoded_ethernet_ii_frame(
        broadcast_octets(),
        sender_hardware,
        None,
        ETHERNET_PROTOCOL_ARP,
        padded,
    );
    lemma_arp_payload_fields(
        sender_hardware,
        sender_protocol,
        target_hardware,
        target_protocol,
        opcode,
        minimum_frame_padding(),
    );
}

/// A reply the parser accepts names a six-octet sender hardware address.
pub proof fn lemma_reply_hardware_address_length(frame: Seq<u8>)
    ensures
        parse_arp_reply(frame) matches Ok((_, hardware)) ==> hardware.len() == 6,
{
}

} // verus!
