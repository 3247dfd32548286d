//! Berkeley Packet Filter support for ARP capture: the classic filter program that scopes reads
//! to ARP, and the walk over the `bpf_hdr`-prefixed records one `read(2)` returns.
//!
//! A single BPF read can return several records, each prefixed by a `bpf_hdr` header and padded
//! to a 4-octet (`BPF_ALIGNMENT`) boundary. [`BpfRecordReader`] hands them out one Ethernet frame
//! at a time. The capture filter admits exactly the ARP framings the Ethernet parser accepts,
//! including the IEEE 802.1ad service-tag-plus-customer-tag pair.

use vstd::prelude::*;

use crate::ethernet_frame::{
    parse_ethernet_frame, ETHERNET_PROTOCOL_ARP, ETHERNET_PROTOCOL_VLAN_TAG,
    ETHERNET_PROTOCOL_VLAN_TAG_QINQ_9100, ETHERNET_PROTOCOL_VLAN_TAG_QINQ_9200,
    ETHERNET_PROTOCOL_VLAN_TAG_QINQ_9300, ETHERNET_PROTOCOL_VLAN_TAG_SERVICE,
};
use crate::octets::{be16, be32, le16, le32, native16, native32, native_endian_u16, native_endian_u32};

verus! {

/// `BPF_ALIGNMENT` from `net/bpf.h`: each record is padded to this boundary.
pub const BPF_RECORD_ALIGNMENT: usize = 4;

/// `BPF_LD | BPF_H | BPF_ABS`: load the 16-bit halfword at a fixed frame offset into the
/// accumulator.
pub const BPF_LOAD_HALFWORD_ABSOLUTE: u16 = 0x28;

/// `BPF_LD | BPF_W | BPF_ABS`: load the 32-bit word at a fixed frame offset into the accumulator.
pub const BPF_LOAD_WORD_ABSOLUTE: u16 = 0x20;

/// `BPF_JMP | BPF_JEQ | BPF_K`: branch on accumulator equal to a constant.
pub const BPF_JUMP_IF_EQUAL_CONSTANT: u16 = 0x15;

/// `BPF_JMP | BPF_JGT | BPF_K`: branch on accumulator greater than a constant.
pub const BPF_JUMP_IF_GREATER_THAN_CONSTANT: u16 = 0x25;

/// `BPF_RET | BPF_K`: return a constant capture length (0 drops the frame).
pub const BPF_RETURN_CONSTANT: u16 = 0x06;

/// Offset of the `EtherType` / IEEE 802.3 length field in an untagged Ethernet header.
pub const ETHERNET_TYPE_FIELD_OFFSET: u32 = 12;

/// Octets one IEEE 802.1Q tag (TPID + TCI) inserts before the inner length/type field.
pub const IEEE_8021Q_TAG_OCTETS: u32 = 4;

/// Offset of the IEEE 802.2 LLC header, which starts right after the 2-octet length field.
pub const LLC_SNAP_PREFIX_OFFSET_AFTER_LENGTH: u32 = 2;

/// Offset of the last 4 SNAP octets (OUI tail plus encapsulated `EtherType`) after the length.
pub const SNAP_ETHERTYPE_OFFSET_AFTER_LENGTH: u32 = 6;

/// `EtherType` for ARP (`ETH_P_ARP`).
pub const ETHERNET_TYPE_ARP: u32 = 0x0806;

/// `EtherType` for IEEE 802.1Q VLAN tagging (`ETH_P_8021Q`).
pub const ETHERNET_TYPE_VLAN_TAG: u32 = 0x8100;

/// `EtherType` for IEEE 802.1Q service VLAN tagging / IEEE 802.1ad S-TAG (`ETH_P_8021AD`).
pub const ETHERNET_TYPE_VLAN_TAG_SERVICE: u32 = 0x88A8;

/// IEEE 802.3 maximum MAC client data length; values above this are not length fields.
pub const IEEE_8023_MAXIMUM_LENGTH: u32 = 1500;

/// First four octets of RFC 1042 LLC/SNAP (`AA AA 03 00`).
pub const RFC_1042_LLC_SNAP_PREFIX: u32 = 0xAAAA_0300;

/// Last four octets of RFC 1042 SNAP ARP (`00 00 08 06`).
pub const RFC_1042_SNAP_ARP_ETHERTYPE: u32 = 0x0000_0806;

/// Capture length that accepts the whole frame.
pub const BPF_ACCEPT_WHOLE_FRAME: u32 = 0xFFFF_FFFF;

/// Number of instructions in the ARP capture filter.
pub const ARP_CAPTURE_FILTER_LENGTH: usize = 27;

/// One classic BPF instruction (`struct bpf_insn`).
#[derive(Debug, Clone, Copy, PartialEq, Eq)]
pub struct BpfProgramInstruction {
    /// Operation code (`BPF_*`).
    pub code: u16,
    /// Branch offset taken when a comparison is true.
    pub jump_if_true: u8,
    /// Branch offset taken when a comparison is false.
    pub jump_if_false: u8,
    /// Generic operand (offset, constant, or return length).
    pub operand: u32,
}

/// Frame offset of the length/type field that sits behind `tag_count` IEEE 802.1Q tags.
pub open spec fn length_type_offset(tag_count: nat) -> nat {
    (ETHERNET_TYPE_FIELD_OFFSET + tag_count * IEEE_8021Q_TAG_OCTETS) as nat
}

/// Frame offset of the length/type field that sits behind `tag_count` IEEE 802.1Q tags.
pub fn length_type_field_offset(tag_count: u32) -> (offset: u32)
    requires
        tag_count <= 0x3FFF_FFFC,
    ensures
        offset == length_type_offset(tag_count as nat),
{
    ETHERNET_TYPE_FIELD_OFFSET + tag_count * IEEE_8021Q_TAG_OCTETS
}

/// An instruction with no branch offsets.
pub open spec fn straight(code: u16, operand: u32) -> BpfProgramInstruction {
    BpfProgramInstruction { code, jump_if_true: 0, jump_if_false: 0, operand }
}

/// A conditional jump.
pub open spec fn branch(code: u16, jump_if_true: u8, jump_if_false: u8, operand: u32) -> BpfProgramInstruction {
    BpfProgramInstruction { code, jump_if_true, jump_if_false, operand }
}

/// Instruction `index` of the ARP capture filter.
///
/// Layout: 0-4 read the outer length/type field and dispatch (ARP accepts, `0x8100` goes to the
/// customer branch at 9, `0x88A8` to the service branch at 16, other values above 1500 drop);
/// 5-8 check untagged RFC 1042 SNAP ARP; 9-15 do the same behind one customer tag; 16-24 require
/// the customer tag after a service tag and then do the same behind both; 25 drops and 26
/// accepts the whole frame.
pub open spec fn arp_capture_filter_instruction(index: int) -> BpfProgramInstruction {
    if index == 0 {
        straight(BPF_LOAD_HALFWORD_ABSOLUTE, 12)
    } else if index == 1 {
        branch(BPF_JUMP_IF_EQUAL_CONSTANT, 24, 0, ETHERNET_TYPE_ARP)
    } else if index == 2 {
        branch(BPF_JUMP_IF_EQUAL_CONSTANT, 6, 0, ETHERNET_TYPE_VLAN_TAG)
    } else if index == 3 {
        branch(BPF_JUMP_IF_EQUAL_CONSTANT, 12, 0, ETHERNET_TYPE_VLAN_TAG_SERVICE)
    } else if index == 4 {
        branch(BPF_JUMP_IF_GREATER_THAN_CONSTANT, 20, 0, IEEE_8023_MAXIMUM_LENGTH)
    } else if index == 5 {
        straight(BPF_LOAD_WORD_ABSOLUTE, 14)
    } else if index == 6 {
        branch(BPF_JUMP_IF_EQUAL_CONSTANT, 0, 18, RFC_1042_LLC_SNAP_PREFIX)
    } else if index == 7 {
        straight(BPF_LOAD_WORD_ABSOLUTE, 18)
    } else if index == 8 {
        branch(BPF_JUMP_IF_EQUAL_CONSTANT, 17, 16, RFC_1042_SNAP_ARP_ETHERTYPE)
    } else if index == 9 {
        straight(BPF_LOAD_HALFWORD_ABSOLUTE, 16)
    } else if index == 10 {
        branch(BPF_JUMP_IF_EQUAL_CONSTANT, 15, 0, ETHERNET_TYPE_ARP)
    } else if index == 11 {
        branch(BPF_JUMP_IF_GREATER_THAN_CONSTANT, 13, 0, IEEE_8023_MAXIMUM_LENGTH)
    } else if index == 12 {
        straight(BPF_LOAD_WORD_ABSOLUTE, 18)
    } else if index == 13 {
        branch(BPF_JUMP_IF_EQUAL_CONSTANT, 0, 11, RFC_1042_LLC_SNAP_PREFIX)
    } else if index == 14 {
        straight(BPF_LOAD_WORD_ABSOLUTE, 22)
    } else if index == 15 {
        branch(BPF_JUMP_IF_EQUAL_CONSTANT, 10, 9, RFC_1042_SNAP_ARP_ETHERTYPE)
    } else if index == 16 {
        straight(BPF_LOAD_HALFWORD_ABSOLUTE, 16)
    } else if index == 17 {
        branch(BPF_JUMP_IF_EQUAL_CONSTANT, 0, 7, ETHERNET_TYPE_VLAN_TAG)
    } else if index == 18 {
        straight(BPF_LOAD_HALFWORD_ABSOLUTE, 20)
    } else if index == 19 {
        branch(BPF_JUMP_IF_EQUAL_CONSTANT, 6, 0, ETHERNET_TYPE_ARP)
    } else if index == 20 {
        branch(BPF_JUMP_IF_GREATER_THAN_CONSTANT, 4, 0, IEEE_8023_MAXIMUM_LENGTH)
    } else if index == 21 {
        straight(BPF_LOAD_WORD_ABSOLUTE, 22)
    } else if index == 22 {
        branch(BPF_JUMP_IF_EQUAL_CONSTANT, 0, 2, RFC_1042_LLC_SNAP_PREFIX)
    } else if index == 23 {
        straight(BPF_LOAD_WORD_ABSOLUTE, 26)
    } else if index == 24 {
        branch(BPF_JUMP_IF_EQUAL_CONSTANT, 1, 0, RFC_1042_SNAP_ARP_ETHERTYPE)
    } else if index == 25 {
        straight(BPF_RETURN_CONSTANT, 0)
    } else {
        straight(BPF_RETURN_CONSTANT, BPF_ACCEPT_WHOLE_FRAME)
    }
}

/// The ARP capture filter as a sequence of instructions.
pub open spec fn arp_capture_filter_program() -> Seq<BpfProgramInstruction> {
    Seq::new(ARP_CAPTURE_FILTER_LENGTH as nat, |index: int| arp_capture_filter_instruction(index))
}

/// The verdict of running classic BPF `program` on `frame` from instruction `pc` with
/// `accumulator`: `Some(true)` when it returns a non-zero capture length, `Some(false)` when it
/// returns zero or a load runs past the end of the frame, `None` when it runs off the program or
/// meets an instruction outside the subset used here. Jumps only go forward, as in classic BPF.
pub open spec fn bpf_verdict(
    program: Seq<BpfProgramInstruction>,
    frame: Seq<u8>,
    pc: nat,
    accumulator: u32,
) -> Option<bool>
    decreases program.len() - pc,
{
    if pc >= program.len() {
        None
    } else {
        let instruction = program[pc as int];
        let offset = instruction.operand as int;
        if instruction.code == BPF_LOAD_HALFWORD_ABSOLUTE {
            if offset + 2 <= frame.len() {
                bpf_verdict(program, frame, pc + 1, be16(frame, offset) as u32)
            } else {
                Some(false)
            }
        } else if instruction.code == BPF_LOAD_WORD_ABSOLUTE {
            if offset + 4 <= frame.len() {
                bpf_verdict(program, frame, pc + 1, be32(frame, offset))
            } else {
                Some(false)
            }
        } else if instruction.code == BPF_JUMP_IF_EQUAL_CONSTANT
            || instruction.code == BPF_JUMP_IF_GREATER_THAN_CONSTANT {
            let taken = if instruction.code == BPF_JUMP_IF_EQUAL_CONSTANT {
                accumulator == instruction.operand
            } else {
                accumulator > instruction.operand
            };
            let skip = if taken {
                instruction.jump_if_true
            } else {
                instruction.jump_if_false
            };
            let next = pc + 1 + skip as nat;
            if next < program.len() {
                bpf_verdict(program, frame, next, accumulator)
            } else {
                None
            }
        } else if instruction.code == BPF_RETURN_CONSTANT {
            Some(instruction.operand != 0)
        } else {
            None
        }
    }
}

/// Whether the parser reads `frame` as an ARP frame.
pub open spec fn parses_as_arp(frame: Seq<u8>) -> bool {
    parse_ethernet_frame(frame) matches Ok(layout) && layout.ether_type == ETHERNET_PROTOCOL_ARP
}

/// Returns the ARP capture filter: ARP in Ethernet II, behind one IEEE 802.1Q customer tag,
/// behind an IEEE 802.1Q service tag wrapping one customer tag (IEEE 802.1ad), and in RFC 1042
/// LLC/SNAP under any of those three framings.
///
/// Unlike a Linux `AF_PACKET` socket bound to `ETH_P_ARP`, a BPF device delivers every frame on
/// the interface by default, so this filter is what scopes reads to ARP. It admits exactly the
/// frames the Ethernet parser reads as ARP (see [`lemma_arp_capture_filter_matches_parser`]):
/// a lone `0x88A8` tag, stacked customer tags, a third tag after a legal pair, and the
/// unofficial TPIDs `0x9100` / `0x9200` / `0x9300` never reach userspace.
pub fn arp_capture_filter() -> (filter: [BpfProgramInstruction; ARP_CAPTURE_FILTER_LENGTH])
    ensures
        filter@ == arp_capture_filter_program(),
{
    let filter = [
        BpfProgramInstruction { code: BPF_LOAD_HALFWORD_ABSOLUTE, jump_if_true: 0, jump_if_false: 0, operand: length_type_field_offset(0) },
        BpfProgramInstruction { code: BPF_JUMP_IF_EQUAL_CONSTANT, jump_if_true: 24, jump_if_false: 0, operand: ETHERNET_TYPE_ARP },
        BpfProgramInstruction { code: BPF_JUMP_IF_EQUAL_CONSTANT, jump_if_true: 6, jump_if_false: 0, operand: ETHERNET_TYPE_VLAN_TAG },
        BpfProgramInstruction { code: BPF_JUMP_IF_EQUAL_CONSTANT, jump_if_true: 12, jump_if_false: 0, operand: ETHERNET_TYPE_VLAN_TAG_SERVICE },
        BpfProgramInstruction { code: BPF_JUMP_IF_GREATER_THAN_CONSTANT, jump_if_true: 20, jump_if_false: 0, operand: IEEE_8023_MAXIMUM_LENGTH },
        BpfProgramInstruction { code: BPF_LOAD_WORD_ABSOLUTE, jump_if_true: 0, jump_if_false: 0, operand: length_type_field_offset(0) + LLC_SNAP_PREFIX_OFFSET_AFTER_LENGTH },
        BpfProgramInstruction { code: BPF_JUMP_IF_EQUAL_CONSTANT, jump_if_true: 0, jump_if_false: 18, operand: RFC_1042_LLC_SNAP_PREFIX },
        BpfProgramInstruction { code: BPF_LOAD_WORD_ABSOLUTE, jump_if_true: 0, jump_if_false: 0, operand: length_type_field_offset(0) + SNAP_ETHERTYPE_OFFSET_AFTER_LENGTH },
        BpfProgramInstruction { code: BPF_JUMP_IF_EQUAL_CONSTANT, jump_if_true: 17, jump_if_false: 16, operand: RFC_1042_SNAP_ARP_ETHERTYPE },
        BpfProgramInstruction { code: BPF_LOAD_HALFWORD_ABSOLUTE, jump_if_true: 0, jump_if_false: 0, operand: length_type_field_offset(1) },
        BpfProgramInstruction { code: BPF_JUMP_IF_EQUAL_CONSTANT, jump_if_true: 15, jump_if_false: 0, operand: ETHERNET_TYPE_ARP },
        BpfProgramInstruction { code: BPF_JUMP_IF_GREATER_THAN_CONSTANT, jump_if_true: 13, jump_if_false: 0, operand: IEEE_8023_MAXIMUM_LENGTH },
        BpfProgramInstruction { code: BPF_LOAD_WORD_ABSOLUTE, jump_if_true: 0, jump_if_false: 0, operand: length_type_field_offset(1) + LLC_SNAP_PREFIX_OFFSET_AFTER_LENGTH },
        BpfProgramInstruction { code: BPF_JUMP_IF_EQUAL_CONSTANT, jump_if_true: 0, jump_if_false: 11, operand: RFC_1042_LLC_SNAP_PREFIX },
        BpfProgramInstruction { code: BPF_LOAD_WORD_ABSOLUTE, jump_if_true: 0, jump_if_false: 0, operand: length_type_field_offset(1) + SNAP_ETHERTYPE_OFFSET_AFTER_LENGTH },
        BpfProgramInstruction { code: BPF_JUMP_IF_EQUAL_CONSTANT, jump_if_true: 10, jump_if_false: 9, operand: RFC_1042_SNAP_ARP_ETHERTYPE },
        BpfProgramInstruction { code: BPF_LOAD_HALFWORD_ABSOLUTE, jump_if_true: 0, jump_if_false: 0, operand: length_type_field_offset(1) },
        BpfProgramInstruction { code: BPF_JUMP_IF_EQUAL_CONSTANT, jump_if_true: 0, jump_if_false: 7, operand: ETHERNET_TYPE_VLAN_TAG },
        BpfProgramInstruction { code: BPF_LOAD_HALFWORD_ABSOLUTE, jump_if_true: 0, jump_if_false: 0, operand: length_type_field_offset(2) },
        BpfProgramInstruction { code: BPF_JUMP_IF_EQUAL_CONSTANT, jump_if_true: 6, jump_if_false: 0, operand: ETHERNET_TYPE_ARP },
        BpfProgramInstruction { code: BPF_JUMP_IF_GREATER_THAN_CONSTANT, jump_if_true: 4, jump_if_false: 0, operand: IEEE_8023_MAXIMUM_LENGTH },
        BpfProgramInstruction { code: BPF_LOAD_WORD_ABSOLUTE, jump_if_true: 0, jump_if_false: 0, operand: length_type_field_offset(2) + LLC_SNAP_PREFIX_OFFSET_AFTER_LENGTH },
        BpfProgramInstruction { code: BPF_JUMP_IF_EQUAL_CONSTANT, jump_if_true: 0, jump_if_false: 2, operand: RFC_1042_LLC_SNAP_PREFIX },
        BpfProgramInstruction { code: BPF_LOAD_WORD_ABSOLUTE, jump_if_true: 0, jump_if_false: 0, operand: length_type_field_offset(2) + SNAP_ETHERTYPE_OFFSET_AFTER_LENGTH },
        BpfProgramInstruction { code: BPF_JUMP_IF_EQUAL_CONSTANT, jump_if_true: 1, jump_if_false: 0, operand: RFC_1042_SNAP_ARP_ETHERTYPE },
        BpfProgramInstruction { code: BPF_RETURN_CONSTANT, jump_if_true: 0, jump_if_false: 0, operand: 0 },
        BpfProgramInstruction { code: BPF_RETURN_CONSTANT, jump_if_true: 0, jump_if_false: 0, operand: BPF_ACCEPT_WHOLE_FRAME },
    ];
    assert(filter@ =~= arp_capture_filter_program());
    filter
}


/// The four octets at `offset` are `AA AA 03 00` and the four after them `00 00 08 06`: RFC 1042
/// LLC/SNAP carrying ARP, as the filter tests it with two word loads.
pub open spec fn snap_arp_words_at(frame: Seq<u8>, offset: int) -> bool {
    &&& offset + 8 <= frame.len()
    &&& be32(frame, offset) == RFC_1042_LLC_SNAP_PREFIX
    &&& be32(frame, offset + 4) == RFC_1042_SNAP_ARP_ETHERTYPE
}

proof fn lemma_snap_words(frame: Seq<u8>, offset: int)
    requires
        0 <= offset,
        offset + 8 <= frame.len(),
    ensures
        (be32(frame, offset) == RFC_1042_LLC_SNAP_PREFIX) <==> (frame[offset] == 0xAA && frame[offset
            + 1] == 0xAA && frame[offset + 2] == 0x03 && frame[offset + 3] == 0),
        (be32(frame, offset + 4) == RFC_1042_SNAP_ARP_ETHERTYPE) <==> (frame[offset + 4] == 0
            && frame[offset + 5] == 0 && be16(frame, offset + 6) == ETHERNET_PROTOCOL_ARP),
{
    let a = frame[offset] as int;
    let b = frame[offset + 1] as int;
    let c = frame[offset + 2] as int;
    let d = frame[offset + 3] as int;
    let e = frame[offset + 4] as int;
    let f = frame[offset + 5] as int;
    let g = frame[offset + 6] as int;
    let h = frame[offset + 7] as int;
    assert(0 <= a < 256 && 0 <= b < 256 && 0 <= c < 256 && 0 <= d < 256);
    assert(0 <= e < 256 && 0 <= f < 256 && 0 <= g < 256 && 0 <= h < 256);
    assert(be32(frame, offset) as int == a * 0x100_0000 + b * 0x1_0000 + c * 0x100 + d);
    assert(be32(frame, offset + 4) as int == e * 0x100_0000 + f * 0x1_0000 + g * 0x100 + h);
    assert(be16(frame, offset + 6) as int == g * 0x100 + h);
}

/// The filter's verdict from each instruction, read off the program one instruction at a time.
proof fn lemma_filter_steps(frame: Seq<u8>)
    ensures
        ({
            let p = arp_capture_filter_program();
            let length = frame.len();
            &&& bpf_verdict(p, frame, 0, 0) == (if length >= 14 {
                bpf_verdict(p, frame, 1, be16(frame, 12) as u32)
            } else {
                Some(false)
            })
            &&& forall|a: u32| #[trigger] bpf_verdict(p, frame, 1, a) == (if a == ETHERNET_TYPE_ARP {
                Some(true)
            } else if a == ETHERNET_TYPE_VLAN_TAG {
                bpf_verdict(p, frame, 9, a)
            } else if a == ETHERNET_TYPE_VLAN_TAG_SERVICE {
                bpf_verdict(p, frame, 16, a)
            } else if a > IEEE_8023_MAXIMUM_LENGTH {
                Some(false)
            } else {
                Some(snap_arp_words_at(frame, 14))
            })
            &&& forall|a: u32| #[trigger] bpf_verdict(p, frame, 9, a) == (if length >= 18 {
                let inner = be16(frame, 16) as u32;
                if inner == ETHERNET_TYPE_ARP {
                    Some(true)
                } else if inner > IEEE_8023_MAXIMUM_LENGTH {
                    Some(false)
                } else {
                    Some(snap_arp_words_at(frame, 18))
                }
            } else {
                Some(false)
            })
            &&& forall|a: u32| #[trigger] bpf_verdict(p, frame, 16, a) == (if length >= 18 {
                if be16(frame, 16) as u32 == ETHERNET_TYPE_VLAN_TAG {
                    if length >= 22 {
                        let inner = be16(frame, 20) as u32;
                        if inner == ETHERNET_TYPE_ARP {
                            Some(true)
                        } else if inner > IEEE_8023_MAXIMUM_LENGTH {
                            Some(false)
                        } else {
                            Some(snap_arp_words_at(frame, 22))
                        }
                    } else {
                        Some(false)
                    }
                } else {
                    Some(false)
                }
            } else {
                Some(false)
            })
        }),
{
    let p = arp_capture_filter_program();
    let length = frame.len();
    assert forall|a: u32| bpf_verdict(p, frame, 25, a) == Some(false) by {}
    assert forall|a: u32| bpf_verdict(p, frame, 26, a) == Some(true) by {}
    // Service branch, from the end.
    assert forall|a: u32| #[trigger] bpf_verdict(p, frame, 24, a) == Some(a == RFC_1042_SNAP_ARP_ETHERTYPE) by {
        assert(bpf_verdict(p, frame, 25, a) == Some(false));
        assert(bpf_verdict(p, frame, 26, a) == Some(true));
    }
    assert forall|a: u32| #[trigger] bpf_verdict(p, frame, 23, a) == (if length >= 30 {
        Some(be32(frame, 26) == RFC_1042_SNAP_ARP_ETHERTYPE)
    } else {
        Some(false)
    }) by {
        if length >= 30 {
            assert(bpf_verdict(p, frame, 24, be32(frame, 26)) == Some(be32(frame, 26) == RFC_1042_SNAP_ARP_ETHERTYPE));
        }
    }
    assert forall|a: u32| #[trigger] bpf_verdict(p, frame, 22, a) == (if a == RFC_1042_LLC_SNAP_PREFIX {
        bpf_verdict(p, frame, 23, a)
    } else {
        Some(false)
    }) by {
        assert(bpf_verdict(p, frame, 25, a) == Some(false));
    }
    assert forall|a: u32| #[trigger] bpf_verdict(p, frame, 21, a) == Some(snap_arp_words_at(frame, 22)) by {
        if length >= 26 {
            let w = be32(frame, 22);
            assert(bpf_verdict(p, frame, 22, w) == (if w == RFC_1042_LLC_SNAP_PREFIX {
                bpf_verdict(p, frame, 23, w)
            } else {
                Some(false)
            }));
            assert(bpf_verdict(p, frame, 23, w) == (if length >= 30 {
                Some(be32(frame, 26) == RFC_1042_SNAP_ARP_ETHERTYPE)
            } else {
                Some(false)
            }));
        }
    }
    assert forall|a: u32| #[trigger] bpf_verdict(p, frame, 20, a) == (if a > IEEE_8023_MAXIMUM_LENGTH {
        Some(false)
    } else {
        Some(snap_arp_words_at(frame, 22))
    }) by {
        assert(bpf_verdict(p, frame, 25, a) == Some(false));
        assert(bpf_verdict(p, frame, 21, a) == Some(snap_arp_words_at(frame, 22)));
    }
    assert forall|a: u32| #[trigger] bpf_verdict(p, frame, 19, a) == (if a == ETHERNET_TYPE_ARP {
        Some(true)
    } else if a > IEEE_8023_MAXIMUM_LENGTH {
        Some(false)
    } else {
        Some(snap_arp_words_at(frame, 22))
    }) by {
        assert(bpf_verdict(p, frame, 26, a) == Some(true));
        assert(bpf_verdict(p, frame, 20, a) == (if a > IEEE_8023_MAXIMUM_LENGTH {
            Some(false)
        } else {
            Some(snap_arp_words_at(frame, 22))
        }));
    }
    assert forall|a: u32| #[trigger] bpf_verdict(p, frame, 18, a) == (if length >= 22 {
        bpf_verdict(p, frame, 19, be16(frame, 20) as u32)
    } else {
        Some(false)
    }) by {}
    assert forall|a: u32| #[trigger] bpf_verdict(p, frame, 17, a) == (if a == ETHERNET_TYPE_VLAN_TAG {
        bpf_verdict(p, frame, 18, a)
    } else {
        Some(false)
    }) by {
        assert(bpf_verdict(p, frame, 25, a) == Some(false));
    }
    assert forall|a: u32| #[trigger] bpf_verdict(p, frame, 16, a) == (if length >= 18 {
        bpf_verdict(p, frame, 17, be16(frame, 16) as u32)
    } else {
        Some(false)
    }) by {}
    // Customer branch.
    assert forall|a: u32| #[trigger] bpf_verdict(p, frame, 15, a) == Some(a == RFC_1042_SNAP_ARP_ETHERTYPE) by {
        assert(bpf_verdict(p, frame, 25, a) == Some(false));
        assert(bpf_verdict(p, frame, 26, a) == Some(true));
    }
    assert forall|a: u32| #[trigger] bpf_verdict(p, frame, 14, a) == (if length >= 26 {
        Some(be32(frame, 22) == RFC_1042_SNAP_ARP_ETHERTYPE)
    } else {
        Some(false)
    }) by {
        if length >= 26 {
            assert(bpf_verdict(p, frame, 15, be32(frame, 22)) == Some(be32(frame, 22) == RFC_1042_SNAP_ARP_ETHERTYPE));
        }
    }
    assert forall|a: u32| #[trigger] bpf_verdict(p, frame, 13, a) == (if a == RFC_1042_LLC_SNAP_PREFIX {
        bpf_verdict(p, frame, 14, a)
    } else {
        Some(false)
    }) by {
        assert(bpf_verdict(p, frame, 25, a) == Some(false));
    }
    assert forall|a: u32| #[trigger] bpf_verdict(p, frame, 12, a) == Some(snap_arp_words_at(frame, 18)) by {
        if length >= 22 {
            let w = be32(frame, 18);
            assert(bpf_verdict(p, frame, 13, w) == (if w == RFC_1042_LLC_SNAP_PREFIX {
                bpf_verdict(p, frame, 14, w)
            } else {
                Some(false)
            }));
            assert(bpf_verdict(p, frame, 14, w) == (if length >= 26 {
                Some(be32(frame, 22) == RFC_1042_SNAP_ARP_ETHERTYPE)
            } else {
                Some(false)
            }));
        }
    }
    assert forall|a: u32| #[trigger] bpf_verdict(p, frame, 11, a) == (if a > IEEE_8023_MAXIMUM_LENGTH {
        Some(false)
    } else {
        Some(snap_arp_words_at(frame, 18))
    }) by {
        assert(bpf_verdict(p, frame, 25, a) == Some(false));
        assert(bpf_verdict(p, frame, 12, a) == Some(snap_arp_words_at(frame, 18)));
    }
    assert forall|a: u32| #[trigger] bpf_verdict(p, frame, 10, a) == (if a == ETHERNET_TYPE_ARP {
        Some(true)
    } else if a > IEEE_8023_MAXIMUM_LENGTH {
        Some(false)
    } else {
        Some(snap_arp_words_at(frame, 18))
    }) by {
        assert(bpf_verdict(p, frame, 26, a) == Some(true));
        assert(bpf_verdict(p, frame, 11, a) == (if a > IEEE_8023_MAXIMUM_LENGTH {
            Some(false)
        } else {
            Some(snap_arp_words_at(frame, 18))
        }));
    }
    assert forall|a: u32| #[trigger] bpf_verdict(p, frame, 9, a) == (if length >= 18 {
        bpf_verdict(p, frame, 10, be16(frame, 16) as u32)
    } else {
        Some(false)
    }) by {}
    // Untagged branch.
    assert forall|a: u32| #[trigger] bpf_verdict(p, frame, 8, a) == Some(a == RFC_1042_SNAP_ARP_ETHERTYPE) by {
        assert(bpf_verdict(p, frame, 25, a) == Some(false));
        assert(bpf_verdict(p, frame, 26, a) == Some(true));
    }
    assert forall|a: u32| #[trigger] bpf_verdict(p, frame, 7, a) == (if length >= 22 {
        Some(be32(frame, 18) == RFC_1042_SNAP_ARP_ETHERTYPE)
    } else {
        Some(false)
    }) by {
        if length >= 22 {
            assert(bpf_verdict(p, frame, 8, be32(frame, 18)) == Some(be32(frame, 18) == RFC_1042_SNAP_ARP_ETHERTYPE));
        }
    }
    assert forall|a: u32| #[trigger] bpf_verdict(p, frame, 6, a) == (if a == RFC_1042_LLC_SNAP_PREFIX {
        bpf_verdict(p, frame, 7, a)
    } else {
        Some(false)
    }) by {
        assert(bpf_verdict(p, frame, 25, a) == Some(false));
    }
    assert forall|a: u32| #[trigger] bpf_verdict(p, frame, 5, a) == Some(snap_arp_words_at(frame, 14)) by {
        if length >= 18 {
            let w = be32(frame, 14);
            assert(bpf_verdict(p, frame, 6, w) == (if w == RFC_1042_LLC_SNAP_PREFIX {
                bpf_verdict(p, frame, 7, w)
            } else {
                Some(false)
            }));
            assert(bpf_verdict(p, frame, 7, w) == (if length >= 22 {
                Some(be32(frame, 18) == RFC_1042_SNAP_ARP_ETHERTYPE)
            } else {
                Some(false)
            }));
        }
    }
    assert forall|a: u32| #[trigger] bpf_verdict(p, frame, 4, a) == (if a > IEEE_8023_MAXIMUM_LENGTH {
        Some(false)
    } else {
        Some(snap_arp_words_at(frame, 14))
    }) by {
        assert(bpf_verdict(p, frame, 25, a) == Some(false));
        assert(bpf_verdict(p, frame, 5, a) == Some(snap_arp_words_at(frame, 14)));
    }
    assert forall|a: u32| #[trigger] bpf_verdict(p, frame, 3, a) == (if a == ETHERNET_TYPE_VLAN_TAG_SERVICE {
        bpf_verdict(p, frame, 16, a)
    } else if a > IEEE_8023_MAXIMUM_LENGTH {
        Some(false)
    } else {
        Some(snap_arp_words_at(frame, 14))
    }) by {
        assert(bpf_verdict(p, frame, 4, a) == (if a > IEEE_8023_MAXIMUM_LENGTH {
            Some(false)
        } else {
            Some(snap_arp_words_at(frame, 14))
        }));
    }
    assert forall|a: u32| #[trigger] bpf_verdict(p, frame, 2, a) == (if a == ETHERNET_TYPE_VLAN_TAG {
        bpf_verdict(p, frame, 9, a)
    } else if a == ETHERNET_TYPE_VLAN_TAG_SERVICE {
        bpf_verdict(p, frame, 16, a)
    } else if a > IEEE_8023_MAXIMUM_LENGTH {
        Some(false)
    } else {
        Some(snap_arp_words_at(frame, 14))
    }) by {
        assert(bpf_verdict(p, frame, 3, a) == (if a == ETHERNET_TYPE_VLAN_TAG_SERVICE {
            bpf_verdict(p, frame, 16, a)
        } else if a > IEEE_8023_MAXIMUM_LENGTH {
            Some(false)
        } else {
            Some(snap_arp_words_at(frame, 14))
        }));
    }
    assert forall|a: u32| #[trigger] bpf_verdict(p, frame, 1, a) == (if a == ETHERNET_TYPE_ARP {
        Some(true)
    } else if a == ETHERNET_TYPE_VLAN_TAG {
        bpf_verdict(p, frame, 9, a)
    } else if a == ETHERNET_TYPE_VLAN_TAG_SERVICE {
        bpf_verdict(p, frame, 16, a)
    } else if a > IEEE_8023_MAXIMUM_LENGTH {
        Some(false)
    } else {
        Some(snap_arp_words_at(frame, 14))
    }) by {
        assert(bpf_verdict(p, frame, 26, a) == Some(true));
        assert(bpf_verdict(p, frame, 2, a) == (if a == ETHERNET_TYPE_VLAN_TAG {
            bpf_verdict(p, frame, 9, a)
        } else if a == ETHERNET_TYPE_VLAN_TAG_SERVICE {
            bpf_verdict(p, frame, 16, a)
        } else if a > IEEE_8023_MAXIMUM_LENGTH {
            Some(false)
        } else {
            Some(snap_arp_words_at(frame, 14))
        }));
    }
    assert forall|a: u32| #[trigger] bpf_verdict(p, frame, 9, a) == (if length >= 18 {
        let inner = be16(frame, 16) as u32;
        if inner == ETHERNET_TYPE_ARP {
            Some(true)
        } else if inner > IEEE_8023_MAXIMUM_LENGTH {
            Some(false)
        } else {
            Some(snap_arp_words_at(frame, 18))
        }
    } else {
        Some(false)
    }) by {
        if length >= 18 {
            let inner = be16(frame, 16) as u32;
            assert(bpf_verdict(p, frame, 10, inner) == (if inner == ETHERNET_TYPE_ARP {
                Some(true)
            } else if inner > IEEE_8023_MAXIMUM_LENGTH {
                Some(false)
            } else {
                Some(snap_arp_words_at(frame, 18))
            }));
        }
    }
    assert forall|a: u32| #[trigger] bpf_verdict(p, frame, 16, a) == (if length >= 18 {
        if be16(frame, 16) as u32 == ETHERNET_TYPE_VLAN_TAG {
            if length >= 22 {
                let inner = be16(frame, 20) as u32;
                if inner == ETHERNET_TYPE_ARP {
                    Some(true)
                } else if inner > IEEE_8023_MAXIMUM_LENGTH {
                    Some(false)
                } else {
                    Some(snap_arp_words_at(frame, 22))
                }
            } else {
                Some(false)
            }
        } else {
            Some(false)
        }
    } else {
        Some(false)
    }) by {
        if length >= 18 {
            let tpid = be16(frame, 16) as u32;
            assert(bpf_verdict(p, frame, 17, tpid) == (if tpid == ETHERNET_TYPE_VLAN_TAG {
                bpf_verdict(p, frame, 18, tpid)
            } else {
                Some(false)
            }));
            assert(bpf_verdict(p, frame, 18, tpid) == (if length >= 22 {
                bpf_verdict(p, frame, 19, be16(frame, 20) as u32)
            } else {
                Some(false)
            }));
            if length >= 22 {
                let inner = be16(frame, 20) as u32;
                assert(bpf_verdict(p, frame, 19, inner) == (if inner == ETHERNET_TYPE_ARP {
                    Some(true)
                } else if inner > IEEE_8023_MAXIMUM_LENGTH {
                    Some(false)
                } else {
                    Some(snap_arp_words_at(frame, 22))
                }));
            }
        }
    }
}


/// The ARP capture filter accepts exactly the frames the Ethernet parser reads as ARP: Ethernet
/// II ARP, ARP behind one IEEE 802.1Q customer tag or behind a service tag wrapping one customer
/// tag, and RFC 1042 LLC/SNAP ARP under each of those; every other frame, including every tag
/// arrangement the parser rejects, is dropped.
pub proof fn lemma_arp_capture_filter_matches_parser(frame: Seq<u8>)
    ensures
        bpf_verdict(arp_capture_filter_program(), frame, 0, 0) == Some(parses_as_arp(frame)),
{
    let p = arp_capture_filter_program();
    lemma_filter_steps(frame);
    if frame.len() >= 22 {
        lemma_snap_words(frame, 14);
    }
    if frame.len() >= 26 {
        lemma_snap_words(frame, 18);
    }
    if frame.len() >= 30 {
        lemma_snap_words(frame, 22);
    }
    if frame.len() >= 14 {
        let t = be16(frame, 12) as u32;
        assert(bpf_verdict(p, frame, 1, t) == (if t == ETHERNET_TYPE_ARP {
            Some(true)
        } else if t == ETHERNET_TYPE_VLAN_TAG {
            bpf_verdict(p, frame, 9, t)
        } else if t == ETHERNET_TYPE_VLAN_TAG_SERVICE {
            bpf_verdict(p, frame, 16, t)
        } else if t > IEEE_8023_MAXIMUM_LENGTH {
            Some(false)
        } else {
            Some(snap_arp_words_at(frame, 14))
        }));
        assert(bpf_verdict(p, frame, 9, t) == bpf_verdict(p, frame, 9, 0));
        assert(bpf_verdict(p, frame, 16, t) == bpf_verdict(p, frame, 16, 0));
    }
}


/// `value` rounded up to the next multiple of [`BPF_RECORD_ALIGNMENT`].
pub open spec fn word_aligned(value: nat) -> nat {
    ((value + 3) / 4 * 4) as nat
}

/// Rounds `value` up to the next [`BPF_RECORD_ALIGNMENT`] boundary (`BPF_WORDALIGN`), wrapping to
/// zero as the C macro does when the rounded value does not fit `usize`.
pub fn bpf_word_align(value: usize) -> (aligned: usize)
    ensures
        value <= usize::MAX - 3 ==> aligned == word_aligned(value as nat),
        value > usize::MAX - 3 ==> aligned == 0,
{
    let sum = value.wrapping_add(BPF_RECORD_ALIGNMENT - 1);
    let aligned = sum & !(BPF_RECORD_ALIGNMENT - 1);
    proof {
        if value <= usize::MAX - 3 {
            assert(sum == value + 3);
            assert(sum & !3usize == sum / 4 * 4) by (bit_vector);
        } else {
            assert(sum <= 2);
            assert(sum <= 2 ==> sum & !3usize == 0) by (bit_vector);
        }
    }
    aligned
}

/// Offset of `bh_caplen` in the macOS `struct bpf_hdr` (after the 8-octet 32-bit timestamp).
pub const BPF_HEADER_CAPTURE_LENGTH_OFFSET: usize = 8;

/// Offset of `bh_hdrlen` in the macOS `struct bpf_hdr` (after the two 32-bit length fields).
pub const BPF_HEADER_HEADER_LENGTH_OFFSET: usize = 16;

/// Where the record at `cursor` puts its frame and where the next record starts,
/// `(frame_start, frame_end, next_cursor)`, given the record's capture length and header length;
/// `None` when the frame runs past the buffer, the record is empty, or the next cursor does not
/// fit `usize`.
pub open spec fn bpf_record_bounds(
    buffer_length: nat,
    cursor: nat,
    capture_length: nat,
    header_length: nat,
) -> Option<(usize, usize, usize)> {
    let frame_start = cursor + header_length;
    let frame_end = frame_start + capture_length;
    let record_length = word_aligned(header_length + capture_length);
    if frame_end > buffer_length || record_length == 0 || cursor + record_length > usize::MAX {
        None
    } else {
        Some((frame_start as usize, frame_end as usize, (cursor + record_length) as usize))
    }
}

/// The record header at `cursor` lies inside the buffer.
pub open spec fn bpf_header_fits(buffer_length: nat, cursor: nat) -> bool {
    cursor + BPF_HEADER_HEADER_LENGTH_OFFSET + 2 <= buffer_length
}

/// Where the record at `cursor` of `buffer` lies, as [`bpf_record_bounds`] gives it for the
/// record's capture length (`bh_caplen`, four octets at `cursor + 8`) and header length
/// (`bh_hdrlen`, two octets at `cursor + 16`) read in the byte order of the machine; `None` when
/// the header itself runs past the buffer.
pub open spec fn bpf_record_at(buffer: Seq<u8>, cursor: nat) -> Option<(usize, usize, usize)> {
    if !bpf_header_fits(buffer.len(), cursor) {
        None
    } else {
        bpf_record_bounds(
            buffer.len(),
            cursor,
            native32(buffer, cursor as int + 8) as nat,
            native16(buffer, cursor as int + 16) as nat,
        )
    }
}

fn record_bounds(buffer_length: usize, cursor: usize, capture_length: u32, header_length: u16) -> (bounds:
    Option<(usize, usize, usize)>)
    requires
        cursor <= buffer_length,
    ensures
        bounds == bpf_record_bounds(
            buffer_length as nat,
            cursor as nat,
            capture_length as nat,
            header_length as nat,
        ),
{
    let capture_length = capture_length as usize;
    let header_length = header_length as usize;
    let frame_start = match cursor.checked_add(header_length) {
        Some(start) => start,
        None => {
            return None;
        },
    };
    let frame_end = match frame_start.checked_add(capture_length) {
        Some(end) => end,
        None => {
            return None;
        },
    };
    if frame_end > buffer_length {
        return None;
    }
    let record_span = match header_length.checked_add(capture_length) {
        Some(span) => span,
        None => {
            return None;
        },
    };
    let record_length = bpf_word_align(record_span);
    if record_length == 0 {
        return None;
    }
    let next_cursor = match cursor.checked_add(record_length) {
        Some(next) => next,
        None => {
            return None;
        },
    };
    Some((frame_start, frame_end, next_cursor))
}

/// Locates the next captured frame in a BPF read buffer starting at `cursor`.
///
/// Returns `(frame_start, frame_end, next_cursor)`, or `None` when the remaining octets cannot
/// hold a complete record (a partial trailing record, or a malformed empty one). The header's
/// length fields are read in the byte order of the machine.
pub fn next_bpf_record(buffer: &[u8], cursor: usize) -> (bounds: Option<(usize, usize, usize)>)
    ensures
        bounds == bpf_record_at(buffer@, cursor as nat),
        bounds matches Some((start, end, next)) ==> cursor <= start <= end <= buffer@.len() && cursor
            < next,
{
    let buffer_length = buffer.len();
    if cursor > buffer_length || buffer_length - cursor < BPF_HEADER_HEADER_LENGTH_OFFSET + 2 {
        return None;
    }
    let capture_length_offset = cursor + BPF_HEADER_CAPTURE_LENGTH_OFFSET;
    let header_length_offset = cursor + BPF_HEADER_HEADER_LENGTH_OFFSET;
    let capture_length_octets: [u8; 4] = [
        buffer[capture_length_offset],
        buffer[capture_length_offset + 1],
        buffer[capture_length_offset + 2],
        buffer[capture_length_offset + 3],
    ];
    let header_length_octets: [u8; 2] = [buffer[header_length_offset], buffer[header_length_offset + 1]];
    let capture_length = native_endian_u32(capture_length_octets);
    let header_length = native_endian_u16(header_length_octets);
    let bounds = record_bounds(buffer_length, cursor, capture_length, header_length);
    proof {
        assert(le32(capture_length_octets@, 0) == le32(buffer@, cursor + 8));
        assert(be32(capture_length_octets@, 0) == be32(buffer@, cursor + 8));
        assert(le16(header_length_octets@, 0) == le16(buffer@, cursor + 16));
        assert(be16(header_length_octets@, 0) == be16(buffer@, cursor + 16));
        assert(capture_length == native32(buffer@, cursor + 8));
        assert(header_length == native16(buffer@, cursor + 16));
    }
    bounds
}


/// Walks the records of one BPF read, one frame at a time.
///
/// The read buffer itself stays with the caller, which fills it with `read(2)` and reports how
/// many octets arrived with [`BpfRecordReader::start_read`]; the reader keeps how much of the
/// buffer is filled and where the next record starts.
#[derive(Debug, Clone, Copy, PartialEq, Eq)]
pub struct BpfRecordReader {
    filled_length: usize,
    parse_cursor: usize,
}

impl BpfRecordReader {
    /// Octets of the read buffer filled by the last read.
    pub closed spec fn filled(self) -> nat {
        self.filled_length as nat
    }

    /// Where the next record starts.
    pub closed spec fn cursor(self) -> nat {
        self.parse_cursor as nat
    }

    /// The cursor never passes the filled part of the buffer.
    pub closed spec fn well_formed(self) -> bool {
        self.parse_cursor <= self.filled_length
    }

    /// A reader with nothing buffered.
    pub fn new() -> (reader: BpfRecordReader)
        ensures
            reader.well_formed(),
            reader.filled() == 0,
            reader.cursor() == 0,
    {
        BpfRecordReader { filled_length: 0, parse_cursor: 0 }
    }

    /// Whether buffered records remain to be walked.
    pub fn has_buffered_records(&self) -> (remaining: bool)
        ensures
            remaining == (self.cursor() < self.filled()),
    {
        self.parse_cursor < self.filled_length
    }

    /// Records that a read placed `received` octets at the start of the read buffer; the walk
    /// starts again at its first record.
    pub fn start_read(&mut self, received: usize)
        ensures
            final(self).well_formed(),
            final(self).filled() == received,
            final(self).cursor() == 0,
    {
        self.filled_length = received;
        self.parse_cursor = 0;
    }

    /// Copies the next buffered frame of `read_buffer` into `destination`, truncated to
    /// `destination.len()` octets, and returns how many octets were copied; returns `None`, and
    /// gives up the rest of the buffer, when no complete record remains.
    pub fn next_frame(&mut self, read_buffer: &[u8], destination: &mut [u8]) -> (copied: Option<
        usize,
    >)
        requires
            old(self).well_formed(),
            old(self).filled() <= read_buffer@.len(),
        ensures
            final(self).well_formed(),
            final(self).filled() == old(self).filled(),
            final(destination)@.len() == old(destination)@.len(),
            ({
                let buffered = read_buffer@.subrange(0, old(self).filled() as int);
                if old(self).cursor() < old(self).filled() {
                    match bpf_record_at(buffered, old(self).cursor()) {
                        Some((start, end, next)) => {
                            let length = if end - start <= old(destination)@.len() {
                                (end - start) as nat
                            } else {
                                old(destination)@.len()
                            };
                            &&& copied == Some(length as usize)
                            &&& final(destination)@ == buffered.subrange(
                                start as int,
                                start + length,
                            ) + old(destination)@.subrange(
                                length as int,
                                old(destination)@.len() as int,
                            )
                            &&& final(self).cursor() == (if next <= old(self).filled() {
                                next as nat
                            } else {
                                old(self).filled()
                            })
                            &&& final(self).cursor() > old(self).cursor()
                        },
                        None => {
                            &&& copied is None
                            &&& final(destination)@ == old(destination)@
                            &&& final(self).cursor() == old(self).filled()
                        },
                    }
                } else {
                    &&& copied is None
                    &&& final(destination)@ == old(destination)@
                    &&& final(self).cursor() == old(self).cursor()
                }
            }),
    {
        if self.parse_cursor >= self.filled_length {
            return None;
        }
        let buffered = vstd::slice::slice_subrange(read_buffer, 0, self.filled_length);
        let record = next_bpf_record(buffered, self.parse_cursor);
        match record {
            Some((frame_start, frame_end, next_cursor)) => {
                let frame_length = frame_end - frame_start;
                let copy_length = if frame_length <= destination.len() {
                    frame_length
                } else {
                    destination.len()
                };
                let ghost before = destination@;
                let buffered_length = buffered.len();
                let mut index: usize = 0;
                while index < copy_length
                    invariant
                        index <= copy_length <= destination@.len(),
                        destination@.len() == before.len(),
                        frame_start + copy_length <= buffered@.len(),
                        buffered@.len() == buffered_length,
                        forall|j: int| 0 <= j < index ==> destination@[j] == buffered@[frame_start + j],
                        forall|j: int| index <= j < before.len() ==> destination@[j] == before[j],
                    decreases copy_length - index,
                {
                    destination[index] = buffered[frame_start + index];
                    index = index + 1;
                }
                assert(destination@ =~= buffered@.subrange(
                    frame_start as int,
                    frame_start + copy_length,
                ) + before.subrange(copy_length as int, before.len() as int));
                self.parse_cursor = if next_cursor <= self.filled_length {
                    next_cursor
                } else {
                    self.filled_length
                };
                Some(copy_length)
            },
            None => {
                self.parse_cursor = self.filled_length;
                None
            },
        }
    }
}

/// `ioctl(2)` direction flag for reading a value from the kernel (`IOC_OUT`).
pub const IOCTL_DIRECTION_OUT: u64 = 0x4000_0000;

/// `ioctl(2)` direction flag for writing a value to the kernel (`IOC_IN`).
pub const IOCTL_DIRECTION_IN: u64 = 0x8000_0000;

/// Mask limiting the encoded parameter length (`IOCPARM_MASK`).
pub const IOCTL_PARAMETER_MASK: u64 = 0x1fff;

/// `ioctl(2)` group character for Berkeley Packet Filter requests (`'B'`).
pub const BPF_IOCTL_GROUP: u8 = 66;

/// Encodes a BSD `ioctl(2)` request code the way the `_IOR`/`_IOW`/`_IO` macros in
/// `sys/ioccom.h` do: the direction bits, the parameter length (masked to 13 bits) in bits 16 and
/// up, the group in bits 8 to 15 and the number in bits 0 to 7.
pub fn encode_ioctl_request(direction: u64, group: u8, number: u8, parameter_length: usize) -> (request:
    u64)
    ensures
        request == direction | (((parameter_length as u64) & IOCTL_PARAMETER_MASK) << 16u64) | ((
        group as u64) << 8u64) | (number as u64),
{
    direction | (((parameter_length as u64) & IOCTL_PARAMETER_MASK) << 16u64) | ((group as u64)
        << 8u64) | (number as u64)
}

/// For direction flags in bits 29 to 31 the request code carries each field whole: direction,
/// parameter length (masked), group and number can be read back from their bit ranges.
pub proof fn lemma_ioctl_request_fields(direction: u64, group: u8, number: u8, parameter_length: u64)
    requires
        direction & 0x1fff_ffff == 0,
        direction < 0x1_0000_0000,
    ensures
        ({
            let request = direction | ((parameter_length & 0x1fff) << 16u64) | ((group as u64)
                << 8u64) | (number as u64);
            &&& request & 0xff == number as u64
            &&& (request >> 8u64) & 0xff == group as u64
            &&& (request >> 16u64) & 0x1fff == parameter_length & 0x1fff
            &&& request & 0xe000_0000 == direction
        }),
{
    let g = group as u64;
    let n = number as u64;
    assert(g < 256 && n < 256);
    assert(({
        let request = direction | ((parameter_length & 0x1fff) << 16u64) | (g << 8u64) | n;
        &&& request & 0xff == n
        &&& (request >> 8u64) & 0xff == g
        &&& (request >> 16u64) & 0x1fff == parameter_length & 0x1fff
        &&& request & 0xe000_0000 == direction
    })) by (bit_vector)
        requires
            direction & 0x1fff_ffff == 0,
            direction < 0x1_0000_0000,
            g < 256,
            n < 256,
    ;
}

} // verus!
