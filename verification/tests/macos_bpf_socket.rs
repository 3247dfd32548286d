use new_arp_scan::macos_bpf_socket::{
    encode_ioctl_request, BpfRecordReader, BPF_IOCTL_GROUP, IOCTL_DIRECTION_IN,
    IOCTL_DIRECTION_OUT, arp_capture_filter, bpf_word_align, length_type_field_offset, next_bpf_record,
    BpfProgramInstruction, BPF_HEADER_CAPTURE_LENGTH_OFFSET, BPF_HEADER_HEADER_LENGTH_OFFSET,
    BPF_JUMP_IF_EQUAL_CONSTANT, BPF_JUMP_IF_GREATER_THAN_CONSTANT, BPF_LOAD_HALFWORD_ABSOLUTE,
    BPF_LOAD_WORD_ABSOLUTE, BPF_RECORD_ALIGNMENT, BPF_RETURN_CONSTANT,
};

/// Offset of `bh_datalen` in the macOS BPF record header (after the timestamp and `bh_caplen`).
const BPF_HEADER_DATA_LENGTH_OFFSET: usize = 12;

/// Builds one BPF record: a word-aligned header carrying `frame`, followed by the frame bytes,
/// followed by trailing padding to the next record boundary.
fn build_bpf_record(frame: &[u8]) -> Vec<u8> {
    let header_length = bpf_word_align(BPF_HEADER_HEADER_LENGTH_OFFSET + 2);
    let mut record = vec![0u8; header_length];
    let capture_length = u32::try_from(frame.len()).expect("fixture frame fits u32");
    record[BPF_HEADER_CAPTURE_LENGTH_OFFSET..BPF_HEADER_CAPTURE_LENGTH_OFFSET + 4]
        .copy_from_slice(&capture_length.to_ne_bytes());
    record[BPF_HEADER_DATA_LENGTH_OFFSET..BPF_HEADER_DATA_LENGTH_OFFSET + 4]
        .copy_from_slice(&capture_length.to_ne_bytes());
    let header_length_value = u16::try_from(header_length).expect("header length fits u16");
    record[BPF_HEADER_HEADER_LENGTH_OFFSET..BPF_HEADER_HEADER_LENGTH_OFFSET + 2]
        .copy_from_slice(&header_length_value.to_ne_bytes());
    record.extend_from_slice(frame);
    while record.len() % BPF_RECORD_ALIGNMENT != 0 {
        record.push(0);
    }
    record
}

fn classic_bpf_accepts_frame(filter: &[BpfProgramInstruction], frame: &[u8]) -> bool {
    let mut program_counter = 0usize;
    let mut accumulator = 0u32;
    for _ in 0..=filter.len() {
        let instruction = filter
            .get(program_counter)
            .expect("BPF program counter should stay inside the filter");
        match instruction.code {
            BPF_LOAD_HALFWORD_ABSOLUTE => {
                let offset = usize::try_from(instruction.operand).expect("offset fits usize");
                let Some(octets) = frame.get(offset..offset + 2) else {
                    return false;
                };
                accumulator = u32::from(u16::from_be_bytes([octets[0], octets[1]]));
                program_counter += 1;
            }
            BPF_LOAD_WORD_ABSOLUTE => {
                let offset = usize::try_from(instruction.operand).expect("offset fits usize");
                let Some(octets) = frame.get(offset..offset + 4) else {
                    return false;
                };
                accumulator = u32::from_be_bytes([octets[0], octets[1], octets[2], octets[3]]);
                program_counter += 1;
            }
            BPF_JUMP_IF_EQUAL_CONSTANT => {
                let skip = if accumulator == instruction.operand {
                    usize::from(instruction.jump_if_true)
                } else {
                    usize::from(instruction.jump_if_false)
                };
                program_counter = program_counter
                    .checked_add(1)
                    .and_then(|next| next.checked_add(skip))
                    .expect("BPF jump should stay in range");
            }
            BPF_JUMP_IF_GREATER_THAN_CONSTANT => {
                let skip = if accumulator > instruction.operand {
                    usize::from(instruction.jump_if_true)
                } else {
                    usize::from(instruction.jump_if_false)
                };
                program_counter = program_counter
                    .checked_add(1)
                    .and_then(|next| next.checked_add(skip))
                    .expect("BPF jump should stay in range");
            }
            BPF_RETURN_CONSTANT => {
                return instruction.operand != 0;
            }
            other => panic!("unexpected BPF opcode {other:#x} in ARP capture filter"),
        }
    }
    panic!("ARP capture filter did not return");
}

/// Builds a 60-octet fixture: broadcast destination, a fixed source, then `fragments`.
fn ethernet_fixture(fragments: &[&[u8]]) -> [u8; 60] {
    let mut frame = [0u8; 60];
    let header: [u8; 12] = [0xff, 0xff, 0xff, 0xff, 0xff, 0xff, 0x02, 0, 0, 0, 0, 1];
    frame[..header.len()].copy_from_slice(&header);
    let mut cursor = header.len();
    for fragment in fragments {
        frame[cursor..cursor + fragment.len()].copy_from_slice(fragment);
        cursor += fragment.len();
    }
    frame
}

/// IEEE 802.1Q customer tag protocol identifier (C-TAG).
const C_TAG: &[u8] = &[0x81, 0x00];
/// IEEE 802.1Q service tag protocol identifier (S-TAG, IANA `EtherType` 34984).
const S_TAG: &[u8] = &[0x88, 0xa8];
/// Unofficial vendor `QinQ` TPID `0x9100`.
const QINQ_9100: &[u8] = &[0x91, 0x00];
/// `EtherType` for ARP.
const ARP: &[u8] = &[0x08, 0x06];
/// `EtherType` for IPv4.
const IPV4: &[u8] = &[0x08, 0x00];
/// RFC 1042 LLC/SNAP prefix `AA AA 03 00 00 00`, without the encapsulated `EtherType`.
const SNAP: &[u8] = &[0xaa, 0xaa, 0x03, 0x00, 0x00, 0x00];
/// An IEEE 802.3 length field of 36: LLC + SNAP + a 28-octet ARP PDU.
const SNAP_LENGTH: &[u8] = &[0x00, 0x24];
/// Eight octets that are not RFC 1042 LLC/SNAP.
const NOT_SNAP: &[u8] = &[0u8; 8];
/// TCI for service PCP 5, DEI 1, S-VID 100.
const SERVICE_TCI: &[u8] = &[0xb0, 0x64];
/// TCI for customer PCP 0, DEI 0, C-VID 10.
const CUSTOMER_TCI: &[u8] = &[0x00, 0x0a];

/// Runs each `(name, fragments, expected)` case through the filter and asserts the verdict.
fn assert_filter_verdicts(cases: &[(&str, &[&[u8]], bool)]) {
    let filter = arp_capture_filter();
    let outcomes: Vec<(&str, bool, bool)> = cases
        .iter()
        .map(|(name, fragments, expected)| {
            let frame = ethernet_fixture(fragments);
            (*name, classic_bpf_accepts_frame(&filter, &frame), *expected)
        })
        .collect();
    for (name, accepted, expected) in outcomes {
        assert_eq!(
            accepted, expected,
            "BPF filter verdict for `{name}` should be accept={expected}"
        );
    }
}

#[test]
fn capture_and_header_length_offsets_match_macos_bpf_header() {
    // Arrange
    // Act
    // Assert
    assert_eq!(
        BPF_HEADER_CAPTURE_LENGTH_OFFSET,
        8,
        "bh_caplen should sit after the 8-byte 32-bit BPF timestamp"
    );
    assert_eq!(
        BPF_HEADER_HEADER_LENGTH_OFFSET,
        16,
        "bh_hdrlen should sit after the two 32-bit length fields"
    );
}

#[test]
fn word_align_rounds_up_to_four_byte_boundary() {
    // Arrange
    // Act
    // Assert
    assert_eq!(bpf_word_align(0), 0, "zero stays aligned");
    assert_eq!(bpf_word_align(1), 4, "one rounds up to four");
    assert_eq!(bpf_word_align(18), 20, "the 18-byte header rounds to 20");
    assert_eq!(
        bpf_word_align(20),
        20,
        "already-aligned values are unchanged"
    );
}

#[test]
fn next_bpf_record_extracts_single_frame() {
    // Arrange
    let frame = [0xFFu8, 0xFF, 0xFF, 0xFF, 0xFF, 0xFF, 0x01, 0x02, 0x03, 0x04];
    let buffer = build_bpf_record(&frame);

    // Act
    let outcome = next_bpf_record(&buffer, 0);

    // Assert
    let (start, end, next) = outcome.expect("a complete record should be located");
    assert_eq!(
        &buffer[start..end],
        &frame,
        "extracted bytes should equal the frame"
    );
    assert_eq!(
        next,
        buffer.len(),
        "the next cursor should advance past the only record"
    );
}

#[test]
fn next_bpf_record_walks_two_aggregated_frames() {
    // Arrange
    let first_frame = [0xAAu8; 12];
    let second_frame = [0xBBu8; 20];
    let mut buffer = build_bpf_record(&first_frame);
    buffer.extend_from_slice(&build_bpf_record(&second_frame));

    // Act
    let (first_start, first_end, first_next) =
        next_bpf_record(&buffer, 0).expect("first record should be located");
    let (second_start, second_end, second_next) =
        next_bpf_record(&buffer, first_next).expect("second record should be located");

    // Assert
    assert_eq!(
        &buffer[first_start..first_end],
        &first_frame,
        "first frame should de-aggregate correctly"
    );
    assert_eq!(
        &buffer[second_start..second_end],
        &second_frame,
        "second frame should de-aggregate correctly after word-aligned advance"
    );
    assert_eq!(
        second_next,
        buffer.len(),
        "walking should end exactly at the buffer length"
    );
}

#[test]
fn next_bpf_record_returns_none_for_partial_trailing_header() {
    // Arrange
    let buffer = [0u8; 4];

    // Act
    let outcome = next_bpf_record(&buffer, 0);

    // Assert
    assert!(
        outcome.is_none(),
        "a buffer too small for a header should yield no record, got: {outcome:?}"
    );
}

#[test]
fn next_bpf_record_returns_none_when_capture_length_exceeds_buffer() {
    // Arrange
    let frame = [0x10u8; 8];
    let mut buffer = build_bpf_record(&frame);
    // Truncate so the advertised capture length runs past the available bytes.
    buffer.truncate(buffer.len() - 4);

    // Act
    let outcome = next_bpf_record(&buffer, 0);

    // Assert
    assert!(
        outcome.is_none(),
        "a capture length past the buffer end should be rejected, got: {outcome:?}"
    );
}

#[test]
fn arp_capture_filter_accepts_every_arp_framing_the_parser_accepts() {
    // Arrange: one fixture per accepting path through the filter.
    let cases: [(&str, &[&[u8]], bool); 7] = [
        ("untagged Ethernet II ARP", &[ARP], true),
        ("customer tag then ARP", &[C_TAG, CUSTOMER_TCI, ARP], true),
        (
            "untagged RFC 1042 SNAP ARP",
            &[SNAP_LENGTH, SNAP, ARP],
            true,
        ),
        (
            "customer tag then RFC 1042 SNAP ARP",
            &[C_TAG, CUSTOMER_TCI, SNAP_LENGTH, SNAP, ARP],
            true,
        ),
        (
            "service tag wrapping a customer tag then ARP",
            &[S_TAG, SERVICE_TCI, C_TAG, CUSTOMER_TCI, ARP],
            true,
        ),
        (
            "service tag wrapping a customer tag then RFC 1042 SNAP ARP",
            &[
                S_TAG,
                SERVICE_TCI,
                C_TAG,
                CUSTOMER_TCI,
                SNAP_LENGTH,
                SNAP,
                ARP,
            ],
            true,
        ),
        (
            "service tag with the maximum TCI wrapping a customer tag then ARP",
            &[S_TAG, &[0xff, 0xff], C_TAG, &[0xff, 0xff], ARP],
            true,
        ),
    ];

    // Act
    // Assert
    assert_filter_verdicts(&cases);
}

#[test]
fn arp_capture_filter_drops_non_arp_and_every_unsupported_tag_arrangement() {
    // Arrange: non-ARP traffic under each accepted framing, then the tag arrangements the
    // userspace parser rejects, so the kernel never hands them to the scanner at all.
    let cases: [(&str, &[&[u8]], bool); 12] = [
        ("untagged Ethernet II IPv4", &[IPV4], false),
        (
            "customer tag then IPv4",
            &[C_TAG, CUSTOMER_TCI, IPV4],
            false,
        ),
        (
            "untagged RFC 1042 SNAP IPv4",
            &[SNAP_LENGTH, SNAP, IPV4],
            false,
        ),
        (
            "IEEE 802.3 length without RFC 1042 SNAP",
            &[SNAP_LENGTH, NOT_SNAP],
            false,
        ),
        (
            "service tag wrapping a customer tag then IPv4",
            &[S_TAG, SERVICE_TCI, C_TAG, CUSTOMER_TCI, IPV4],
            false,
        ),
        (
            "service tag wrapping a customer tag then RFC 1042 SNAP IPv4",
            &[
                S_TAG,
                SERVICE_TCI,
                C_TAG,
                CUSTOMER_TCI,
                SNAP_LENGTH,
                SNAP,
                IPV4,
            ],
            false,
        ),
        (
            "service tag then ARP with no customer tag",
            &[S_TAG, SERVICE_TCI, ARP],
            false,
        ),
        (
            "two stacked service tags",
            &[S_TAG, SERVICE_TCI, S_TAG, CUSTOMER_TCI, ARP],
            false,
        ),
        (
            "two stacked customer tags",
            &[C_TAG, CUSTOMER_TCI, C_TAG, &[0x00, 0x02], ARP],
            false,
        ),
        (
            "three stacked tags",
            &[
                S_TAG,
                SERVICE_TCI,
                C_TAG,
                CUSTOMER_TCI,
                C_TAG,
                &[0x00, 0x03],
                ARP,
            ],
            false,
        ),
        (
            "unofficial QinQ TPID 0x9100",
            &[QINQ_9100, CUSTOMER_TCI, ARP],
            false,
        ),
        (
            "stacked tags then a length without RFC 1042 SNAP",
            &[
                S_TAG,
                SERVICE_TCI,
                C_TAG,
                CUSTOMER_TCI,
                SNAP_LENGTH,
                NOT_SNAP,
            ],
            false,
        ),
    ];

    // Act
    // Assert
    assert_filter_verdicts(&cases);
}

#[test]
fn arp_capture_filter_structure_matches_the_documented_branch_layout() {
    // Arrange
    let filter = arp_capture_filter();

    // Act
    // Assert
    assert_eq!(
        filter.len(),
        27,
        "filter should cover Ethernet II, one customer tag, a service tag pair, and SNAP \
         under each"
    );
    assert_eq!(
        filter[0].operand, 12,
        "first load is the Ethernet length/type field"
    );
    assert_eq!(filter[1].operand, 0x0806, "first compare is EtherType ARP");
    assert_eq!(
        filter[2].operand, 0x8100,
        "second compare is the IEEE 802.1Q customer TPID"
    );
    assert_eq!(
        filter[3].operand, 0x88A8,
        "third compare is the IEEE 802.1Q service TPID (IANA EtherType 34984)"
    );
    assert_eq!(
        filter[17].operand, 0x8100,
        "the service branch requires a customer TPID at offset 16"
    );
    assert_eq!(filter[25].operand, 0, "drop returns zero capture length");
    assert_eq!(
        filter[26].operand,
        u32::MAX,
        "accept returns the whole frame"
    );
}

#[test]
fn length_type_field_offset_tracks_one_tag_per_four_octets() {
    // Arrange
    // Act
    // Assert
    assert_eq!(
        length_type_field_offset(0),
        12,
        "untagged length/type field"
    );
    assert_eq!(
        length_type_field_offset(1),
        16,
        "one IEEE 802.1Q tag shifts the inner field by 4 octets"
    );
    assert_eq!(
        length_type_field_offset(2),
        20,
        "an S-TAG plus a C-TAG shifts the inner field by 8 octets"
    );
}



#[test]
fn record_reader_copies_each_buffered_frame_in_order() {
    let first_frame = [0x11u8; 14];
    let second_frame = [0x22u8; 18];
    let mut buffer = build_bpf_record(&first_frame);
    buffer.extend_from_slice(&build_bpf_record(&second_frame));
    let mut reader = BpfRecordReader::new();
    assert!(!reader.has_buffered_records());
    reader.start_read(buffer.len());
    let mut destination = [0u8; 64];
    let first = reader.next_frame(&buffer, &mut destination).expect("first frame");
    assert_eq!(&destination[..first], &first_frame);
    let second = reader.next_frame(&buffer, &mut destination).expect("second frame");
    assert_eq!(&destination[..second], &second_frame);
    assert_eq!(reader.next_frame(&buffer, &mut destination), None);
    assert!(!reader.has_buffered_records());
}

#[test]
fn ioctl_request_encoder_matches_documented_macos_values() {
    // BIOCSSEESENT = _IOW('B', 119, u_int) and BIOCSETIF = _IOW('B', 108, struct ifreq).
    assert_eq!(encode_ioctl_request(IOCTL_DIRECTION_IN, BPF_IOCTL_GROUP, 119, 4), 0x8004_4277);
    assert_eq!(encode_ioctl_request(IOCTL_DIRECTION_IN, BPF_IOCTL_GROUP, 108, 32), 0x8020_426C);
    // BIOCGBLEN = _IOR('B', 102, u_int); an oversized length is masked to 13 bits.
    assert_eq!(encode_ioctl_request(IOCTL_DIRECTION_OUT, BPF_IOCTL_GROUP, 102, 4), 0x4004_4266);
    assert_eq!(encode_ioctl_request(0, 0, 0, 0x2001), 0x0001_0000);
}

/// `BIOCSSEESENT` as `net/bpf.h` defines it on macOS (`_IOW('B', 119, u_int)`).
const BIOCSSEESENT_ON_MACOS: u64 = 0x8004_4277;

/// Size of `struct ifreq` on macOS, which `BIOCSETIF` encodes as its parameter length.
const MACOS_INTERFACE_REQUEST_SIZE: usize = 32;

#[test]
fn ioctl_request_encoder_matches_libc_bioseesent() {
    let encoded = encode_ioctl_request(IOCTL_DIRECTION_IN, b'B', 119, 4);

    assert_eq!(
        encoded, BIOCSSEESENT_ON_MACOS,
        "encoded _IOW('B', 119, u_int) should match libc::BIOCSSEESENT"
    );
}

#[test]
fn bioc_setif_matches_documented_macos_value() {
    let expected: u64 = 0x8020_426c;

    let encoded = encode_ioctl_request(
        IOCTL_DIRECTION_IN,
        BPF_IOCTL_GROUP,
        108,
        MACOS_INTERFACE_REQUEST_SIZE,
    );

    assert_eq!(
        encoded, expected,
        "BIOCSETIF should match the documented macOS request code 0x8020426c"
    );
}
