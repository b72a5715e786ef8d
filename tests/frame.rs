use websocket_lite::{DataLength, FrameHeader, FrameHeaderCodec, Mask};

fn round_trip(header: FrameHeader) {
    let mut codec = FrameHeaderCodec;
    let mut bytes = Vec::new();
    codec.encode(&header, &mut bytes);
    assert_eq!(bytes.len(), header.header_len());
    let (header2, len) = codec.decode(&bytes).expect("expected a complete header");
    assert_eq!(len, header.header_len());
    assert_eq!(header2, header);
}

#[test]
fn header_round_trips_text_and_binary() {
    for &fin in &[false, true] {
        for &opcode in &[1u8, 2u8] {
            for &mask in &[None, Some(0u32), Some(0xdead_beef)] {
                for &len in &[0u64, 1, 125, 126, 127, 65535, 65536, 1 << 40] {
                    round_trip(FrameHeader::new(fin, 0, opcode, mask.map(Mask), DataLength::from_u64(len)));
                }
            }
        }
    }
}

#[test]
fn canonical_length_classes() {
    assert_eq!(DataLength::from_u64(0), DataLength::Small(0));
    assert_eq!(DataLength::from_u64(125), DataLength::Small(125));
    assert_eq!(DataLength::from_u64(126), DataLength::Medium(126));
    assert_eq!(DataLength::from_u64(65535), DataLength::Medium(65535));
    assert_eq!(DataLength::from_u64(65536), DataLength::Large(65536));
}

#[test]
fn header_lengths_by_class_and_mask() {
    let h = |len: u64, mask: Option<u32>| FrameHeader::new(true, 0, 2, mask.map(Mask), DataLength::from_u64(len));
    assert_eq!(h(0, None).header_len(), 2);
    assert_eq!(h(126, None).header_len(), 4);
    assert_eq!(h(65536, None).header_len(), 10);
    assert_eq!(h(0, Some(1)).header_len(), 6);
    assert_eq!(h(65536, Some(1)).header_len(), 14);
}

#[test]
fn medium_header_bytes() {
    let mut bytes = Vec::new();
    FrameHeader::new(true, 0, 2, Some(Mask(0x0403_0201)), DataLength::Medium(0x1234)).write_to_bytes(&mut bytes);
    assert_eq!(bytes, vec![0x82, 0xfe, 0x12, 0x34, 0x01, 0x02, 0x03, 0x04]);
}

#[test]
fn large_header_bytes() {
    let mut bytes = vec![0xaa];
    FrameHeader::new(false, 0, 1, None, DataLength::Large(0x0102_0304_0506_0708)).write_to_bytes(&mut bytes);
    assert_eq!(bytes, vec![0xaa, 0x01, 0x7f, 1, 2, 3, 4, 5, 6, 7, 8]);
}

#[test]
fn parse_needs_whole_header() {
    let full = [0x81u8, 0xfe, 0x00, 0x80, 1, 2, 3, 4];
    for n in 0..full.len() {
        assert!(FrameHeader::parse_slice(&full[..n]).is_none());
    }
    let (h, len) = FrameHeader::parse_slice(&full).unwrap();
    assert_eq!(len, 8);
    assert!(h.fin());
    assert_eq!(h.rsv(), 0);
    assert_eq!(h.opcode(), 1);
    assert_eq!(h.mask(), Some(Mask(0x0403_0201)));
    assert_eq!(h.data_len(), DataLength::Medium(128));
}

#[test]
fn parse_reads_reserved_bits() {
    let (h, len) = FrameHeader::parse_slice(&[0x72, 0x05]).unwrap();
    assert_eq!(len, 2);
    assert!(!h.fin());
    assert_eq!(h.rsv(), 0x70);
    assert_eq!(h.opcode(), 2);
    assert_eq!(h.data_len(), DataLength::Small(5));
}

#[test]
fn length_values_refuse_non_canonical_forms() {
    assert_eq!(DataLength::Small(7).to_u64(), Ok(7));
    assert_eq!(DataLength::Medium(125).to_u64().unwrap_err().to_string(), "payload length 125 should not be represented using 16 bits");
    assert_eq!(DataLength::Medium(126).to_u64(), Ok(126));
    assert_eq!(DataLength::Large(65535).to_u64().unwrap_err().to_string(), "payload length 65535 should not be represented using 64 bits");
    assert_eq!(DataLength::Large(65536).to_usize(), Ok(65536));
    assert_eq!(
        DataLength::Large(0x8000_0000_0000_0000).to_u64().unwrap_err().to_string(),
        "frame is too long: 9223372036854775808 bytes (8000000000000000)"
    );
}

#[test]
fn frame_len_adds_header_and_payload() {
    let h = FrameHeader::new(true, 0, 2, Some(Mask(9)), DataLength::Medium(300));
    assert_eq!(h.frame_len(), Ok(308));
}
