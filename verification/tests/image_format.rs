use rtos_core::crc::{crc32, image_crc32, verify_image_crc};
use rtos_core::boot::locate_image;
use rtos_core::format::{read_header, read_segment, RtoskHeader, RtoskSegment, HEADER_SIZE, MAX_SEGMENTS, RTOSK_EXEC_FLAG, RTOSK_MAGIC, SEGMENT_SIZE};
use rtos_core::le::{push_u16, push_u32, push_u64, read_u16, read_u32, read_u64};
use rtos_core::parse::{find_magic, is_valid_image, parse_header, parse_header_and_segments, parse_segments, RtoskError};

fn sample_header(seg_count: u32) -> RtoskHeader {
    RtoskHeader::new(0x20_0000, 4096, seg_count, 0, 0)
}

fn image_with(segments: &[RtoskSegment], payload: &[u8]) -> Vec<u8> {
    let mut out = Vec::new();
    sample_header(segments.len() as u32).encode(&mut out);
    for s in segments {
        s.encode(&mut out);
    }
    out.extend_from_slice(payload);
    let crc = image_crc32(&out);
    out[32..36].copy_from_slice(&crc.to_le_bytes());
    out
}

#[test]
fn little_endian_fields_round_trip() {
    let mut out = Vec::new();
    push_u16(&mut out, 0xBEEF);
    push_u32(&mut out, 0xDEAD_BEEF);
    push_u64(&mut out, 0x0123_4567_89AB_CDEF);
    assert_eq!(out, vec![0xEF, 0xBE, 0xEF, 0xBE, 0xAD, 0xDE, 0xEF, 0xCD, 0xAB, 0x89, 0x67, 0x45, 0x23, 0x01]);
    assert_eq!(read_u16(&out, 0), 0xBEEF);
    assert_eq!(read_u32(&out, 2), 0xDEAD_BEEF);
    assert_eq!(read_u64(&out, 6), 0x0123_4567_89AB_CDEF);
}

#[test]
fn header_layout_is_forty_bytes_with_padding() {
    let h = RtoskHeader::new(0x1122_3344_5566_7788, 0x1000, 2, 0xAABB_CCDD, 7);
    let mut out = Vec::new();
    h.encode(&mut out);
    assert_eq!(out.len(), HEADER_SIZE);
    assert_eq!(&out[0..5], b"RTOSK");
    assert_eq!(out[5], 0);
    assert_eq!(&out[6..8], &[1, 0]);
    assert_eq!(&out[8..10], &[0, 0]);
    assert_eq!(&out[10..12], &[0, 0]);
    assert_eq!(&out[12..16], &120u32.to_le_bytes());
    assert_eq!(&out[16..24], &0x1122_3344_5566_7788u64.to_le_bytes());
    assert_eq!(&out[24..28], &0x1000u32.to_le_bytes());
    assert_eq!(&out[28..32], &2u32.to_le_bytes());
    assert_eq!(&out[32..36], &0xAABB_CCDDu32.to_le_bytes());
    assert_eq!(&out[36..40], &7u32.to_le_bytes());
    let back = read_header(&out, 0);
    assert_eq!(back.magic, RTOSK_MAGIC);
    assert_eq!(back.version(), (1, 0));
    assert_eq!(back.entry64, 0x1122_3344_5566_7788);
    assert_eq!(back.seg_count, 2);
    assert_eq!(back.image_crc32, 0xAABB_CCDD);
    assert_eq!(back.flags, 7);
}

#[test]
fn segment_layout_is_forty_bytes() {
    let s = RtoskSegment::new(0x60, 0x20_0000, 0x3000, 0x1234, RTOSK_EXEC_FLAG);
    let mut out = vec![0xEE; 3];
    s.encode(&mut out);
    assert_eq!(out.len(), 3 + SEGMENT_SIZE);
    assert_eq!(&out[3..11], &0x60u64.to_le_bytes());
    assert_eq!(&out[11..19], &0x20_0000u64.to_le_bytes());
    assert_eq!(&out[19..27], &0x3000u64.to_le_bytes());
    assert_eq!(&out[27..35], &0x1234u64.to_le_bytes());
    assert_eq!(&out[35..39], &1u32.to_le_bytes());
    assert_eq!(&out[39..43], &[0, 0, 0, 0]);
    assert_eq!(read_segment(&out, 3), s);
}

#[test]
fn header_constructors_and_getters() {
    let e = RtoskHeader::empty();
    assert!(!e.is_valid());
    assert_eq!(e.magic, [0; 5]);
    assert_eq!(e.version(), (0, 0));
    assert_eq!(RtoskHeader::default().entry64, 0);
    let h = RtoskHeader::new(5, 6, 7, 8, 9);
    assert!(h.is_valid());
    assert_eq!(h.magic, *b"RTOSK");
    assert_eq!(h.version(), (1, 0));
    assert_eq!((h.entry64, h.page_size, h.seg_count, h.image_crc32, h.flags), (5, 6, 7, 8, 9));
    assert_eq!(h.header_len, 40 + 7 * 40);
    assert_eq!(RtoskHeader::new(1, 2, 0, 3, 4).header_len, 40);
    assert_eq!(RtoskHeader::new(1, 2, 1, 3, 4).header_len, 80);
    assert_eq!(RtoskHeader::new(1, 2, MAX_SEGMENTS, 3, 4).header_len, 4_294_967_280);
}

#[test]
fn a_header_from_new_is_accepted_by_the_loader() {
    let seg = RtoskSegment::new(80, 0x20_0000, 8, 8, 1);
    let mut img = Vec::new();
    RtoskHeader::new(0x20_0000, 4096, 1, 0, 0).encode(&mut img);
    seg.encode(&mut img);
    img.extend_from_slice(&[7; 8]);
    let crc = image_crc32(&img);
    img[32..36].copy_from_slice(&crc.to_le_bytes());
    assert!(is_valid_image(&img));
    let found = locate_image(&img).unwrap();
    assert_eq!(found.header.header_len, 80);
    assert_eq!(found.segments, vec![seg]);
}

#[test]
fn segment_constructors_and_getters() {
    assert_eq!(RtoskSegment::empty(), RtoskSegment::new(0, 0, 0, 0, 0));
    assert_eq!(RtoskSegment::default(), RtoskSegment::empty());
    assert!(!RtoskSegment::empty().is_loadable());
    assert!(!RtoskSegment::new(0, 0, 8, 0, 0).is_loadable());
    assert!(!RtoskSegment::new(0, 0, 0, 8, 0).is_loadable());
    assert!(RtoskSegment::new(0, 0, 8, 8, 0).is_loadable());
    assert!(RtoskSegment::new(0, 0, 8, 8, 1).is_executable());
    assert!(RtoskSegment::new(0, 0, 8, 8, 3).is_executable());
    assert!(!RtoskSegment::new(0, 0, 8, 8, 2).is_executable());
}

#[test]
fn crc32_check_value() {
    assert_eq!(crc32(b"123456789"), 0xCBF43926);
}

#[test]
fn crc32_known_values() {
    assert_eq!(crc32(b""), 0);
    assert_eq!(crc32(b"123456789"), 0xCBF4_3926);
    assert_eq!(crc32(b"a"), 0xE8B7_BE43);
    assert_eq!(crc32(&[0u8; 4]), 0x2144_DF1C);
}

#[test]
fn image_crc_ignores_the_checksum_field() {
    let mut img = vec![0x5Au8; 64];
    let a = image_crc32(&img);
    img[32] = 1;
    img[35] = 0xFF;
    assert_eq!(image_crc32(&img), a);
    img[36] ^= 1;
    assert_ne!(image_crc32(&img), a);
    let mut zeroed = img.clone();
    zeroed[32..36].copy_from_slice(&[0; 4]);
    assert_eq!(image_crc32(&img), crc32(&zeroed));
    assert!(!verify_image_crc(&[0u8; 35]));
}

#[test]
fn parse_header_rejects_short_and_bad_magic() {
    assert_eq!(parse_header(&[0u8; 39]).err(), Some(RtoskError::BlobTooSmall));
    assert_eq!(parse_header(&[]).err(), Some(RtoskError::BlobTooSmall));
    let mut bytes = Vec::new();
    sample_header(0).encode(&mut bytes);
    let (h, used) = parse_header(&bytes).unwrap();
    assert_eq!(used, 40);
    assert!(h.is_valid());
    bytes[4] = b'X';
    assert_eq!(parse_header(&bytes).err(), Some(RtoskError::BadMagic));
}

#[test]
fn parse_segments_counts_and_bounds() {
    let (none, used) = parse_segments(&[], 0).unwrap();
    assert!(none.is_empty());
    assert_eq!(used, 0);
    let a = RtoskSegment::new(1, 2, 3, 4, 5);
    let b = RtoskSegment::new(6, 7, 8, 9, 10);
    let mut bytes = Vec::new();
    a.encode(&mut bytes);
    b.encode(&mut bytes);
    bytes.push(0x77);
    let (segs, used) = parse_segments(&bytes, 2).unwrap();
    assert_eq!(segs, vec![a, b]);
    assert_eq!(used, 80);
    assert_eq!(parse_segments(&bytes, 3).err(), Some(RtoskError::SegmentTableOutOfBounds));
    assert_eq!(parse_segments(&bytes, u32::MAX).err(), Some(RtoskError::SegmentTableOutOfBounds));
    assert_eq!(parse_segments(&bytes[..79], 2).err(), Some(RtoskError::SegmentTableOutOfBounds));
}

#[test]
fn parse_header_and_segments_chains_both() {
    let seg = RtoskSegment::new(80, 0x20_0000, 8, 8, 1);
    let img = image_with(&[seg], &[0, 1, 2, 3, 4, 5, 6, 7]);
    let (h, segs, header_len, seg_bytes) = parse_header_and_segments(&img).unwrap();
    assert_eq!(h.seg_count, 1);
    assert_eq!(segs, vec![seg]);
    assert_eq!(header_len, 40);
    assert_eq!(seg_bytes, 40);
    assert_eq!(parse_header_and_segments(&img[..79]).err(), Some(RtoskError::SegmentTableOutOfBounds));
    assert_eq!(parse_header_and_segments(&img[..20]).err(), Some(RtoskError::BlobTooSmall));
}

#[test]
fn find_magic_skips_padding() {
    let seg = RtoskSegment::new(80, 0x20_0000, 8, 8, 1);
    let img = image_with(&[seg], &[0, 1, 2, 3, 4, 5, 6, 7]);
    let mut padded = vec![0xFFu8; 73];
    padded.extend_from_slice(&img);
    assert_eq!(find_magic(&padded, &RTOSK_MAGIC), Some(73));
    let (h, segs, _, _) = parse_header_and_segments(&padded[73..]).unwrap();
    assert_eq!(h.entry64, 0x20_0000);
    assert_eq!(segs.len(), 1);
}

#[test]
fn find_magic_edge_cases() {
    assert_eq!(find_magic(b"", b"RTOSK"), None);
    assert_eq!(find_magic(b"RTOS", b"RTOSK"), None);
    assert_eq!(find_magic(b"RTOSK", b"RTOSK"), Some(0));
    assert_eq!(find_magic(b"xRTOSRTOSKRTOSK", b"RTOSK"), Some(5));
    assert_eq!(find_magic(b"abc", b""), Some(0));
    assert_eq!(find_magic(b"", b""), Some(0));
    assert_eq!(find_magic(b"aaab", b"ab"), Some(2));
    assert_eq!(find_magic(b"aaaa", b"ab"), None);
}

#[test]
fn valid_image_is_accepted_and_parses() {
    let seg = RtoskSegment::new(80, 0x20_0000, 16, 8, 1);
    let img = image_with(&[seg], &[9; 8]);
    assert!(is_valid_image(&img));
    let (h, segs, _, _) = parse_header_and_segments(&img).unwrap();
    assert_eq!(h.magic, RTOSK_MAGIC);
    assert_ne!(h.entry64, 0);
    for s in &segs {
        assert!(s.file_offset + s.file_size <= img.len() as u64);
    }
}

#[test]
fn invalid_images_are_rejected() {
    let seg = RtoskSegment::new(80, 0x20_0000, 16, 8, 1);
    let good = image_with(&[seg], &[9; 8]);
    assert!(!is_valid_image(&good[..39]));
    let mut bad_magic = good.clone();
    bad_magic[0] = b'Q';
    assert!(!is_valid_image(&bad_magic));
    let mut bad_crc = good.clone();
    bad_crc[87] ^= 0x10;
    assert!(!is_valid_image(&bad_crc));
    let out_of_file = image_with(&[RtoskSegment::new(81, 0x20_0000, 16, 8, 1)], &[9; 8]);
    assert!(!is_valid_image(&out_of_file));
    let file_over_memory = image_with(&[RtoskSegment::new(80, 0x20_0000, 4, 8, 1)], &[9; 8]);
    assert!(!is_valid_image(&file_over_memory));
    let huge = image_with(&[RtoskSegment::new(u64::MAX, 0x20_0000, 16, 8, 1)], &[9; 8]);
    assert!(!is_valid_image(&huge));
    let mut zero_entry = Vec::new();
    let h = RtoskHeader::new(0, 4096, 0, 0, 0);
    h.encode(&mut zero_entry);
    let crc = image_crc32(&zero_entry);
    zero_entry[32..36].copy_from_slice(&crc.to_le_bytes());
    assert!(!is_valid_image(&zero_entry));
    let mut wrong_len = Vec::new();
    let mut h = RtoskHeader::new(1, 4096, 0, 0, 0);
    assert_eq!(h.header_len, 40);
    h.header_len = 44;
    h.encode(&mut wrong_len);
    wrong_len.extend_from_slice(&[0; 4]);
    let crc = image_crc32(&wrong_len);
    wrong_len[32..36].copy_from_slice(&crc.to_le_bytes());
    assert!(!is_valid_image(&wrong_len));
}
