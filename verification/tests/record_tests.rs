use can_daq::logs::consts::MSG_BYTE_LEN;
use can_daq::logs::parse::encode_record;
use can_daq::logs::parse::extract_arb_id;
use can_daq::logs::parse::parse_record;
use can_daq::logs::parse::u32_from_le;
use can_daq::logs::parse::u32_to_le;

fn sample_record_bytes() -> Vec<u8> {
    // frame type 1, timestamp 0x04030201, logged id 0x00000123,
    // reserved 0, dlc 2, payload [0xAA, 0xBB], six padding bytes.
    let mut b = vec![1u8, 0x01, 0x02, 0x03, 0x04, 0x23, 0x01, 0x00, 0x00, 0, 2, 0xAA, 0xBB];
    b.extend_from_slice(&[0u8; 6]);
    assert_eq!(b.len(), MSG_BYTE_LEN);
    b
}

#[test]
fn parse_record_reads_fields_at_their_offsets() {
    let b = sample_record_bytes();
    let rec = parse_record(&b).expect("valid record");
    assert_eq!(rec.frame_type, 1);
    assert_eq!(rec.timestamp, 0x0403_0201);
    assert_eq!(rec.logged_id, 0x0000_0123);
    assert_eq!(rec.reserved, 0);
    assert_eq!(rec.dlc, 2);
    assert_eq!(rec.data, vec![0xAA, 0xBB]);
    assert_eq!(rec.tail, vec![0u8; 6]);
}

#[test]
fn record_round_trip_reproduces_the_input_bytes() {
    let b = sample_record_bytes();
    let rec = parse_record(&b).expect("valid record");
    let encoded = encode_record(&rec);
    assert_eq!(encoded, b);
}

#[test]
fn record_round_trip_full_payload() {
    let mut b = vec![0u8, 0xFF, 0xFF, 0xFF, 0xFF, 0xFF, 0xFF, 0xFF, 0xFF, 7, 8];
    b.extend_from_slice(&[1, 2, 3, 4, 5, 6, 7, 8]);
    assert_eq!(b.len(), MSG_BYTE_LEN);
    let rec = parse_record(&b).expect("valid record");
    assert_eq!(rec.dlc, 8);
    assert_eq!(rec.data.len(), 8);
    assert_eq!(rec.tail.len(), 0);
    assert_eq!(encode_record(&rec), b);
}

#[test]
fn oversized_dlc_is_rejected() {
    let mut b = sample_record_bytes();
    b[10] = 9;
    assert!(parse_record(&b).is_none());
}

#[test]
fn extended_flag_selects_the_extended_mask() {
    assert_eq!(extract_arb_id(0x8000_0123), 0x123);
    assert_eq!(extract_arb_id(0xFFFF_FFFF), 0x1FFF_FFFF);
}

#[test]
fn standard_id_is_masked_to_eleven_bits() {
    assert_eq!(extract_arb_id(0x0000_0123), 0x123);
    assert_eq!(extract_arb_id(0x7FFF_F123), 0x123);
    assert_eq!(extract_arb_id(0x0000_0FFF), 0x7FF);
}

#[test]
fn little_endian_words_round_trip() {
    assert_eq!(u32_from_le(0x78, 0x56, 0x34, 0x12), 0x1234_5678);
    let (b0, b1, b2, b3) = u32_to_le(0x1234_5678);
    assert_eq!((b0, b1, b2, b3), (0x78, 0x56, 0x34, 0x12));
}
