use h264_glitcher::nal::{NalUnit, decode_nal_to_rbsp, encode_rbsp_to_nal};
use h264_glitcher::nal_iterator::{NalIterator, take_until_nal_start};
use h264_glitcher::h264::NALUnitType;

fn collect_payloads(data: Vec<u8>) -> Vec<Vec<u8>> {
    let mut it = NalIterator::new(data);
    let mut items: Vec<Vec<u8>> = Vec::new();
    loop {
        match it.next() {
            Some(p) => items.push(p),
            None => {
                return items;
            },
        }
    }
}

#[test]
fn nal_test_encode_rbsp_to_nal() {
    assert_eq!(encode_rbsp_to_nal(&[0x00, 0x01, 0x00, 0x00, 0x00, 0x01]),
        &[0x00, 0x01, 0x00, 0x00, 0x03, 0x00, 0x01]);
    assert_eq!(encode_rbsp_to_nal(&[0x00, 0x00, 0x00, 0x00, 0x00, 0x00]),
        &[0x00, 0x00, 0x03, 0x00, 0x00, 0x03, 0x00, 0x00]);
}

#[test]
fn parse_nal_test_encode_rbsp_to_nal() {
    assert_eq!(encode_rbsp_to_nal(&[0x00, 0x01, 0x00, 0x00, 0x00, 0x01]),
        &[0x00, 0x01, 0x00, 0x00, 0x03, 0x00, 0x01]);
    assert_eq!(encode_rbsp_to_nal(&[0x00, 0x00, 0x00, 0x00, 0x00, 0x00]),
        &[0x00, 0x00, 0x03, 0x00, 0x00, 0x03, 0x00, 0x00]);
}

#[test]
fn escaped_output_has_no_start_code_window() {
    let cases: Vec<Vec<u8>> = vec![
        vec![0, 0, 0, 0, 1, 2, 3, 4],
        vec![0, 0, 1],
        vec![0, 0, 2, 0, 0, 0],
        vec![0; 10],
        vec![0xFF, 0, 0, 1, 0, 0, 0, 3],
    ];
    for c in cases {
        let out = encode_rbsp_to_nal(&c);
        let mut i = 0;
        while i + 2 < out.len() {
            assert!(!(out[i] == 0 && out[i + 1] == 0 && out[i + 2] < 3));
            i += 1;
        }
    }
}

#[test]
fn decode_undoes_encode() {
    let cases: Vec<Vec<u8>> = vec![
        vec![],
        vec![0x00, 0x00, 0x00],
        vec![0x00, 0x00, 0x01, 0x02, 0x03],
        vec![0xFF, 0x00, 0x00, 0x00, 0x00, 0xAB],
        vec![0x00, 0x00, 0x02, 0x00, 0x00, 0x03],
    ];
    for c in cases {
        assert_eq!(decode_nal_to_rbsp(&encode_rbsp_to_nal(&c)), c);
    }
}

#[test]
fn nal_unit_round_trip() {
    let bytes: Vec<u8> = vec![0x67, 0xAA, 0x00, 0x00, 0x03, 0x01];
    let u = NalUnit::from_bytes(&bytes).unwrap();
    assert_eq!(u.nal_ref_idc, 3);
    assert!(matches!(u.nal_unit_type, NALUnitType::Sps));
    assert_eq!(u.rbsp, vec![0xAA, 0x00, 0x00, 0x01]);
    assert_eq!(u.to_bytes(), bytes);
}

#[test]
fn nal_unit_rejects_bad_header() {
    // forbidden bit set
    assert!(NalUnit::from_bytes(&[0x80]).is_err());
    // unknown type code 17
    assert!(NalUnit::from_bytes(&[0x11]).is_err());
    // unsupported extension type 14
    assert!(NalUnit::from_bytes(&[0x0E]).is_err());
    // empty input
    assert!(NalUnit::from_bytes(&[]).is_err());
}

#[test]
fn nal_iterator_test_short_head() {
    let data: Vec<u8> = vec![0xaa, 0xaa, 0x00, 0x00, 0x01, 0xbb, 0x00, 0x01, 0xbb,
        0xbb, 0x00, 0x00, 0x01];
    let items = collect_payloads(data);
    assert_eq!(items.len(), 1);
    let packet: &[u8] = &[0xbb, 0x00, 0x01, 0xbb, 0xbb][..];
    assert_eq!(items[0], packet);
}

#[test]
fn nal_iterator_test_long_head() {
    let data: Vec<u8> = vec![0xaa, 0xaa, 0x00, 0x00, 0x00, 0x01, 0xbb, 0xbb, 0xbb,
        0x00, 0x00, 0x00, 0x01];
    let items = collect_payloads(data);
    assert_eq!(items.len(), 1);
    let packet: &[u8] = &[0xbb, 0xbb, 0xbb][..];
    assert_eq!(items[0], packet);
}

#[test]
fn test_multi_zero() {
    let data: Vec<u8> = vec![0xaa, 0xaa, 0x00, 0x00, 0x00, 0x00, 0x00, 0x01, 0xbb,
        0x00, 0x00, 0xbb, 0xbb, 0x00, 0x00, 0x00, 0x00, 0x00, 0x01];
    let items = collect_payloads(data);
    assert_eq!(items.len(), 1);
    let packet: &[u8] = &[0xbb, 0x00, 0x00, 0xbb, 0xbb, 0x00, 0x00][..];
    assert_eq!(items[0], packet);
}

#[test]
fn nal_iterator_test_multiple() {
    let data: Vec<u8> = vec![0xaa, 0xaa, 0x00, 0x00, 0x01, 0xbb, 0xbb, 0xbb, 0x00,
        0x00, 0x01, 0xbb, 0xbb, 0xcc, 0x00, 0x00, 0x01];
    let items = collect_payloads(data);
    assert_eq!(items.len(), 2);
    let packet: &[u8] = &[0xbb, 0xbb, 0xbb][..];
    assert_eq!(items[0], packet);
    let packet: &[u8] = &[0xbb, 0xbb, 0xcc][..];
    assert_eq!(items[1], packet);
}

#[test]
fn take_until_nal_start_trailing_payload() {
    // input ends inside a payload: the collected bytes come back
    let data: Vec<u8> = vec![0xbb, 0x00, 0x00];
    let mut pos: usize = 0;
    let p = take_until_nal_start(&data, &mut pos).unwrap();
    assert_eq!(p, vec![0xbb, 0x00, 0x00]);
    assert_eq!(take_until_nal_start(&data, &mut pos), None);
}
