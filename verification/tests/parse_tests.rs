use h264_glitcher::bitio::{BitReader, BitWriter};
use h264_glitcher::parse_h264::{read_ue, read_ue_u8, write_ue, read_se, write_se,
    golomb_to_signed, read_rbsp_trailing_bits, write_rbsp_trailing_bits};

#[test]
fn parse_h264_read_ue_test() {
    let mut r = BitReader::new(vec![0b11101000]);
    assert_eq!(read_ue(&mut r).unwrap(), 0); // 1 - 0

    let mut r = BitReader::new(vec![0b01001000]);
    assert_eq!(read_ue(&mut r).unwrap(), 1); // 010 - 1

    let mut r = BitReader::new(vec![0b01101000]);
    assert_eq!(read_ue(&mut r).unwrap(), 2); // 011 - 2

    let mut r = BitReader::new(vec![0b00001000, 0b10000000]);
    assert_eq!(read_ue(&mut r).unwrap(), 16); // 000010001 - 16
}

#[test]
fn parse_nal_read_ue_test() {
    let mut r = BitReader::new(vec![0b11101000]);
    assert_eq!(read_ue(&mut r).unwrap(), 0);

    let mut r = BitReader::new(vec![0b01001000]);
    assert_eq!(read_ue(&mut r).unwrap(), 1);

    let mut r = BitReader::new(vec![0b01101000]);
    assert_eq!(read_ue(&mut r).unwrap(), 2);

    let mut r = BitReader::new(vec![0b00001000, 0b10000000]);
    assert_eq!(read_ue(&mut r).unwrap(), 16);
}

#[test]
fn parse_h264_write_ue_test() {
    let mut i: u32 = 0;
    while i < 1000 {
        let mut w = BitWriter::new();
        write_ue(&mut w, i);
        w.byte_align();
        let mut r = BitReader::new(w.take_bytes());
        assert_eq!(read_ue(&mut r).unwrap(), i);
        i += 1;
    }
}

#[test]
fn parse_nal_write_ue_test() {
    let mut i: u32 = 0;
    while i < 1000 {
        let mut w = BitWriter::new();
        write_ue(&mut w, i);
        w.byte_align();
        let mut r = BitReader::new(w.take_bytes());
        assert_eq!(read_ue(&mut r).unwrap(), i);
        i += 1;
    }
}

#[test]
fn test_ue_barely_overflow() {
    let mut i: u32 = 0;
    while i < u8::MAX as u32 {
        let mut w = BitWriter::new();
        write_ue(&mut w, i);
        w.byte_align();
        let mut r = BitReader::new(w.take_bytes());
        assert_eq!(read_ue_u8(&mut r).unwrap() as u32, i);
        i += 1;
    }
}

#[test]
fn test_ue_overflow() {
    let mut i: u32 = u8::MAX as u32 + 1;
    while i < 1000 {
        let mut w = BitWriter::new();
        write_ue(&mut w, i);
        w.byte_align();
        let mut r = BitReader::new(w.take_bytes());
        read_ue_u8(&mut r).unwrap_err();
        i += 1;
    }
}

#[test]
fn se_round_trip_range() {
    let mut v: i32 = -512;
    while v < 512 {
        let mut w = BitWriter::new();
        write_se(&mut w, v);
        w.byte_align();
        let mut r = BitReader::new(w.take_bytes());
        assert_eq!(read_se(&mut r).unwrap(), v);
        v += 1;
    }
}

#[test]
fn golomb_signed_values() {
    assert_eq!(golomb_to_signed(0), 0);
    assert_eq!(golomb_to_signed(1), 1);
    assert_eq!(golomb_to_signed(2), -1);
    assert_eq!(golomb_to_signed(3), 2);
    assert_eq!(golomb_to_signed(4), -2);
}

#[test]
fn rbsp_trailing_round_trip() {
    let mut w = BitWriter::new();
    write_ue(&mut w, 5);
    write_rbsp_trailing_bits(&mut w);
    let bytes = w.take_bytes();
    let mut r = BitReader::new(bytes);
    assert_eq!(read_ue(&mut r).unwrap(), 5);
    read_rbsp_trailing_bits(&mut r).unwrap();
}

#[test]
fn rbsp_trailing_rejects_nonzero() {
    // 1 bit for ue(0), then trailing 1 followed by a stray 1 bit
    let mut r = BitReader::new(vec![0b11100000]);
    assert_eq!(read_ue(&mut r).unwrap(), 0);
    read_rbsp_trailing_bits(&mut r).unwrap_err();
}
