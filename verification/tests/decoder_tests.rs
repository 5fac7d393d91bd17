use rssh::codec::{BinaryDecoder, DecoderError};

#[test]
fn decode_u32() {
    let data: &[u8] = &[0, 1, 2, 3];
    let mut dec = BinaryDecoder::new(data);
    let val = dec.parse_u32();
    assert_eq!(Ok(0x010203), val);
}

#[test]
fn decode_u8() {
    let data: &[u8] = &[30];
    let mut dec = BinaryDecoder::new(data);
    let val = dec.parse_u8();
    assert_eq!(Ok(30), val);
}

#[test]
fn decode_bytes() {
    let data: &[u8] = &[0, 0, 0, 4, b't', b'e', b's', b't'];
    let mut dec = BinaryDecoder::new(data);
    let val = dec.parse_bytes();
    assert_eq!(Ok(b"test".to_vec()), val);
}

#[test]
fn decode_struct() {
    // a packet header: a uint32 then a byte, in one pass
    let data: &[u8] = &[0, 1, 2, 3, 30];
    let mut dec = BinaryDecoder::new(data);
    let pkt_len = dec.parse_u32();
    let pad_len = dec.parse_u8();
    assert_eq!((Ok(0x010203), Ok(30)), (pkt_len, pad_len));
}

#[test]
fn decode_inner_struct() {
    // a byte string, then a nested blob holding a uint32 and a byte
    let data: &[u8] = &[0, 0, 0, 4, b't', b'e', b's', b't', 0, 0, 0, 5, 0, 1, 2, 3, 30];
    let mut dec = BinaryDecoder::new(data);
    let outer = dec.parse_bytes().expect("outer");
    assert_eq!(b"test".to_vec(), outer);
    let blob = dec.parse_bytes().expect("inner blob");
    let mut inner = BinaryDecoder::new(blob.as_slice());
    let pkt_len = inner.parse_u32();
    let pad_len = inner.parse_u8();
    assert_eq!((Ok(0x010203), Ok(30)), (pkt_len, pad_len));
}

#[test]
fn decode_bool_accepts_only_zero_and_one() {
    for byte in 0u8..=255 {
        let data = [byte];
        let mut dec = BinaryDecoder::new(&data);
        let r = dec.parse_bool();
        match byte {
            0 => assert_eq!(Ok(false), r),
            1 => assert_eq!(Ok(true), r),
            _ => assert_eq!(Err(DecoderError::NonBoolean), r),
        }
    }
}

#[test]
fn decode_bool_short_input() {
    let data: &[u8] = &[];
    let mut dec = BinaryDecoder::new(data);
    assert_eq!(Err(DecoderError::UnexpectedEOF), dec.parse_bool());
}

#[test]
fn decode_bytes_short_input() {
    let data: &[u8] = &[0, 0, 0, 9, b'x'];
    let mut dec = BinaryDecoder::new(data);
    assert_eq!(Err(DecoderError::UnexpectedEOF), dec.parse_bytes());
}
