use rssh::transport::{compute_pad_len, hton, ntoh};

#[test]
fn test_compute_pad_len() {
    let mut rng = rand::rng();
    for payload_len in 1..257 {
        if let Ok((pkt_len, pad_len)) = compute_pad_len(payload_len, 0, &mut rng) {
            assert_eq!(pkt_len % 8, 4);
            assert_eq!(pkt_len as usize, pad_len as usize + payload_len + 1);
        } else {
            panic!("compute_pad_len failed at payload_len = {}", payload_len);
        }
    }
}

#[test]
fn pad_alignment_for_small_payload() {
    // payload of 4 bytes at block size 0: the frame aligns to 8, the padding
    // is at least 4, and the smallest admissible padding is 7
    let mut rng = rand::rng();
    let (pkt_len, pad_len) = compute_pad_len(4, 0, &mut rng).expect("pad");
    assert_eq!(0, (5 + 4 + pad_len as usize) % 8);
    assert!(pad_len >= 4);
    assert!(pad_len >= 7);
    assert_eq!(7, pad_len % 8);
    assert_eq!(4 + 1 + pad_len as u32, pkt_len);
}

#[test]
fn pad_respects_block_size() {
    let mut rng = rand::rng();
    for payload_len in [1usize, 16, 31, 255] {
        let (pkt_len, pad_len) = compute_pad_len(payload_len, 16, &mut rng).expect("pad");
        assert_eq!(0, (pkt_len as usize + 4) % 16);
        assert!(pad_len >= 4);
        assert_eq!(pkt_len as usize, payload_len + 1 + pad_len as usize);
    }
}

#[test]
fn hton_ntoh_round_trip() {
    for v in [0u32, 1, 0x0f04, 0x010203, 0xffff_ffff] {
        let bytes = hton(v);
        assert_eq!(v, ntoh(&bytes));
    }
    assert_eq!([0, 0, 0, 0x10], hton(16));
    assert_eq!(15, ntoh(&[0, 0, 0, 0x0f]));
}
