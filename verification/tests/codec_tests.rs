use rssh::codec::{BinaryDecoder, BinaryEncoder};
use rssh::types::{
    parse_alg_neg, parse_kex_init, parse_kex_reply, parse_name_list, parse_server_key,
    parse_signature, put_name_list, serialize_alg_neg, serialize_kex_init, serialize_kex_reply,
    serialize_server_key, serialize_signature, AlgorithmNegotiation, CompressionAlgorithm,
    EncryptionAlgorithm, KexAlgorithm, KexInit, KexReply, Language, MacAlgorithm,
    ServerHostKeyAlgorithm, ServerKey, Signature,
};

fn client_prefs() -> AlgorithmNegotiation {
    AlgorithmNegotiation {
        kex_algorithms: vec![KexAlgorithm::CURVE25519_SHA256],
        server_host_key_algorithms: vec![ServerHostKeyAlgorithm::SSH_RSA],
        encryption_algorithms_client_to_server: vec![EncryptionAlgorithm::AES256_CTR],
        encryption_algorithms_server_to_client: vec![EncryptionAlgorithm::AES256_CTR],
        mac_algorithms_client_to_server: vec![MacAlgorithm::HMAC_SHA2_256],
        mac_algorithms_server_to_client: vec![MacAlgorithm::HMAC_SHA2_256],
        compression_algorithms_client_to_server: vec![CompressionAlgorithm::NONE],
        compression_algorithms_server_to_client: vec![CompressionAlgorithm::NONE],
        languages_client_to_server: vec![],
        languages_server_to_client: vec![],
        first_kex_packet_follows: false,
        reserved: 0,
    }
}

#[test]
fn alg_neg_round_trip() {
    let v = client_prefs();
    let bytes = serialize_alg_neg(&v).expect("serialize");
    let mut dec = BinaryDecoder::new(bytes.as_slice());
    let w = parse_alg_neg(&mut dec).expect("parse");
    assert_eq!(v, w);
    assert_eq!(0, dec.remaining());
}

#[test]
fn alg_neg_round_trip_with_unknown_names() {
    let mut v = client_prefs();
    v.kex_algorithms = vec![
        KexAlgorithm::Unknown(b"sntrup761x25519-sha512@openssh.com".to_vec()),
        KexAlgorithm::CURVE25519_SHA256,
        KexAlgorithm::ECDH_SHA2_NISTP256,
    ];
    v.first_kex_packet_follows = true;
    v.reserved = 7;
    let bytes = serialize_alg_neg(&v).expect("serialize");
    let mut dec = BinaryDecoder::new(bytes.as_slice());
    let w = parse_alg_neg(&mut dec).expect("parse");
    assert_eq!(v, w);
}

#[test]
fn unknown_name_in_list_is_preserved() {
    // a name list carrying `ssh-ed25519,ssh-rsa` keeps the unknown name and
    // re-serializes to the same bytes
    let mut enc = BinaryEncoder::new();
    enc.put_bytes(b"ssh-ed25519,ssh-rsa").expect("encode");
    let bytes = enc.into_inner();

    let mut dec = BinaryDecoder::new(bytes.as_slice());
    let list: Vec<ServerHostKeyAlgorithm> = parse_name_list(&mut dec).expect("parse");
    assert_eq!(
        vec![
            ServerHostKeyAlgorithm::Unknown(b"ssh-ed25519".to_vec()),
            ServerHostKeyAlgorithm::SSH_RSA,
        ],
        list
    );

    let mut enc2 = BinaryEncoder::new();
    put_name_list(&mut enc2, &list).expect("re-encode");
    assert_eq!(bytes, enc2.into_inner());
}

#[test]
fn empty_name_list_round_trip() {
    let mut enc = BinaryEncoder::new();
    let empty: Vec<Language> = vec![];
    put_name_list(&mut enc, &empty).expect("encode");
    let bytes = enc.into_inner();
    assert_eq!(vec![0, 0, 0, 0], bytes);
    let mut dec = BinaryDecoder::new(bytes.as_slice());
    let list: Vec<Language> = parse_name_list(&mut dec).expect("parse");
    assert_eq!(empty, list);
}

#[test]
fn kex_init_round_trip() {
    let v = KexInit { e: vec![1, 2, 3, 4, 5] };
    let bytes = serialize_kex_init(&v).expect("serialize");
    assert_eq!(vec![0, 0, 0, 5, 1, 2, 3, 4, 5], bytes);
    let mut dec = BinaryDecoder::new(bytes.as_slice());
    let w = parse_kex_init(&mut dec).expect("parse");
    assert_eq!(v, w);
}

#[test]
fn server_key_round_trip() {
    let v = ServerKey::SSH_RSA { e: vec![1, 0, 1], n: vec![0, 0xc2, 0x11] };
    let bytes = serialize_server_key(&v).expect("serialize");
    let w = parse_server_key(bytes.as_slice()).expect("parse");
    assert_eq!(v, w);
}

#[test]
fn unknown_server_key_round_trip() {
    let v = ServerKey::Unknown { name: b"ssh-ed25519".to_vec(), data: vec![9, 9, 9, 9] };
    let bytes = serialize_server_key(&v).expect("serialize");
    let w = parse_server_key(bytes.as_slice()).expect("parse");
    assert_eq!(v, w);
}

#[test]
fn signature_round_trip() {
    let v = Signature::SSH_RSA { signature: vec![7; 64] };
    let bytes = serialize_signature(&v).expect("serialize");
    let w = parse_signature(bytes.as_slice()).expect("parse");
    assert_eq!(v, w);
}

#[test]
fn kex_reply_round_trip() {
    let v = KexReply {
        server_key: ServerKey::SSH_RSA { e: vec![1, 0, 1], n: vec![0xc2, 0x11] },
        f: vec![5; 32],
        signature: Signature::SSH_RSA { signature: vec![7; 64] },
    };
    let bytes = serialize_kex_reply(&v).expect("serialize");
    let mut dec = BinaryDecoder::new(bytes.as_slice());
    let w = parse_kex_reply(&mut dec).expect("parse");
    assert_eq!(v, w);
    assert_eq!(0, dec.remaining());
}

#[test]
fn truncated_alg_neg_is_rejected() {
    let v = client_prefs();
    let mut bytes = serialize_alg_neg(&v).expect("serialize");
    bytes.pop();
    let mut dec = BinaryDecoder::new(bytes.as_slice());
    assert!(parse_alg_neg(&mut dec).is_err());
}

#[test]
fn encoder_primitives() {
    let mut enc = BinaryEncoder::new();
    enc.put_u8(30);
    enc.put_u32(0x010203);
    enc.put_bool(true);
    enc.put_bool(false);
    assert_eq!(vec![30, 0, 1, 2, 3, 1, 0], enc.into_inner());
}
