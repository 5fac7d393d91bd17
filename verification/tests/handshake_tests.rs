use std::io::Cursor;

use rssh::handshake::{
    build_kexinit_payload, build_version_line, client_key_exchange, from_mpint, into_mpint,
    negotiate, parse_version_line, HandshakeError, KexReplyError, NegotiationError,
};
use rssh::bufreader::AsyncBufReader;
use rssh::bufwriter::AsyncBufWriter;
use rssh::codec::BinaryEncoder;
use rssh::key::KeyBuilder;
use rssh::types::{
    serialize_alg_neg, serialize_server_key, serialize_signature, AlgorithmNegotiation,
    CompressionAlgorithm, EncryptionAlgorithm, KexAlgorithm, MacAlgorithm,
    ServerHostKeyAlgorithm, ServerKey, Signature,
};
use rssh::Async;

fn client_prefs() -> AlgorithmNegotiation {
    AlgorithmNegotiation {
        kex_algorithms: vec![KexAlgorithm::CURVE25519_SHA256],
        server_host_key_algorithms: vec![ServerHostKeyAlgorithm::SSH_RSA],
        encryption_algorithms_client_to_server: vec![EncryptionAlgorithm::AES256_CTR],
        encryption_algorithms_server_to_client: vec![EncryptionAlgorithm::AES256_CTR],
        mac_algorithms_client_to_server: vec![MacAlgorithm::HMAC_SHA2_256],
        mac_algorithms_server_to_client: vec![MacAlgorithm::HMAC_SHA2_256],
        compression_algorithms_client_to_server: vec![CompressionAlgorithm::NONE],
        compression_algorithms_server_to_client: vec![CompressionAlgorithm::NONE],
        languages_client_to_server: vec![],
        languages_server_to_client: vec![],
        first_kex_packet_follows: false,
        reserved: 0,
    }
}

#[test]
fn version_line_accepted() {
    let line = b"SSH-2.0-OpenSSH_7.4\r".to_vec();
    let v_s = parse_version_line(&line).expect("valid line");
    assert_eq!(b"SSH-2.0-OpenSSH_7.4".to_vec(), v_s);
}

#[test]
fn version_line_rejected() {
    let line = b"Garbage".to_vec();
    assert_eq!(Err(HandshakeError::InvalidVersionExchange), parse_version_line(&line));
}

#[test]
fn version_line_built() {
    let line = build_version_line(&b"RSSHS_0.1.0".to_vec(), &b"Hello".to_vec());
    assert_eq!(b"SSH-2.0-RSSHS_0.1.0 Hello\r\n".to_vec(), line);
}

#[test]
fn mpint_encoding() {
    assert_eq!(Vec::<u8>::new(), into_mpint(&[]));
    assert_eq!(vec![1], into_mpint(&[1]));
    assert_eq!(vec![0x7f], into_mpint(&[0x7f]));
    assert_eq!(vec![0, 0x80], into_mpint(&[0x80]));
    assert_eq!(vec![0, 0xc2, 0x11], into_mpint(&[0xc2, 0x11]));
    assert_eq!(&[0x80u8][..], from_mpint(&[0, 0x80]));
    assert_eq!(&[0x7fu8][..], from_mpint(&[0x7f]));
    let empty: &[u8] = &[];
    assert_eq!(empty, from_mpint(&[]));
}

#[test]
fn negotiate_picks_first_common_client_preference() {
    let mut client = client_prefs();
    client.kex_algorithms = vec![
        KexAlgorithm::Unknown(b"kex-nobody-knows".to_vec()),
        KexAlgorithm::CURVE25519_SHA256,
        KexAlgorithm::ECDH_SHA2_NISTP256,
    ];
    let mut server = client_prefs();
    server.kex_algorithms =
        vec![KexAlgorithm::ECDH_SHA2_NISTP256, KexAlgorithm::CURVE25519_SHA256];
    let n = negotiate(&client, &server).expect("negotiable");
    assert_eq!(KexAlgorithm::CURVE25519_SHA256, n.kex_algorithms);
    assert_eq!(ServerHostKeyAlgorithm::SSH_RSA, n.server_host_key_algorithms);
    assert_eq!(None, n.languages_client_to_server);
}

#[test]
fn negotiate_keeps_common_language() {
    let mut client = client_prefs();
    let mut server = client_prefs();
    client.languages_client_to_server = vec![rssh::types::Language::EN];
    server.languages_client_to_server = vec![rssh::types::Language::EN];
    let n = negotiate(&client, &server).expect("negotiable");
    assert_eq!(Some(rssh::types::Language::EN), n.languages_client_to_server);
    assert_eq!(None, n.languages_server_to_client);
}

#[test]
fn negotiate_fails_without_common_kex() {
    let client = client_prefs();
    let mut server = client_prefs();
    server.kex_algorithms = vec![KexAlgorithm::Unknown(b"kex-nobody-knows".to_vec())];
    assert_eq!(
        Err(HandshakeError::InvalidAlgorithmNegotiation(NegotiationError::NoCommonKex)),
        negotiate(&client, &server)
    );
}

#[test]
fn kexinit_payload_shape() {
    // the payload opens with the tag byte, the sixteen-byte cookie, and then
    // the first name list, length-prefixed
    let mut rng = rand::rng();
    let payload = build_kexinit_payload(&client_prefs(), &mut rng).expect("payload");
    assert_eq!(20, payload[0]);
    let body = serialize_alg_neg(&client_prefs()).expect("body");
    assert_eq!(&body[..], &payload[17..]);
    assert_eq!(&[0, 0, 0, 28], &payload[17..21]);
    assert_eq!(&b"curve25519-sha256@libssh.org"[..], &payload[21..49]);
}

#[test]
fn exchange_hash_matches_direct_digest() {
    // the builder hashes each value as an SSH string; a second
    // implementation assembling the very same bytes by hand and digesting
    // them in one pass gets the same H, byte for byte
    let kb = KeyBuilder {
        v_c: Some(b"SSH-2.0-client".to_vec()),
        v_s: Some(b"SSH-2.0-server".to_vec()),
        i_c: Some(vec![20, 1, 2, 3]),
        i_s: Some(vec![20, 9, 8, 7, 6]),
        k_s: Some(vec![0, 0, 0, 7, 115, 115, 104, 45, 114, 115, 97]),
        e: Some(vec![4; 32]),
        f: Some(vec![5; 32]),
        k: Some(vec![0x11; 32]),
        server_key: None,
    };
    let h = kb.digest().expect("digest");

    let mut concat: Vec<u8> = Vec::new();
    for field in [
        kb.v_c.as_ref().unwrap(),
        kb.v_s.as_ref().unwrap(),
        kb.i_c.as_ref().unwrap(),
        kb.i_s.as_ref().unwrap(),
        kb.k_s.as_ref().unwrap(),
        kb.e.as_ref().unwrap(),
        kb.f.as_ref().unwrap(),
        kb.k.as_ref().unwrap(),
    ] {
        concat.extend_from_slice(&(field.len() as u32).to_be_bytes());
        concat.extend_from_slice(field);
    }
    let expected = ring::digest::digest(&ring::digest::SHA256, &concat);
    assert_eq!(expected.as_ref(), h.as_slice());
    assert_eq!(32, h.len());
}

#[test]
fn key_builder_incomplete() {
    let kb = KeyBuilder::default();
    assert!(kb.digest().is_err());
}

// ---------------------------------------------------------------------------
// The framer driven through the whole state machine
// ---------------------------------------------------------------------------

/// Frame a payload for the unencrypted packet layer, smallest padding.
fn frame(payload: &[u8]) -> Vec<u8> {
    let mut pad = (8 - (5 + payload.len()) % 8) % 8;
    // the reader insists on a packet_length of at least 16
    while pad < 4 || payload.len() + 1 + pad < 16 {
        pad += 8;
    }
    let pkt_len = (payload.len() + 1 + pad) as u32;
    let mut v = Vec::new();
    v.extend_from_slice(&pkt_len.to_be_bytes());
    v.push(pad as u8);
    v.extend_from_slice(payload);
    v.extend_from_slice(&vec![0xaau8; pad]);
    v
}

fn poll_to_error(stream: Vec<u8>) -> HandshakeError {
    let reader = AsyncBufReader::with_capacity(4096, Cursor::new(stream));
    let writer = AsyncBufWriter::with_capacity(4096, Cursor::new(Vec::new()));
    let mut t = client_key_exchange(
        reader,
        writer,
        client_prefs(),
        b"SSH-2.0-client".to_vec(),
        b"SSH-2.0-server".to_vec(),
    )
    .expect("transport");
    for _ in 0..100 {
        match t.poll() {
            Ok(Async::NotReady) => continue,
            Ok(Async::Ready(_)) => panic!("handshake unexpectedly succeeded"),
            Err(e) => return e,
        }
    }
    panic!("handshake did not resolve");
}

#[test]
fn header_too_short_is_rejected() {
    // packet_length 15 is under the 16-byte floor
    let stream = vec![0, 0, 0, 0x0f, 0x04];
    assert_eq!(HandshakeError::InvalidHeader, poll_to_error(stream));
}

#[test]
fn header_padding_overrun_is_rejected() {
    // packet_length 16 cannot hold padding_length 16 plus the length byte
    let stream = vec![0, 0, 0, 0x10, 0x10];
    assert_eq!(HandshakeError::InvalidHeader, poll_to_error(stream));
}

#[test]
fn valid_header_delivers_payload() {
    // packet_length 16, padding_length 4: eleven payload bytes reach the
    // state, whose first byte (zero) is not the awaited KEXINIT tag
    let mut stream = vec![0, 0, 0, 0x10, 0x04];
    stream.extend_from_slice(&[0u8; 15]);
    assert_eq!(
        HandshakeError::InvalidAlgorithmNegotiation(NegotiationError::KexinitExpected),
        poll_to_error(stream)
    );
}

fn server_kexinit_payload() -> Vec<u8> {
    let mut p = vec![20u8];
    p.extend_from_slice(&[0u8; 16]);
    p.extend_from_slice(&serialize_alg_neg(&client_prefs()).expect("body"));
    p
}

fn kexdh_reply_payload(server_key: &ServerKey, f: &[u8], signature: &Signature) -> Vec<u8> {
    let mut enc = BinaryEncoder::new();
    enc.put_u8(31);
    enc.put_bytes(&serialize_server_key(server_key).expect("key")).expect("encode");
    enc.put_bytes(f).expect("encode");
    enc.put_bytes(&serialize_signature(signature).expect("sig")).expect("encode");
    enc.into_inner()
}

#[test]
fn bad_signature_is_not_verified() {
    // a full exchange against a fake server whose signature cannot verify:
    // the handshake must end in ServerKeyNotVerified, never in agreement
    let mut f = vec![0u8; 32];
    f[0] = 9;
    let reply = kexdh_reply_payload(
        &ServerKey::SSH_RSA { e: vec![1, 0, 1], n: vec![0xc2; 256] },
        &f,
        &Signature::SSH_RSA { signature: vec![0x5a; 256] },
    );
    let mut stream = frame(&server_kexinit_payload());
    stream.extend_from_slice(&frame(&reply));
    assert_eq!(HandshakeError::ServerKeyNotVerified, poll_to_error(stream));
}

#[test]
fn unknown_cert_type_is_reported() {
    let mut f = vec![0u8; 32];
    f[0] = 9;
    let reply = kexdh_reply_payload(
        &ServerKey::Unknown { name: b"ssh-ed25519".to_vec(), data: vec![1, 2, 3] },
        &f,
        &Signature::SSH_RSA { signature: vec![0x5a; 64] },
    );
    let mut stream = frame(&server_kexinit_payload());
    stream.extend_from_slice(&frame(&reply));
    assert_eq!(
        HandshakeError::UnknownCertType(b"ssh-ed25519".to_vec()),
        poll_to_error(stream)
    );
}

#[test]
fn truncated_reply_is_a_decode_error() {
    let mut stream = frame(&server_kexinit_payload());
    stream.extend_from_slice(&frame(&[31u8, 0, 0, 0, 9]));
    match poll_to_error(stream) {
        HandshakeError::InvalidKexReply(KexReplyError::Decode(_)) => (),
        other => panic!("expected a decode error, got {:?}", other),
    }
}
