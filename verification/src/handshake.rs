//! The client handshake: version exchange, algorithm negotiation per the
//! preference-intersection rule, Diffie-Hellman key exchange with transcript
//! hashing and host-key signature verification, and the NEWKEYS transition
//! that yields the agreed `SecureContext`.

use vstd::prelude::*;

use crate::codec::{
    enc_mpint_body, enc_string, sp_string, BinaryDecoder, BinaryEncoder, DecoderError,
    MAX_STRING_LEN,
};
use crate::crypto::{
    p256_agree, p256_generate, rsa_pkcs1_sha1_verifies, rsa_verify, sha256_of, x25519_agree,
    x25519_generate,
};
use crate::key::TranscriptHash;
use crate::transport::{AsyncPacketState, PacketWriteRequest};
use crate::types::{
    name_views, parse_server_key, parse_signature, sp_alg_neg, sp_server_key, sp_signature,
    AlgorithmNegotiation, AlgorithmNegotiationView, CompressionAlgorithm, EncryptionAlgorithm,
    KexAlgorithm, Language, MacAlgorithm, Name, ServerHostKeyAlgorithm, ServerKey, ServerKeyView,
    Signature, SignatureView,
};
use crate::{Async, IoErrorKind, SSH_MSG_KEXDH_INIT, SSH_MSG_KEXDH_REPLY, SSH_MSG_KEXINIT,
    SSH_MSG_NEWKEYS};

verus! {

broadcast use crate::codec::lemma_enc_u32_len;

/// Why an algorithm negotiation was rejected.
#[derive(Debug, PartialEq, Eq, Clone, Copy)]
pub enum NegotiationError {
    /// The packet was not a KEXINIT.
    KexinitExpected,
    /// The KEXINIT body would not decode.
    Decode(DecoderError),
    NoCommonKex,
    NoCommonHostKey,
    NoCommonEncryption,
    NoCommonMac,
    NoCommonCompression,
}

/// Why a key-exchange reply was rejected.
#[derive(Debug, PartialEq, Eq, Clone, Copy)]
pub enum KexReplyError {
    /// The packet was not a KEXDH_REPLY.
    ReplyExpected,
    /// The reply body would not decode.
    Decode(DecoderError),
}

/// Every way the handshake can fail.
#[derive(Debug, PartialEq, Eq, Clone)]
pub enum HandshakeError {
    IoError(IoErrorKind),
    InvalidHeader,
    InvalidVersionExchange,
    InvalidAlgorithmNegotiation(NegotiationError),
    InvalidKexReply(KexReplyError),
    KexFailed,
    ServerKeyNotVerified,
    UnknownCertType(Vec<u8>),
    Unspecified,
    Panic,
}

/// The errors the packet transport raises on its own behalf; the handshake
/// error type implements it, and any embedding with its own error type can.
pub trait TransportError: Sized {
    /// The value `invalid_header` returns.
    spec fn spec_invalid_header() -> Self;

    /// The value `unspecified` returns.
    spec fn spec_unspecified() -> Self;

    /// The value `io_error` returns.
    spec fn spec_io_error(k: IoErrorKind) -> Self;

    /// A frame header with an inadmissible packet_length.
    fn invalid_header() -> (r: Self)
        ensures
            r == Self::spec_invalid_header(),
    ;

    /// A numeric overflow inside the framing arithmetic.
    fn unspecified() -> (r: Self)
        ensures
            r == Self::spec_unspecified(),
    ;

    /// A failure of the underlying byte stream.
    fn io_error(k: IoErrorKind) -> (r: Self)
        ensures
            r == Self::spec_io_error(k),
    ;
}

impl TransportError for HandshakeError {
    open spec fn spec_invalid_header() -> HandshakeError {
        HandshakeError::InvalidHeader
    }

    open spec fn spec_unspecified() -> HandshakeError {
        HandshakeError::Unspecified
    }

    open spec fn spec_io_error(k: IoErrorKind) -> HandshakeError {
        HandshakeError::IoError(k)
    }

    fn invalid_header() -> HandshakeError {
        HandshakeError::InvalidHeader
    }

    fn unspecified() -> HandshakeError {
        HandshakeError::Unspecified
    }

    fn io_error(k: IoErrorKind) -> HandshakeError {
        HandshakeError::IoError(k)
    }
}

// ---------------------------------------------------------------------------
// mpint encoding
// ---------------------------------------------------------------------------

/// One leading zero is stripped, as a decoder of a non-negative mpint does.
pub open spec fn mpint_stripped(b: Seq<u8>) -> Seq<u8> {
    if b.len() > 0 && b[0] == 0 {
        b.skip(1)
    } else {
        b
    }
}

/// The mpint body of a non-negative value: a zero byte is prepended when the
/// high bit of the first byte is set.
pub fn into_mpint(buf: &[u8]) -> (r: Vec<u8>)
    ensures
        r@ == enc_mpint_body(buf@),
{
    if buf.len() == 0 {
        Vec::new()
    } else if *vstd::slice::slice_index_get(buf, 0) <= 0x7f {
        let r = vstd::slice::slice_to_vec(buf);
        r
    } else {
        let mut v: Vec<u8> = Vec::new();
        v.push(0);
        v.extend_from_slice(buf);
        assert(v@ =~= enc_mpint_body(buf@));
        v
    }
}

/// Strip the one leading zero byte an mpint body may carry.
pub fn from_mpint(data: &[u8]) -> (r: &[u8])
    ensures
        r@ == mpint_stripped(data@),
{
    if data.len() > 0 && *vstd::slice::slice_index_get(data, 0) == 0 {
        vstd::slice::slice_subrange(data, 1, data.len())
    } else {
        data
    }
}

// ---------------------------------------------------------------------------
// The version line
// ---------------------------------------------------------------------------

/// The eight bytes of `SSH-2.0-`.
pub open spec fn version_prefix() -> Seq<u8> {
    seq![83u8, 83u8, 72u8, 45u8, 50u8, 46u8, 48u8, 45u8]
}

/// The client's identification line: `SSH-2.0-<ident> <comment>\r\n`.
pub open spec fn spec_version_line(ident: Seq<u8>, comment: Seq<u8>) -> Seq<u8> {
    version_prefix() + ident + seq![32u8] + comment + seq![13u8, 10u8]
}

/// Build the client's identification line; the protocol caps it at 255
/// bytes including the line ending.
pub fn build_version_line(ident: &Vec<u8>, comment: &Vec<u8>) -> (r: Vec<u8>)
    requires
        11 + ident@.len() + comment@.len() <= 255,
    ensures
        r@ == spec_version_line(ident@, comment@),
        r@.len() <= 255,
{
    let mut v: Vec<u8> = vec![83u8, 83u8, 72u8, 45u8, 50u8, 46u8, 48u8, 45u8];
    v.extend_from_slice(ident.as_slice());
    v.push(32);
    v.extend_from_slice(comment.as_slice());
    v.push(13);
    v.push(10);
    assert(v@ =~= spec_version_line(ident@, comment@));
    v
}

/// A peer line, its trailing newline already consumed, is valid when it
/// starts with `SSH-2.0-` and ended in `\r\n`.
pub open spec fn valid_version_line(line: Seq<u8>) -> bool {
    line.len() >= 9 && line.subrange(0, 8) == version_prefix() && line[line.len() - 1] == 13
}

/// Check the peer's identification line, handed over without its trailing
/// newline, and give back `V_S`: the line without the `\r\n` ending.
pub fn parse_version_line(line: &Vec<u8>) -> (r: Result<Vec<u8>, HandshakeError>)
    ensures
        r is Ok <==> valid_version_line(line@),
        r matches Ok(v) ==> v@ == line@.take(line@.len() - 1),
        r is Err ==> r == Err::<Vec<u8>, HandshakeError>(HandshakeError::InvalidVersionExchange),
{
    if line.len() < 9 {
        return Err(HandshakeError::InvalidVersionExchange);
    }
    let prefix: Vec<u8> = vec![83u8, 83u8, 72u8, 45u8, 50u8, 46u8, 48u8, 45u8];
    let head = vstd::slice::slice_to_vec(vstd::slice::slice_subrange(line.as_slice(), 0, 8));
    if !(head == prefix) {
        proof {
            if line@.subrange(0, 8) == version_prefix() {
                assert(head@ =~= prefix@);
            }
        }
        return Err(HandshakeError::InvalidVersionExchange);
    }
    proof {
        assert(head@ =~= prefix@);
        assert(prefix@ =~= version_prefix());
    }
    if *vstd::slice::slice_index_get(line.as_slice(), line.len() - 1) != 13 {
        return Err(HandshakeError::InvalidVersionExchange);
    }
    let v = vstd::slice::slice_to_vec(
        vstd::slice::slice_subrange(line.as_slice(), 0, line.len() - 1),
    );
    Ok(v)
}

// ---------------------------------------------------------------------------
// Algorithm negotiation: RFC 4253 preference intersection
// ---------------------------------------------------------------------------

/// The first index of a client preference that the server also announces;
/// the list length when there is none.
pub open spec fn first_common_idx(c: Seq<Seq<u8>>, s: Seq<Seq<u8>>) -> int
    decreases c.len(),
{
    if c.len() == 0 {
        0
    } else if s.contains(c[0]) {
        0
    } else {
        1 + first_common_idx(c.drop_first(), s)
    }
}

/// Some client preference appears in the server's list.
pub open spec fn has_common(c: Seq<Seq<u8>>, s: Seq<Seq<u8>>) -> bool {
    exists|i: int| 0 <= i < c.len() && s.contains(#[trigger] c[i])
}

/// The negotiated name of one category: the first client preference the
/// server also announces.
pub open spec fn chosen(c: Seq<Seq<u8>>, s: Seq<Seq<u8>>) -> Seq<u8> {
    c[first_common_idx(c, s)]
}

/// A common name at `i` after none is the first common one.
proof fn lemma_first_common_at(c: Seq<Seq<u8>>, s: Seq<Seq<u8>>, i: int)
    requires
        0 <= i < c.len(),
        s.contains(c[i]),
        forall|j: int| 0 <= j < i ==> !s.contains(#[trigger] c[j]),
    ensures
        first_common_idx(c, s) == i,
    decreases i,
{
    if i == 0 {
    } else {
        assert(!s.contains(c[0]));
        let t = c.drop_first();
        assert(t[i - 1] == c[i]);
        assert(forall|j: int| 0 <= j < i - 1 ==> t[j] == c[j + 1] && !s.contains(#[trigger] t[j]));
        lemma_first_common_at(t, s, i - 1);
    }
}

/// Compare two byte vectors by content.
fn bytes_eq(a: &Vec<u8>, b: &Vec<u8>) -> (r: bool)
    ensures
        r == (a@ == b@),
{
    let r = a == b;
    proof {
        if r {
            assert(a@ =~= b@);
        }
        if a@ == b@ {
            assert(a@.len() == b@.len());
        }
    }
    r
}

/// Whether the list announces this wire name.
fn contains_name<T: Name>(list: &Vec<T>, name: &Vec<u8>) -> (r: bool)
    ensures
        r == name_views(list@).contains(name@),
{
    let mut i: usize = 0;
    let n = list.len();
    while i < n
        invariant
            i <= n,
            n == list@.len(),
            forall|j: int| 0 <= j < i ==> name_views(list@)[j] != name@,
        decreases n - i,
    {
        let cand = list[i].to_name();
        if bytes_eq(&cand, name) {
            proof {
                assert(name_views(list@)[i as int] == name@);
            }
            return true;
        }
        i += 1;
    }
    assert(!name_views(list@).contains(name@)) by {
        assert(forall|j: int| 0 <= j < name_views(list@).len() ==> name_views(list@)[j] != name@);
    }
    false
}

/// The first client preference the server also announces, as a fresh value.
fn find_first_common<T: Name>(client: &Vec<T>, server: &Vec<T>) -> (r: Option<T>)
    requires
        forall|i: int| 0 <= i < client@.len() ==> (#[trigger] client@[i]).wf(),
    ensures
        r is Some <==> has_common(name_views(client@), name_views(server@)),
        r matches Some(x) ==> x@ == chosen(name_views(client@), name_views(server@)) && x.wf(),
{
    let ghost cv = name_views(client@);
    let ghost sv = name_views(server@);
    let mut i: usize = 0;
    let n = client.len();
    while i < n
        invariant
            i <= n,
            n == client@.len(),
            cv == name_views(client@),
            sv == name_views(server@),
            forall|j: int| 0 <= j < i ==> !sv.contains(#[trigger] cv[j]),
            forall|j: int| 0 <= j < client@.len() ==> (#[trigger] client@[j]).wf(),
        decreases n - i,
    {
        let name = client[i].to_name();
        if contains_name(server, &name) {
            proof {
                assert(sv.contains(cv[i as int]));
                lemma_first_common_at(cv, sv, i as int);
                client@[i as int].lemma_wf_valid();
            }
            let x = T::from_name(name);
            return Some(x);
        }
        i += 1;
    }
    proof {
        assert(!has_common(cv, sv));
    }
    None
}

/// One algorithm per category, chosen per RFC 4253: for each category, the
/// first client preference that the server also announces.
#[derive(Debug, Clone, PartialEq)]
pub struct NegotiatedAlgorithm {
    pub kex_algorithms: KexAlgorithm,
    pub server_host_key_algorithms: ServerHostKeyAlgorithm,
    pub encryption_algorithms_client_to_server: EncryptionAlgorithm,
    pub encryption_algorithms_server_to_client: EncryptionAlgorithm,
    pub mac_algorithms_client_to_server: MacAlgorithm,
    pub mac_algorithms_server_to_client: MacAlgorithm,
    pub compression_algorithms_client_to_server: CompressionAlgorithm,
    pub compression_algorithms_server_to_client: CompressionAlgorithm,
    pub languages_client_to_server: Option<Language>,
    pub languages_server_to_client: Option<Language>,
}

/// The mathematical content of a `NegotiatedAlgorithm`: one wire name per
/// category.
#[verifier::ext_equal]
pub struct NegotiatedAlgorithmView {
    pub kex_algorithms: Seq<u8>,
    pub server_host_key_algorithms: Seq<u8>,
    pub encryption_algorithms_client_to_server: Seq<u8>,
    pub encryption_algorithms_server_to_client: Seq<u8>,
    pub mac_algorithms_client_to_server: Seq<u8>,
    pub mac_algorithms_server_to_client: Seq<u8>,
    pub compression_algorithms_client_to_server: Seq<u8>,
    pub compression_algorithms_server_to_client: Seq<u8>,
    pub languages_client_to_server: Option<Seq<u8>>,
    pub languages_server_to_client: Option<Seq<u8>>,
}

impl View for NegotiatedAlgorithm {
    type V = NegotiatedAlgorithmView;

    open spec fn view(&self) -> NegotiatedAlgorithmView {
        NegotiatedAlgorithmView {
            kex_algorithms: self.kex_algorithms@,
            server_host_key_algorithms: self.server_host_key_algorithms@,
            encryption_algorithms_client_to_server: self.encryption_algorithms_client_to_server@,
            encryption_algorithms_server_to_client: self.encryption_algorithms_server_to_client@,
            mac_algorithms_client_to_server: self.mac_algorithms_client_to_server@,
            mac_algorithms_server_to_client: self.mac_algorithms_server_to_client@,
            compression_algorithms_client_to_server: self.compression_algorithms_client_to_server@,
            compression_algorithms_server_to_client: self.compression_algorithms_server_to_client@,
            languages_client_to_server: match &self.languages_client_to_server {
                Some(l) => Some(l@),
                None => None,
            },
            languages_server_to_client: match &self.languages_server_to_client {
                Some(l) => Some(l@),
                None => None,
            },
        }
    }
}

/// Every required category has a common algorithm.
pub open spec fn spec_negotiable(c: AlgorithmNegotiationView, s: AlgorithmNegotiationView) -> bool {
    &&& has_common(c.kex_algorithms, s.kex_algorithms)
    &&& has_common(c.server_host_key_algorithms, s.server_host_key_algorithms)
    &&& has_common(
        c.encryption_algorithms_client_to_server,
        s.encryption_algorithms_client_to_server,
    )
    &&& has_common(
        c.encryption_algorithms_server_to_client,
        s.encryption_algorithms_server_to_client,
    )
    &&& has_common(c.mac_algorithms_client_to_server, s.mac_algorithms_client_to_server)
    &&& has_common(c.mac_algorithms_server_to_client, s.mac_algorithms_server_to_client)
    &&& has_common(
        c.compression_algorithms_client_to_server,
        s.compression_algorithms_client_to_server,
    )
    &&& has_common(
        c.compression_algorithms_server_to_client,
        s.compression_algorithms_server_to_client,
    )
}

/// Which category fails first when negotiation fails.
pub open spec fn spec_negotiation_error(
    c: AlgorithmNegotiationView,
    s: AlgorithmNegotiationView,
) -> NegotiationError {
    if !has_common(c.kex_algorithms, s.kex_algorithms) {
        NegotiationError::NoCommonKex
    } else if !has_common(c.server_host_key_algorithms, s.server_host_key_algorithms) {
        NegotiationError::NoCommonHostKey
    } else if !has_common(
        c.encryption_algorithms_client_to_server,
        s.encryption_algorithms_client_to_server,
    ) {
        NegotiationError::NoCommonEncryption
    } else if !has_common(
        c.encryption_algorithms_server_to_client,
        s.encryption_algorithms_server_to_client,
    ) {
        NegotiationError::NoCommonEncryption
    } else if !has_common(c.mac_algorithms_client_to_server, s.mac_algorithms_client_to_server) {
        NegotiationError::NoCommonMac
    } else if !has_common(c.mac_algorithms_server_to_client, s.mac_algorithms_server_to_client) {
        NegotiationError::NoCommonMac
    } else {
        NegotiationError::NoCommonCompression
    }
}

/// The negotiated names when negotiation succeeds.
pub open spec fn spec_negotiated(
    c: AlgorithmNegotiationView,
    s: AlgorithmNegotiationView,
    n: NegotiatedAlgorithmView,
) -> bool {
    &&& n.kex_algorithms == chosen(c.kex_algorithms, s.kex_algorithms)
    &&& n.server_host_key_algorithms == chosen(
        c.server_host_key_algorithms,
        s.server_host_key_algorithms,
    )
    &&& n.encryption_algorithms_client_to_server == chosen(
        c.encryption_algorithms_client_to_server,
        s.encryption_algorithms_client_to_server,
    )
    &&& n.encryption_algorithms_server_to_client == chosen(
        c.encryption_algorithms_server_to_client,
        s.encryption_algorithms_server_to_client,
    )
    &&& n.mac_algorithms_client_to_server == chosen(
        c.mac_algorithms_client_to_server,
        s.mac_algorithms_client_to_server,
    )
    &&& n.mac_algorithms_server_to_client == chosen(
        c.mac_algorithms_server_to_client,
        s.mac_algorithms_server_to_client,
    )
    &&& n.compression_algorithms_client_to_server == chosen(
        c.compression_algorithms_client_to_server,
        s.compression_algorithms_client_to_server,
    )
    &&& n.compression_algorithms_server_to_client == chosen(
        c.compression_algorithms_server_to_client,
        s.compression_algorithms_server_to_client,
    )
    &&& n.languages_client_to_server == if has_common(
        c.languages_client_to_server,
        s.languages_client_to_server,
    ) {
        Some(chosen(c.languages_client_to_server, s.languages_client_to_server))
    } else {
        None::<Seq<u8>>
    }
    &&& n.languages_server_to_client == if has_common(
        c.languages_server_to_client,
        s.languages_server_to_client,
    ) {
        Some(chosen(c.languages_server_to_client, s.languages_server_to_client))
    } else {
        None::<Seq<u8>>
    }
}

/// Negotiate one algorithm per category per RFC 4253: for each category the
/// first client preference the server also announces; languages are
/// optional, every other category must have a common name.
pub fn negotiate(client: &AlgorithmNegotiation, server: &AlgorithmNegotiation) -> (r: Result<
    NegotiatedAlgorithm,
    HandshakeError,
>)
    requires
        client.wf(),
    ensures
        r is Ok <==> spec_negotiable(client@, server@),
        r matches Ok(n) ==> spec_negotiated(client@, server@, n@),
        r is Err ==> r == Err::<NegotiatedAlgorithm, HandshakeError>(
            HandshakeError::InvalidAlgorithmNegotiation(
                spec_negotiation_error(client@, server@),
            ),
        ),
{
    let kex = match find_first_common(&client.kex_algorithms, &server.kex_algorithms) {
        Some(x) => x,
        None => {
            return Err(
                HandshakeError::InvalidAlgorithmNegotiation(NegotiationError::NoCommonKex),
            );
        },
    };
    let hostkey = match find_first_common(
        &client.server_host_key_algorithms,
        &server.server_host_key_algorithms,
    ) {
        Some(x) => x,
        None => {
            return Err(
                HandshakeError::InvalidAlgorithmNegotiation(NegotiationError::NoCommonHostKey),
            );
        },
    };
    let enc_c2s = match find_first_common(
        &client.encryption_algorithms_client_to_server,
        &server.encryption_algorithms_client_to_server,
    ) {
        Some(x) => x,
        None => {
            return Err(
                HandshakeError::InvalidAlgorithmNegotiation(NegotiationError::NoCommonEncryption),
            );
        },
    };
    let enc_s2c = match find_first_common(
        &client.encryption_algorithms_server_to_client,
        &server.encryption_algorithms_server_to_client,
    ) {
        Some(x) => x,
        None => {
            return Err(
                HandshakeError::InvalidAlgorithmNegotiation(NegotiationError::NoCommonEncryption),
            );
        },
    };
    let mac_c2s = match find_first_common(
        &client.mac_algorithms_client_to_server,
        &server.mac_algorithms_client_to_server,
    ) {
        Some(x) => x,
        None => {
            return Err(
                HandshakeError::InvalidAlgorithmNegotiation(NegotiationError::NoCommonMac),
            );
        },
    };
    let mac_s2c = match find_first_common(
        &client.mac_algorithms_server_to_client,
        &server.mac_algorithms_server_to_client,
    ) {
        Some(x) => x,
        None => {
            return Err(
                HandshakeError::InvalidAlgorithmNegotiation(NegotiationError::NoCommonMac),
            );
        },
    };
    let comp_c2s = match find_first_common(
        &client.compression_algorithms_client_to_server,
        &server.compression_algorithms_client_to_server,
    ) {
        Some(x) => x,
        None => {
            return Err(
                HandshakeError::InvalidAlgorithmNegotiation(
                    NegotiationError::NoCommonCompression,
                ),
            );
        },
    };
    let comp_s2c = match find_first_common(
        &client.compression_algorithms_server_to_client,
        &server.compression_algorithms_server_to_client,
    ) {
        Some(x) => x,
        None => {
            return Err(
                HandshakeError::InvalidAlgorithmNegotiation(
                    NegotiationError::NoCommonCompression,
                ),
            );
        },
    };
    let lang_c2s = find_first_common(
        &client.languages_client_to_server,
        &server.languages_client_to_server,
    );
    let lang_s2c = find_first_common(
        &client.languages_server_to_client,
        &server.languages_server_to_client,
    );
    Ok(
        NegotiatedAlgorithm {
            kex_algorithms: kex,
            server_host_key_algorithms: hostkey,
            encryption_algorithms_client_to_server: enc_c2s,
            encryption_algorithms_server_to_client: enc_s2c,
            mac_algorithms_client_to_server: mac_c2s,
            mac_algorithms_server_to_client: mac_s2c,
            compression_algorithms_client_to_server: comp_c2s,
            compression_algorithms_server_to_client: comp_s2c,
            languages_client_to_server: lang_c2s,
            languages_server_to_client: lang_s2c,
        },
    )
}


// ---------------------------------------------------------------------------
// The agreed result
// ---------------------------------------------------------------------------

/// What a successful handshake yields: the negotiated algorithms and the
/// exchange hash, which doubles as the session identifier.
#[derive(Debug)]
pub struct SecureContext {
    neg_algorithm: NegotiatedAlgorithm,
    session_id: Vec<u8>,
}

impl SecureContext {
    /// The negotiated algorithm names.
    pub closed spec fn spec_neg(&self) -> NegotiatedAlgorithmView {
        self.neg_algorithm@
    }

    /// The exchange hash.
    pub closed spec fn spec_session_id(&self) -> Seq<u8> {
        self.session_id@
    }

    /// The negotiated algorithm set.
    pub fn negotiated(&self) -> (r: &NegotiatedAlgorithm)
        ensures
            r@ == self.spec_neg(),
    {
        &self.neg_algorithm
    }

    /// The session identifier: the exchange hash `H`.
    pub fn session_id(&self) -> (r: &Vec<u8>)
        ensures
            r@ == self.spec_session_id(),
    {
        &self.session_id
    }
}

// ---------------------------------------------------------------------------
// S1: algorithm exchange
// ---------------------------------------------------------------------------

/// The server's lists as read from a whole KEXINIT payload, tag byte and
/// sixteen-byte cookie included.
pub open spec fn sp_server_neg(msg: Seq<u8>) -> Option<AlgorithmNegotiationView> {
    if msg.len() >= 17 && msg[0] == SSH_MSG_KEXINIT {
        match sp_alg_neg(msg.skip(17), 0) {
            Some(p) => Some(p.0),
            None => None,
        }
    } else {
        None
    }
}

/// A KEXINIT payload this state accepts: it decodes, and every required
/// category has a common algorithm.
pub open spec fn kexinit_accepts(client: AlgorithmNegotiationView, msg: Seq<u8>) -> bool {
    match sp_server_neg(msg) {
        Some(sv) => spec_negotiable(client, sv),
        None => false,
    }
}

/// Sends the client's KEXINIT, reads the server's, negotiates, and seeds the
/// transcript with `V_C`, `V_S`, `I_C`, `I_S`.
pub struct AlgorithmExchangeState {
    client_neg: AlgorithmNegotiation,
    v_c: Vec<u8>,
    v_s: Vec<u8>,
    i_c: Vec<u8>,
    written: bool,
    res: Option<(NegotiatedAlgorithm, TranscriptHash)>,
}

impl AlgorithmExchangeState {
    /// The client's announced lists.
    pub closed spec fn spec_client_neg(&self) -> AlgorithmNegotiationView {
        self.client_neg@
    }

    /// The client identification string, without its line ending.
    pub closed spec fn spec_vc(&self) -> Seq<u8> {
        self.v_c@
    }

    /// The server identification string, without its line ending.
    pub closed spec fn spec_vs(&self) -> Seq<u8> {
        self.v_s@
    }

    /// The client's whole KEXINIT payload.
    pub closed spec fn spec_ic(&self) -> Seq<u8> {
        self.i_c@
    }

    pub closed spec fn spec_written(&self) -> bool {
        self.written
    }

    /// The negotiated names and the seeded transcript, once the server's
    /// KEXINIT has been taken in.
    pub closed spec fn spec_res(&self) -> Option<(NegotiatedAlgorithmView, Seq<u8>)> {
        match self.res {
            Some(nt) => Some((nt.0@, nt.1@)),
            None => None,
        }
    }

    /// The identification strings and the KEXINIT payload fit their length
    /// prefixes, and the client announces only well-formed names.
    pub closed spec fn wf(&self) -> bool {
        &&& self.v_c@.len() <= MAX_STRING_LEN
        &&& self.v_s@.len() <= MAX_STRING_LEN
        &&& self.i_c@.len() <= MAX_STRING_LEN
        &&& self.client_neg.wf()
    }

    pub closed spec fn spec_wants_read(&self) -> bool {
        self.res is None
    }

    pub fn wants_read(&self) -> (r: bool)
        ensures
            r == self.spec_wants_read(),
    {
        self.res.is_none()
    }

    /// Receive the server's KEXINIT: check the tag, decode the lists,
    /// negotiate, and seed the transcript.
    pub fn on_read(&mut self, msg: &[u8]) -> (r: Result<(), HandshakeError>)
        requires
            old(self).wf(),
            msg@.len() <= MAX_STRING_LEN,
        ensures
            final(self).wf(),
            r is Ok <==> kexinit_accepts(old(self).spec_client_neg(), msg@),
            r is Err ==> *final(self) == *old(self),
            msg@.len() == 0 || msg@[0] != SSH_MSG_KEXINIT ==> r == Err::<(), HandshakeError>(
                HandshakeError::InvalidAlgorithmNegotiation(NegotiationError::KexinitExpected),
            ),
            (msg@.len() > 0 && msg@[0] == SSH_MSG_KEXINIT && (msg@.len() < 17 || sp_alg_neg(
                msg@.skip(17),
                0,
            ) is None)) ==> (r matches Err(HandshakeError::InvalidAlgorithmNegotiation(
                NegotiationError::Decode(_),
            ))),
            sp_server_neg(msg@) matches Some(sv) ==> !spec_negotiable(
                old(self).spec_client_neg(),
                sv,
            ) ==> r == Err::<(), HandshakeError>(
                HandshakeError::InvalidAlgorithmNegotiation(
                    spec_negotiation_error(old(self).spec_client_neg(), sv),
                ),
            ),
            r is Ok ==> {
                &&& final(self).spec_res() matches Some(nt)
                &&& spec_negotiated(
                    old(self).spec_client_neg(),
                    sp_server_neg(msg@)->0,
                    nt.0,
                )
                &&& nt.1 == Seq::<u8>::empty() + enc_string(old(self).spec_vc()) + enc_string(
                    old(self).spec_vs(),
                ) + enc_string(old(self).spec_ic()) + enc_string(msg@)
                &&& final(self).spec_written() == old(self).spec_written()
                &&& final(self).spec_client_neg() == old(self).spec_client_neg()
                &&& final(self).spec_vc() == old(self).spec_vc()
                &&& final(self).spec_vs() == old(self).spec_vs()
                &&& final(self).spec_ic() == old(self).spec_ic()
            },
    {
        if msg.len() == 0 || *vstd::slice::slice_index_get(msg, 0) != SSH_MSG_KEXINIT {
            return Err(
                HandshakeError::InvalidAlgorithmNegotiation(NegotiationError::KexinitExpected),
            );
        }
        if msg.len() < 17 {
            return Err(
                HandshakeError::InvalidAlgorithmNegotiation(
                    NegotiationError::Decode(DecoderError::UnexpectedEOF),
                ),
            );
        }
        let body = vstd::slice::slice_subrange(msg, 17, msg.len());
        let mut dec = BinaryDecoder::new(body);
        let server_neg = match crate::types::parse_alg_neg(&mut dec) {
            Ok(v) => v,
            Err(e) => {
                return Err(
                    HandshakeError::InvalidAlgorithmNegotiation(NegotiationError::Decode(e)),
                );
            },
        };
        let negotiated = match negotiate(&self.client_neg, &server_neg) {
            Ok(n) => n,
            Err(e) => {
                return Err(e);
            },
        };
        let mut t = TranscriptHash::new();
        match t.update_string(self.v_c.as_slice()) {
            Ok(()) => (),
            Err(()) => {
                return Err(HandshakeError::KexFailed);
            },
        }
        match t.update_string(self.v_s.as_slice()) {
            Ok(()) => (),
            Err(()) => {
                return Err(HandshakeError::KexFailed);
            },
        }
        match t.update_string(self.i_c.as_slice()) {
            Ok(()) => (),
            Err(()) => {
                return Err(HandshakeError::KexFailed);
            },
        }
        match t.update_string(msg) {
            Ok(()) => (),
            Err(()) => {
                return Err(HandshakeError::KexFailed);
            },
        }
        self.res = Some((negotiated, t));
        Ok(())
    }

    /// The client's own KEXINIT payload, until its flush is acknowledged.
    pub fn write_packet(&self) -> (r: Option<PacketWriteRequest>)
        ensures
            self.spec_written() ==> r is None,
            !self.spec_written() ==> (r matches Some(req) && req.payload@ == self.spec_ic()
                && req.flush),
    {
        if self.written {
            None
        } else {
            let payload = self.i_c.clone();
            proof {
                assert(payload@ =~= self.i_c@);
            }
            Some(PacketWriteRequest { payload, flush: true })
        }
    }

    pub fn on_flush(&mut self)
        ensures
            final(self).spec_written(),
            final(self).spec_client_neg() == old(self).spec_client_neg(),
            final(self).spec_vc() == old(self).spec_vc(),
            final(self).spec_vs() == old(self).spec_vs(),
            final(self).spec_ic() == old(self).spec_ic(),
            final(self).spec_res() == old(self).spec_res(),
            final(self).wf() == old(self).wf(),
    {
        self.written = true;
    }

    /// Once negotiation is done, generate the ephemeral keypair in the
    /// negotiated group and move to the key exchange.
    pub fn poll(&mut self) -> (r: Result<Async<KeyExchangeState>, HandshakeError>)
        requires
            old(self).wf(),
        ensures
            final(self).wf(),
            r is Err ==> r == Err::<Async<KeyExchangeState>, HandshakeError>(
                HandshakeError::KexFailed,
            ),
            old(self).spec_res() is None ==> r == Ok::<Async<KeyExchangeState>, HandshakeError>(
                Async::NotReady,
            ) && *final(self) == *old(self),
            r matches Ok(Async::Ready(next)) ==> {
                &&& old(self).spec_res() matches Some(nt)
                &&& next.wf()
                &&& next.spec_neg()@ == nt.0
                &&& next.spec_transcript() == Some(nt.1)
                &&& !next.spec_written()
                &&& next.spec_res() is None
                &&& next.spec_e().len() == 32 || next.spec_e().len() == 65
            },
    {
        match self.res.take() {
            None => Ok(Async::NotReady),
            Some((neg, t)) => {
                let generated = match &neg.kex_algorithms {
                    KexAlgorithm::CURVE25519_SHA256 => x25519_generate(),
                    KexAlgorithm::ECDH_SHA2_NISTP256 => p256_generate(),
                    KexAlgorithm::Unknown(_) => {
                        return Err(HandshakeError::KexFailed);
                    },
                };
                match generated {
                    None => Err(HandshakeError::KexFailed),
                    Some((priv_key, pub_key)) => Ok(
                        Async::Ready(
                            KeyExchangeState {
                                neg,
                                keyshare: Some((t, priv_key)),
                                e: pub_key,
                                written: false,
                                res: None,
                            },
                        ),
                    ),
                }
            },
        }
    }
}

// ---------------------------------------------------------------------------
// S2: key exchange
// ---------------------------------------------------------------------------

/// The wire pieces of a KEXDH_REPLY payload: the host-key blob as sent, its
/// parsed form, the server's ephemeral value, and the signature blob's
/// parsed form.
pub open spec fn sp_reply_parts(msg: Seq<u8>) -> Option<
    (Seq<u8>, ServerKeyView, Seq<u8>, SignatureView),
> {
    if msg.len() >= 1 && msg[0] == SSH_MSG_KEXDH_REPLY {
        let body = msg.skip(1);
        match sp_string(body, 0) {
            Some((ks, p1)) => match sp_server_key(ks) {
                Some(sk) => match sp_string(body, p1) {
                    Some((f, p2)) => match sp_string(body, p2) {
                        Some((b3, p3)) => match sp_signature(b3) {
                            Some(sg) => Some((ks, sk, f, sg)),
                            None => None,
                        },
                        None => None,
                    },
                    None => None,
                },
                None => None,
            },
            None => None,
        }
    } else {
        None
    }
}

/// Sends KEXDH_INIT, reads the reply, computes the shared secret and the
/// exchange hash, and verifies the server's signature over it.
pub struct KeyExchangeState {
    neg: NegotiatedAlgorithm,
    keyshare: Option<(TranscriptHash, ring::agreement::EphemeralPrivateKey)>,
    e: Vec<u8>,
    written: bool,
    res: Option<Vec<u8>>,
}

impl KeyExchangeState {
    /// The client's ephemeral value leaves room for the tag byte and the
    /// length prefix, and a finished exchange hash is a SHA-256 digest.
    pub closed spec fn wf(&self) -> bool {
        &&& self.e@.len() + 5 <= MAX_STRING_LEN
        &&& self.spec_res() matches Some(h) ==> h.len() == 32
    }

    pub closed spec fn spec_neg(&self) -> NegotiatedAlgorithm {
        self.neg
    }

    pub closed spec fn spec_transcript(&self) -> Option<Seq<u8>> {
        match self.keyshare {
            Some(ks) => Some(ks.0@),
            None => None,
        }
    }

    pub closed spec fn spec_e(&self) -> Seq<u8> {
        self.e@
    }

    pub closed spec fn spec_written(&self) -> bool {
        self.written
    }

    pub closed spec fn spec_res(&self) -> Option<Seq<u8>> {
        match self.res {
            Some(h) => Some(h@),
            None => None,
        }
    }

    pub closed spec fn spec_wants_read(&self) -> bool {
        self.spec_res() is None
    }

    pub fn wants_read(&self) -> (r: bool)
        ensures
            r == self.spec_wants_read(),
    {
        self.res.is_none()
    }

    /// Receive the server's KEXDH_REPLY: decode it, feed `K_S`, `e`, `f`,
    /// and the shared secret to the transcript, finish the exchange hash,
    /// and verify the server's signature over it.
    pub fn on_read(&mut self, msg: &[u8]) -> (r: Result<(), HandshakeError>)
        requires
            old(self).wf(),
            msg@.len() <= MAX_STRING_LEN,
        ensures
            final(self).wf(),
            final(self).spec_neg() == old(self).spec_neg(),
            final(self).spec_e() == old(self).spec_e(),
            final(self).spec_written() == old(self).spec_written(),
            msg@.len() == 0 || msg@[0] != SSH_MSG_KEXDH_REPLY ==> r == Err::<(), HandshakeError>(
                HandshakeError::InvalidKexReply(KexReplyError::ReplyExpected),
            ) && *final(self) == *old(self),
            (msg@.len() > 0 && msg@[0] == SSH_MSG_KEXDH_REPLY && sp_reply_parts(msg@) is None)
                ==> (r matches Err(HandshakeError::InvalidKexReply(KexReplyError::Decode(_))))
                && *final(self) == *old(self),
            sp_reply_parts(msg@) matches Some(parts) ==> (parts.1 matches ServerKeyView::Unknown {
                name,
                data,
            } ==> ((r matches Err(HandshakeError::UnknownCertType(n)) && n@ == name)
                && *final(self) == *old(self))),
            sp_reply_parts(msg@) matches Some(parts) ==> (parts.1 is SSH_RSA
                ==> (parts.3 matches SignatureView::Unknown { name, data } ==> ((r matches Err(
                HandshakeError::UnknownCertType(n),
            ) && n@ == name) && *final(self) == *old(self)))),
            sp_reply_parts(msg@) matches Some(parts) ==> ((parts.1 is SSH_RSA && parts.3 is SSH_RSA
                && old(self).spec_transcript() is None) ==> (r == Err::<(), HandshakeError>(
                HandshakeError::Panic,
            ) && *final(self) == *old(self))),
            r is Ok ==> sp_reply_parts(msg@) is Some && old(self).spec_transcript() is Some,
            r is Ok ==> {
                let parts = sp_reply_parts(msg@)->0;
                let t0 = old(self).spec_transcript()->0;
                &&& parts.1 is SSH_RSA
                &&& parts.3 is SSH_RSA
                &&& exists|k: Seq<u8>|
                    #![auto]
                    k.len() == 32 && (final(self).spec_res() matches Some(h) && h == sha256_of(
                        t0 + enc_string(parts.0) + enc_string(old(self).spec_e()) + enc_string(
                            parts.2,
                        ) + enc_string(enc_mpint_body(k)),
                    ) && rsa_pkcs1_sha1_verifies(
                        mpint_stripped(parts.1->SSH_RSA_n),
                        mpint_stripped(parts.1->SSH_RSA_e),
                        h,
                        parts.3->SSH_RSA_signature,
                    ))
                &&& final(self).spec_transcript() is None
            },
            r == Err::<(), HandshakeError>(HandshakeError::ServerKeyNotVerified) ==> {
                let parts = sp_reply_parts(msg@)->0;
                let t0 = old(self).spec_transcript()->0;
                exists|k: Seq<u8>|
                    #![auto]
                    k.len() == 32 && !rsa_pkcs1_sha1_verifies(
                        mpint_stripped(parts.1->SSH_RSA_n),
                        mpint_stripped(parts.1->SSH_RSA_e),
                        sha256_of(
                            t0 + enc_string(parts.0) + enc_string(old(self).spec_e())
                                + enc_string(parts.2) + enc_string(enc_mpint_body(k)),
                        ),
                        parts.3->SSH_RSA_signature,
                    )
            },
    {
        if msg.len() == 0 || *vstd::slice::slice_index_get(msg, 0) != SSH_MSG_KEXDH_REPLY {
            return Err(HandshakeError::InvalidKexReply(KexReplyError::ReplyExpected));
        }
        let body = vstd::slice::slice_subrange(msg, 1, msg.len());
        let mut dec = BinaryDecoder::new(body);
        let k_s = match dec.parse_bytes() {
            Ok(b) => b,
            Err(e) => {
                return Err(HandshakeError::InvalidKexReply(KexReplyError::Decode(e)));
            },
        };
        let server_key = match parse_server_key(k_s.as_slice()) {
            Ok(k) => k,
            Err(e) => {
                return Err(HandshakeError::InvalidKexReply(KexReplyError::Decode(e)));
            },
        };
        let f = match dec.parse_bytes() {
            Ok(b) => b,
            Err(e) => {
                return Err(HandshakeError::InvalidKexReply(KexReplyError::Decode(e)));
            },
        };
        let blob3 = match dec.parse_bytes() {
            Ok(b) => b,
            Err(e) => {
                return Err(HandshakeError::InvalidKexReply(KexReplyError::Decode(e)));
            },
        };
        let signature = match parse_signature(blob3.as_slice()) {
            Ok(s) => s,
            Err(e) => {
                return Err(HandshakeError::InvalidKexReply(KexReplyError::Decode(e)));
            },
        };
        let (rsa_e, rsa_n) = match &server_key {
            ServerKey::SSH_RSA { e, n } => (e, n),
            ServerKey::Unknown { name, data } => {
                return Err(HandshakeError::UnknownCertType(name.clone()));
            },
        };
        let sig_bytes = match &signature {
            Signature::SSH_RSA { signature } => signature,
            Signature::Unknown { name, data } => {
                return Err(HandshakeError::UnknownCertType(name.clone()));
            },
        };
        let taken = self.keyshare.take();
        let (mut t, priv_key) = match taken {
            Some(ks) => ks,
            None => {
                return Err(HandshakeError::Panic);
            },
        };
        match t.update_string(k_s.as_slice()) {
            Ok(()) => (),
            Err(()) => {
                return Err(HandshakeError::KexFailed);
            },
        }
        match t.update_string(self.e.as_slice()) {
            Ok(()) => (),
            Err(()) => {
                return Err(HandshakeError::KexFailed);
            },
        }
        match t.update_string(f.as_slice()) {
            Ok(()) => (),
            Err(()) => {
                return Err(HandshakeError::KexFailed);
            },
        }
        let shared = match &self.neg.kex_algorithms {
            KexAlgorithm::CURVE25519_SHA256 => x25519_agree(priv_key, &f),
            KexAlgorithm::ECDH_SHA2_NISTP256 => p256_agree(priv_key, &f),
            KexAlgorithm::Unknown(_) => {
                return Err(HandshakeError::KexFailed);
            },
        };
        let shared = match shared {
            Some(k) => k,
            None => {
                return Err(HandshakeError::KexFailed);
            },
        };
        let k_mp = into_mpint(shared.as_slice());
        match t.update_string(k_mp.as_slice()) {
            Ok(()) => (),
            Err(()) => {
                return Err(HandshakeError::KexFailed);
            },
        }
        let h = t.finish();
        let n_stripped = from_mpint(rsa_n.as_slice());
        let e_stripped = from_mpint(rsa_e.as_slice());
        if rsa_verify(n_stripped, e_stripped, h.as_slice(), sig_bytes.as_slice()) {
            self.res = Some(h);
            Ok(())
        } else {
            Err(HandshakeError::ServerKeyNotVerified)
        }
    }

    /// The client's KEXDH_INIT: the tag byte, then `e` as an SSH string.
    pub fn write_packet(&self) -> (r: Option<PacketWriteRequest>)
        requires
            self.wf(),
        ensures
            self.spec_written() ==> r is None,
            !self.spec_written() ==> (r matches Some(req) && req.payload@ == seq![
                SSH_MSG_KEXDH_INIT,
            ] + enc_string(self.spec_e()) && req.flush),
    {
        if self.written {
            None
        } else {
            let mut enc = BinaryEncoder::new();
            enc.put_u8(SSH_MSG_KEXDH_INIT);
            match enc.put_bytes(self.e.as_slice()) {
                Ok(()) => (),
                Err(_) => {
                    assert(false);
                },
            }
            let payload = enc.into_inner();
            proof {
                assert(payload@ =~= seq![SSH_MSG_KEXDH_INIT] + enc_string(self.spec_e()));
            }
            Some(PacketWriteRequest { payload, flush: true })
        }
    }

    pub fn on_flush(&mut self)
        ensures
            final(self).spec_written(),
            final(self).spec_neg() == old(self).spec_neg(),
            final(self).spec_e() == old(self).spec_e(),
            final(self).spec_transcript() == old(self).spec_transcript(),
            final(self).spec_res() == old(self).spec_res(),
            final(self).wf() == old(self).wf(),
    {
        self.written = true;
    }

    /// Once the exchange hash is verified and KEXDH_INIT has been flushed,
    /// move to the NEWKEYS stage.
    pub fn poll(&mut self) -> (r: Result<Async<Agreed>, HandshakeError>)
        requires
            old(self).wf(),
        ensures
            final(self).wf(),
            r is Ok,
            !old(self).spec_written() ==> r == Ok::<Async<Agreed>, HandshakeError>(
                Async::NotReady,
            ) && *final(self) == *old(self),
            old(self).spec_written() && old(self).spec_res() is None ==> r == Ok::<
                Async<Agreed>,
                HandshakeError,
            >(Async::NotReady) && *final(self) == *old(self),
            r matches Ok(Async::Ready(next)) ==> {
                &&& old(self).spec_res() matches Some(h)
                &&& next.spec_ctx() matches Some(ctx) && ctx.1 == h && ctx.0
                    == old(self).spec_neg()@
                &&& !next.spec_sent()
                &&& next.wf()
            },
    {
        if !self.written {
            return Ok(Async::NotReady);
        }
        match self.res.take() {
            None => Ok(Async::NotReady),
            Some(session_id) => {
                let neg = clone_negotiated(&self.neg);
                Ok(
                    Async::Ready(
                        Agreed {
                            ctx: Some(SecureContext { neg_algorithm: neg, session_id }),
                            new_key_sent: false,
                        },
                    ),
                )
            },
        }
    }
}

/// A fresh value of each negotiated name, same wire meaning.
fn requote<T: Name>(x: &T) -> (r: T)
    ensures
        r@ == x@,
        x.wf() ==> r.wf(),
{
    proof {
        if x.wf() {
            x.lemma_wf_valid();
        }
    }
    T::from_name(x.to_name())
}

/// Copy a negotiated algorithm set, preserving every wire name.
fn clone_negotiated(n: &NegotiatedAlgorithm) -> (r: NegotiatedAlgorithm)
    ensures
        r@ == n@,
{
    let r = NegotiatedAlgorithm {
        kex_algorithms: requote(&n.kex_algorithms),
        server_host_key_algorithms: requote(&n.server_host_key_algorithms),
        encryption_algorithms_client_to_server: requote(
            &n.encryption_algorithms_client_to_server,
        ),
        encryption_algorithms_server_to_client: requote(
            &n.encryption_algorithms_server_to_client,
        ),
        mac_algorithms_client_to_server: requote(&n.mac_algorithms_client_to_server),
        mac_algorithms_server_to_client: requote(&n.mac_algorithms_server_to_client),
        compression_algorithms_client_to_server: requote(
            &n.compression_algorithms_client_to_server,
        ),
        compression_algorithms_server_to_client: requote(
            &n.compression_algorithms_server_to_client,
        ),
        languages_client_to_server: match &n.languages_client_to_server {
            Some(l) => Some(requote(l)),
            None => None,
        },
        languages_server_to_client: match &n.languages_server_to_client {
            Some(l) => Some(requote(l)),
            None => None,
        },
    };
    assert(r@ =~= n@);
    r
}

// ---------------------------------------------------------------------------
// S3: NEWKEYS
// ---------------------------------------------------------------------------

/// Sends the single-byte NEWKEYS packet and, once it is flushed, resolves
/// with the agreed context.
pub struct Agreed {
    ctx: Option<SecureContext>,
    new_key_sent: bool,
}

impl Agreed {
    /// The stored context, as negotiated names and session identifier.
    pub closed spec fn spec_ctx(&self) -> Option<(NegotiatedAlgorithmView, Seq<u8>)> {
        match self.ctx {
            Some(c) => Some((c.spec_neg(), c.spec_session_id())),
            None => None,
        }
    }

    pub closed spec fn spec_sent(&self) -> bool {
        self.new_key_sent
    }

    /// A stored exchange hash is a SHA-256 digest.
    pub open spec fn wf(&self) -> bool {
        self.spec_ctx() matches Some(c) ==> c.1.len() == 32
    }

    /// The NEWKEYS packet, until its flush is acknowledged.
    pub fn write_packet(&self) -> (r: Option<PacketWriteRequest>)
        ensures
            self.spec_sent() ==> r is None,
            !self.spec_sent() ==> (r matches Some(req) && req.payload@ == seq![SSH_MSG_NEWKEYS]
                && req.flush),
    {
        if self.new_key_sent {
            None
        } else {
            let payload: Vec<u8> = vec![SSH_MSG_NEWKEYS];
            proof {
                assert(payload@ =~= seq![SSH_MSG_NEWKEYS]);
            }
            Some(PacketWriteRequest { payload, flush: true })
        }
    }

    pub fn on_flush(&mut self)
        ensures
            final(self).spec_sent(),
            final(self).spec_ctx() == old(self).spec_ctx(),
    {
        self.new_key_sent = true;
    }

    /// Resolve with the context once NEWKEYS has been flushed.
    pub fn poll(&mut self) -> (r: Result<Async<SecureContext>, HandshakeError>)
        ensures
            r is Err ==> *final(self) == *old(self),
            r matches Ok(Async::NotReady) ==> *final(self) == *old(self),
            !old(self).spec_sent() ==> r == Ok::<Async<SecureContext>, HandshakeError>(
                Async::NotReady,
            ) && *final(self) == *old(self),
            old(self).spec_sent() && old(self).spec_ctx() is None ==> r == Err::<
                Async<SecureContext>,
                HandshakeError,
            >(HandshakeError::Panic),
            r matches Ok(Async::Ready(ctx)) ==> old(self).spec_ctx() == Some(
                (ctx.spec_neg(), ctx.spec_session_id()),
            ) && final(self).spec_ctx() is None,
    {
        if !self.new_key_sent {
            return Ok(Async::NotReady);
        }
        match self.ctx.take() {
            Some(ctx) => Ok(Async::Ready(ctx)),
            None => Err(HandshakeError::Panic),
        }
    }
}

// ---------------------------------------------------------------------------
// The composed client key exchange
// ---------------------------------------------------------------------------

/// The stage the handshake stands in.
pub enum ClientKex {
    AlgorithmExchange(AlgorithmExchangeState),
    KeyExchange(KeyExchangeState),
    Agreed(Agreed),
}

/// The whole client key exchange, driven by the packet transport.
pub struct ClientKeyExchange {
    st: ClientKex,
}

impl AsyncPacketState for ClientKeyExchange {
    closed spec fn wf(&self) -> bool {
        match self.st {
            ClientKex::AlgorithmExchange(s) => s.wf(),
            ClientKex::KeyExchange(s) => s.wf(),
            ClientKex::Agreed(s) => s.wf(),
        }
    }

    closed spec fn spec_wants_read(&self) -> bool {
        match self.st {
            ClientKex::AlgorithmExchange(s) => s.spec_wants_read(),
            ClientKex::KeyExchange(s) => s.spec_wants_read(),
            ClientKex::Agreed(s) => false,
        }
    }

    closed spec fn spec_write_packet(&self) -> Option<(Seq<u8>, bool)> {
        match self.st {
            ClientKex::AlgorithmExchange(s) => if s.spec_written() {
                None
            } else {
                Some((s.spec_ic(), true))
            },
            ClientKex::KeyExchange(s) => if s.spec_written() {
                None
            } else {
                Some((seq![SSH_MSG_KEXDH_INIT] + enc_string(s.spec_e()), true))
            },
            ClientKex::Agreed(s) => if s.spec_sent() {
                None
            } else {
                Some((seq![SSH_MSG_NEWKEYS], true))
            },
        }
    }

    closed spec fn spec_result(&self) -> Option<(NegotiatedAlgorithmView, Seq<u8>)> {
        match self.st {
            ClientKex::Agreed(s) => if s.spec_sent() {
                s.spec_ctx()
            } else {
                None
            },
            _ => None,
        }
    }

    fn wants_read(&self) -> (r: bool) {
        match &self.st {
            ClientKex::AlgorithmExchange(s) => s.wants_read(),
            ClientKex::KeyExchange(s) => s.wants_read(),
            ClientKex::Agreed(_) => false,
        }
    }

    fn on_read(&mut self, msg: &[u8]) -> (r: Result<(), HandshakeError>) {
        match &mut self.st {
            ClientKex::AlgorithmExchange(s) => s.on_read(msg),
            ClientKex::KeyExchange(s) => s.on_read(msg),
            ClientKex::Agreed(_) => Err(HandshakeError::Panic),
        }
    }

    fn write_packet(&self) -> (r: Option<PacketWriteRequest>) {
        match &self.st {
            ClientKex::AlgorithmExchange(s) => s.write_packet(),
            ClientKex::KeyExchange(s) => s.write_packet(),
            ClientKex::Agreed(s) => s.write_packet(),
        }
    }

    fn on_flush(&mut self) -> (r: Result<(), HandshakeError>) {
        match &mut self.st {
            ClientKex::AlgorithmExchange(s) => {
                s.on_flush();
                Ok(())
            },
            ClientKex::KeyExchange(s) => {
                s.on_flush();
                Ok(())
            },
            ClientKex::Agreed(s) => {
                s.on_flush();
                Ok(())
            },
        }
    }

    fn poll(&mut self) -> (r: Result<Async<Option<SecureContext>>, HandshakeError>) {
        let next = match &mut self.st {
            ClientKex::AlgorithmExchange(s) => {
                match s.poll() {
                    Err(e) => {
                        return Err(e);
                    },
                    Ok(Async::NotReady) => {
                        return Ok(Async::NotReady);
                    },
                    Ok(Async::Ready(kex)) => ClientKex::KeyExchange(kex),
                }
            },
            ClientKex::KeyExchange(s) => {
                match s.poll() {
                    Err(e) => {
                        return Err(e);
                    },
                    Ok(Async::NotReady) => {
                        return Ok(Async::NotReady);
                    },
                    Ok(Async::Ready(agreed)) => ClientKex::Agreed(agreed),
                }
            },
            ClientKex::Agreed(s) => {
                match s.poll() {
                    Err(e) => {
                        return Err(e);
                    },
                    Ok(Async::NotReady) => {
                        return Ok(Async::NotReady);
                    },
                    Ok(Async::Ready(ctx)) => {
                        return Ok(Async::Ready(Some(ctx)));
                    },
                }
            },
        };
        self.st = next;
        Ok(Async::Ready(None))
    }
}

// ---------------------------------------------------------------------------
// Entry points
// ---------------------------------------------------------------------------

/// The client's `I_C`: the KEXINIT tag, a sixteen-byte random cookie, and
/// the announced algorithm lists.
pub fn build_kexinit_payload<RNG: rand::Rng>(
    neg: &AlgorithmNegotiation,
    rng: &mut RNG,
) -> (r: Result<Vec<u8>, HandshakeError>)
    ensures
        r is Ok <==> crate::types::alg_neg_fits(neg@),
        r matches Ok(p) ==> exists|cookie: Seq<u8>|
            #![auto]
            cookie.len() == 16 && p@ == seq![SSH_MSG_KEXINIT] + cookie + crate::types::enc_alg_neg(
                neg@,
            ),
{
    let body = match crate::types::serialize_alg_neg(neg) {
        Ok(b) => b,
        Err(_) => {
            return Err(HandshakeError::Unspecified);
        },
    };
    let mut payload: Vec<u8> = Vec::new();
    payload.push(SSH_MSG_KEXINIT);
    let cookie = crate::crypto::random_bytes_from(rng, 16);
    payload.extend_from_slice(cookie.as_slice());
    payload.extend_from_slice(body.as_slice());
    proof {
        assert(payload@ =~= seq![SSH_MSG_KEXINIT] + cookie@ + crate::types::enc_alg_neg(neg@));
    }
    Ok(payload)
}

/// Assemble the transport that runs the key exchange: build `I_C`, seed the
/// first state with the identification strings, and wrap reader and writer.
pub fn client_key_exchange<R, W>(
    reader: crate::bufreader::AsyncBufReader<R>,
    writer: crate::bufwriter::AsyncBufWriter<W>,
    neg: AlgorithmNegotiation,
    v_c: Vec<u8>,
    v_s: Vec<u8>,
) -> (r: Result<
    crate::transport::AsyncPacketTransport<R, W, rand::rngs::ThreadRng, ClientKeyExchange>,
    HandshakeError,
>)
    requires
        reader.wf(),
        writer.wf(),
        neg.wf(),
        v_c@.len() <= MAX_STRING_LEN,
        v_s@.len() <= MAX_STRING_LEN,
        17 + crate::types::enc_alg_neg(neg@).len() <= MAX_STRING_LEN,
    ensures
        r matches Ok(t) ==> t.wf(),
        r is Ok <==> crate::types::alg_neg_fits(neg@),
        r is Err ==> r == Err::<
            crate::transport::AsyncPacketTransport<
                R,
                W,
                rand::rngs::ThreadRng,
                ClientKeyExchange,
            >,
            HandshakeError,
        >(HandshakeError::Unspecified),
{
    let mut rng = crate::crypto::new_thread_rng();
    let i_c = match build_kexinit_payload(&neg, &mut rng) {
        Ok(p) => p,
        Err(_) => {
            return Err(HandshakeError::Unspecified);
        },
    };
    let st = AlgorithmExchangeState { client_neg: neg, v_c, v_s, i_c, written: false, res: None };
    let kex = ClientKeyExchange { st: ClientKex::AlgorithmExchange(st) };
    Ok(crate::transport::AsyncPacketTransport::new(reader, writer, rng, kex))
}

} // verus!
