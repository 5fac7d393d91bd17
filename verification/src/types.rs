//! The typed wire values of the handshake: the algorithm-name enums, the
//! KEXINIT body, and the KEXDH reply, each with its verified encoder and
//! decoder.

use vstd::prelude::*;

use crate::codec::{
    all_ascii, comma_free, enc_string, join_names, join_payload, name_byte, seq_views,
    split_names, split_payload, sp_string, valid_name, BinaryDecoder, BinaryEncoder, DecoderError,
    EncoderError, COMMA, MAX_STRING_LEN,
};
use crate::codec::{enc_bool, enc_u32, sp_bool, sp_u32};
use crate::codec::{lemma_sp_bool_of_enc, lemma_sp_string_of_enc, lemma_sp_u32_of_enc};
use crate::codec::{lemma_join_first, lemma_split_join};

verus! {

broadcast use crate::codec::lemma_enc_u32_len;

/// An algorithm name on the wire: a typed value whose view is its wire name,
/// with a catch-all variant so unknown names round-trip unharmed.
pub trait Name: View<V = Seq<u8>> + Sized {
    /// Well-formed values: a catch-all holds a valid name that no named
    /// variant owns.
    spec fn wf(&self) -> bool;

    /// A well-formed value's wire name is a valid SSH name.
    proof fn lemma_wf_valid(&self)
        requires
            self.wf(),
        ensures
            valid_name(self@),
    ;

    /// Parse a wire name; a known name yields its named variant, anything
    /// else is kept as it came.
    fn from_name(s: Vec<u8>) -> (r: Self)
        ensures
            r@ == s@,
            valid_name(s@) ==> r.wf(),
    ;

    /// The wire name.
    fn to_name(&self) -> (r: Vec<u8>)
        ensures
            r@ == self@,
    ;
}

/// The name `ecdh-sha2-nistp256` on the wire.
pub open spec fn name_ecdh_sha2_nistp256() -> Seq<u8> {
    seq![101u8, 99u8, 100u8, 104u8, 45u8, 115u8, 104u8, 97u8, 50u8, 45u8, 110u8, 105u8, 115u8, 116u8, 112u8, 50u8, 53u8, 54u8]
}

/// The name `ecdh-sha2-nistp256` as a byte vector.
pub fn name_ecdh_sha2_nistp256_bytes() -> (r: Vec<u8>)
    ensures
        r@ == name_ecdh_sha2_nistp256(),
{
    let v: Vec<u8> = vec![101u8, 99u8, 100u8, 104u8, 45u8, 115u8, 104u8, 97u8, 50u8, 45u8, 110u8, 105u8, 115u8, 116u8, 112u8, 50u8, 53u8, 54u8];
    assert(v@ =~= name_ecdh_sha2_nistp256());
    v
}

/// The name `curve25519-sha256@libssh.org` on the wire.
pub open spec fn name_curve25519_sha256() -> Seq<u8> {
    seq![99u8, 117u8, 114u8, 118u8, 101u8, 50u8, 53u8, 53u8, 49u8, 57u8, 45u8, 115u8, 104u8, 97u8, 50u8, 53u8, 54u8, 64u8, 108u8, 105u8, 98u8, 115u8, 115u8, 104u8, 46u8, 111u8, 114u8, 103u8]
}

/// The name `curve25519-sha256@libssh.org` as a byte vector.
pub fn name_curve25519_sha256_bytes() -> (r: Vec<u8>)
    ensures
        r@ == name_curve25519_sha256(),
{
    let v: Vec<u8> = vec![99u8, 117u8, 114u8, 118u8, 101u8, 50u8, 53u8, 53u8, 49u8, 57u8, 45u8, 115u8, 104u8, 97u8, 50u8, 53u8, 54u8, 64u8, 108u8, 105u8, 98u8, 115u8, 115u8, 104u8, 46u8, 111u8, 114u8, 103u8];
    assert(v@ =~= name_curve25519_sha256());
    v
}

/// The name `ssh-rsa` on the wire.
pub open spec fn name_ssh_rsa() -> Seq<u8> {
    seq![115u8, 115u8, 104u8, 45u8, 114u8, 115u8, 97u8]
}

/// The name `ssh-rsa` as a byte vector.
pub fn name_ssh_rsa_bytes() -> (r: Vec<u8>)
    ensures
        r@ == name_ssh_rsa(),
{
    let v: Vec<u8> = vec![115u8, 115u8, 104u8, 45u8, 114u8, 115u8, 97u8];
    assert(v@ =~= name_ssh_rsa());
    v
}

/// The name `aes256-cbc` on the wire.
pub open spec fn name_aes256_cbc() -> Seq<u8> {
    seq![97u8, 101u8, 115u8, 50u8, 53u8, 54u8, 45u8, 99u8, 98u8, 99u8]
}

/// The name `aes256-cbc` as a byte vector.
pub fn name_aes256_cbc_bytes() -> (r: Vec<u8>)
    ensures
        r@ == name_aes256_cbc(),
{
    let v: Vec<u8> = vec![97u8, 101u8, 115u8, 50u8, 53u8, 54u8, 45u8, 99u8, 98u8, 99u8];
    assert(v@ =~= name_aes256_cbc());
    v
}

/// The name `aes256-ctr` on the wire.
pub open spec fn name_aes256_ctr() -> Seq<u8> {
    seq![97u8, 101u8, 115u8, 50u8, 53u8, 54u8, 45u8, 99u8, 116u8, 114u8]
}

/// The name `aes256-ctr` as a byte vector.
pub fn name_aes256_ctr_bytes() -> (r: Vec<u8>)
    ensures
        r@ == name_aes256_ctr(),
{
    let v: Vec<u8> = vec![97u8, 101u8, 115u8, 50u8, 53u8, 54u8, 45u8, 99u8, 116u8, 114u8];
    assert(v@ =~= name_aes256_ctr());
    v
}

/// The name `aes256-gcm@openssh.com` on the wire.
pub open spec fn name_aes256_gcm() -> Seq<u8> {
    seq![97u8, 101u8, 115u8, 50u8, 53u8, 54u8, 45u8, 103u8, 99u8, 109u8, 64u8, 111u8, 112u8, 101u8, 110u8, 115u8, 115u8, 104u8, 46u8, 99u8, 111u8, 109u8]
}

/// The name `aes256-gcm@openssh.com` as a byte vector.
pub fn name_aes256_gcm_bytes() -> (r: Vec<u8>)
    ensures
        r@ == name_aes256_gcm(),
{
    let v: Vec<u8> = vec![97u8, 101u8, 115u8, 50u8, 53u8, 54u8, 45u8, 103u8, 99u8, 109u8, 64u8, 111u8, 112u8, 101u8, 110u8, 115u8, 115u8, 104u8, 46u8, 99u8, 111u8, 109u8];
    assert(v@ =~= name_aes256_gcm());
    v
}

/// The name `hmac-sha2-256` on the wire.
pub open spec fn name_hmac_sha2_256() -> Seq<u8> {
    seq![104u8, 109u8, 97u8, 99u8, 45u8, 115u8, 104u8, 97u8, 50u8, 45u8, 50u8, 53u8, 54u8]
}

/// The name `hmac-sha2-256` as a byte vector.
pub fn name_hmac_sha2_256_bytes() -> (r: Vec<u8>)
    ensures
        r@ == name_hmac_sha2_256(),
{
    let v: Vec<u8> = vec![104u8, 109u8, 97u8, 99u8, 45u8, 115u8, 104u8, 97u8, 50u8, 45u8, 50u8, 53u8, 54u8];
    assert(v@ =~= name_hmac_sha2_256());
    v
}

/// The name `none` on the wire.
pub open spec fn name_none_alg() -> Seq<u8> {
    seq![110u8, 111u8, 110u8, 101u8]
}

/// The name `none` as a byte vector.
pub fn name_none_alg_bytes() -> (r: Vec<u8>)
    ensures
        r@ == name_none_alg(),
{
    let v: Vec<u8> = vec![110u8, 111u8, 110u8, 101u8];
    assert(v@ =~= name_none_alg());
    v
}

/// The name `en` on the wire.
pub open spec fn name_lang_en() -> Seq<u8> {
    seq![101u8, 110u8]
}

/// The name `en` as a byte vector.
pub fn name_lang_en_bytes() -> (r: Vec<u8>)
    ensures
        r@ == name_lang_en(),
{
    let v: Vec<u8> = vec![101u8, 110u8];
    assert(v@ =~= name_lang_en());
    v
}

/// Every known algorithm name is a valid SSH name.
pub proof fn known_names_valid()
    ensures
        valid_name(name_ecdh_sha2_nistp256()),
        valid_name(name_curve25519_sha256()),
        valid_name(name_ssh_rsa()),
        valid_name(name_aes256_cbc()),
        valid_name(name_aes256_ctr()),
        valid_name(name_aes256_gcm()),
        valid_name(name_hmac_sha2_256()),
        valid_name(name_none_alg()),
        valid_name(name_lang_en()),
{
}

#[allow(non_camel_case_types)]
#[derive(Debug, Clone, PartialEq, Eq)]
pub enum KexAlgorithm {
    ECDH_SHA2_NISTP256,
    CURVE25519_SHA256,
    Unknown(Vec<u8>),
}

impl View for KexAlgorithm {
    type V = Seq<u8>;

    /// The wire name of the algorithm.
    open spec fn view(&self) -> Seq<u8> {
        match self {
            KexAlgorithm::ECDH_SHA2_NISTP256 => name_ecdh_sha2_nistp256(),
            KexAlgorithm::CURVE25519_SHA256 => name_curve25519_sha256(),
            KexAlgorithm::Unknown(v) => v@,
        }
    }
}

impl Name for KexAlgorithm {
    open spec fn wf(&self) -> bool {
        self matches KexAlgorithm::Unknown(v) ==> valid_name(v@) && v@ != name_ecdh_sha2_nistp256() && v@ != name_curve25519_sha256()
    }

    proof fn lemma_wf_valid(&self) {
        known_names_valid();
    }

    fn from_name(s: Vec<u8>) -> (r: Self) {
        if s == name_ecdh_sha2_nistp256_bytes() {
            return KexAlgorithm::ECDH_SHA2_NISTP256;
        }
        if s == name_curve25519_sha256_bytes() {
            return KexAlgorithm::CURVE25519_SHA256;
        }
        KexAlgorithm::Unknown(s)
    }

    fn to_name(&self) -> (r: Vec<u8>) {
        match self {
            KexAlgorithm::ECDH_SHA2_NISTP256 => name_ecdh_sha2_nistp256_bytes(),
            KexAlgorithm::CURVE25519_SHA256 => name_curve25519_sha256_bytes(),
            KexAlgorithm::Unknown(v) => v.clone(),
        }
    }
}

#[allow(non_camel_case_types)]
#[derive(Debug, Clone, PartialEq, Eq)]
pub enum ServerHostKeyAlgorithm {
    SSH_RSA,
    Unknown(Vec<u8>),
}

impl View for ServerHostKeyAlgorithm {
    type V = Seq<u8>;

    /// The wire name of the algorithm.
    open spec fn view(&self) -> Seq<u8> {
        match self {
            ServerHostKeyAlgorithm::SSH_RSA => name_ssh_rsa(),
            ServerHostKeyAlgorithm::Unknown(v) => v@,
        }
    }
}

impl Name for ServerHostKeyAlgorithm {
    open spec fn wf(&self) -> bool {
        self matches ServerHostKeyAlgorithm::Unknown(v) ==> valid_name(v@) && v@ != name_ssh_rsa()
    }

    proof fn lemma_wf_valid(&self) {
        known_names_valid();
    }

    fn from_name(s: Vec<u8>) -> (r: Self) {
        if s == name_ssh_rsa_bytes() {
            return ServerHostKeyAlgorithm::SSH_RSA;
        }
        ServerHostKeyAlgorithm::Unknown(s)
    }

    fn to_name(&self) -> (r: Vec<u8>) {
        match self {
            ServerHostKeyAlgorithm::SSH_RSA => name_ssh_rsa_bytes(),
            ServerHostKeyAlgorithm::Unknown(v) => v.clone(),
        }
    }
}

#[allow(non_camel_case_types)]
#[derive(Debug, Clone, PartialEq, Eq)]
pub enum EncryptionAlgorithm {
    AES256_CBC,
    AES256_CTR,
    AES256_GCM,
    Unknown(Vec<u8>),
}

impl View for EncryptionAlgorithm {
    type V = Seq<u8>;

    /// The wire name of the algorithm.
    open spec fn view(&self) -> Seq<u8> {
        match self {
            EncryptionAlgorithm::AES256_CBC => name_aes256_cbc(),
            EncryptionAlgorithm::AES256_CTR => name_aes256_ctr(),
            EncryptionAlgorithm::AES256_GCM => name_aes256_gcm(),
            EncryptionAlgorithm::Unknown(v) => v@,
        }
    }
}

impl Name for EncryptionAlgorithm {
    open spec fn wf(&self) -> bool {
        self matches EncryptionAlgorithm::Unknown(v) ==> valid_name(v@) && v@ != name_aes256_cbc() && v@ != name_aes256_ctr() && v@ != name_aes256_gcm()
    }

    proof fn lemma_wf_valid(&self) {
        known_names_valid();
    }

    fn from_name(s: Vec<u8>) -> (r: Self) {
        if s == name_aes256_cbc_bytes() {
            return EncryptionAlgorithm::AES256_CBC;
        }
        if s == name_aes256_ctr_bytes() {
            return EncryptionAlgorithm::AES256_CTR;
        }
        if s == name_aes256_gcm_bytes() {
            return EncryptionAlgorithm::AES256_GCM;
        }
        EncryptionAlgorithm::Unknown(s)
    }

    fn to_name(&self) -> (r: Vec<u8>) {
        match self {
            EncryptionAlgorithm::AES256_CBC => name_aes256_cbc_bytes(),
            EncryptionAlgorithm::AES256_CTR => name_aes256_ctr_bytes(),
            EncryptionAlgorithm::AES256_GCM => name_aes256_gcm_bytes(),
            EncryptionAlgorithm::Unknown(v) => v.clone(),
        }
    }
}

#[allow(non_camel_case_types)]
#[derive(Debug, Clone, PartialEq, Eq)]
pub enum MacAlgorithm {
    HMAC_SHA2_256,
    Unknown(Vec<u8>),
}

impl View for MacAlgorithm {
    type V = Seq<u8>;

    /// The wire name of the algorithm.
    open spec fn view(&self) -> Seq<u8> {
        match self {
            MacAlgorithm::HMAC_SHA2_256 => name_hmac_sha2_256(),
            MacAlgorithm::Unknown(v) => v@,
        }
    }
}

impl Name for MacAlgorithm {
    open spec fn wf(&self) -> bool {
        self matches MacAlgorithm::Unknown(v) ==> valid_name(v@) && v@ != name_hmac_sha2_256()
    }

    proof fn lemma_wf_valid(&self) {
        known_names_valid();
    }

    fn from_name(s: Vec<u8>) -> (r: Self) {
        if s == name_hmac_sha2_256_bytes() {
            return MacAlgorithm::HMAC_SHA2_256;
        }
        MacAlgorithm::Unknown(s)
    }

    fn to_name(&self) -> (r: Vec<u8>) {
        match self {
            MacAlgorithm::HMAC_SHA2_256 => name_hmac_sha2_256_bytes(),
            MacAlgorithm::Unknown(v) => v.clone(),
        }
    }
}

#[allow(non_camel_case_types)]
#[derive(Debug, Clone, PartialEq, Eq)]
pub enum CompressionAlgorithm {
    NONE,
    Unknown(Vec<u8>),
}

impl View for CompressionAlgorithm {
    type V = Seq<u8>;

    /// The wire name of the algorithm.
    open spec fn view(&self) -> Seq<u8> {
        match self {
            CompressionAlgorithm::NONE => name_none_alg(),
            CompressionAlgorithm::Unknown(v) => v@,
        }
    }
}

impl Name for CompressionAlgorithm {
    open spec fn wf(&self) -> bool {
        self matches CompressionAlgorithm::Unknown(v) ==> valid_name(v@) && v@ != name_none_alg()
    }

    proof fn lemma_wf_valid(&self) {
        known_names_valid();
    }

    fn from_name(s: Vec<u8>) -> (r: Self) {
        if s == name_none_alg_bytes() {
            return CompressionAlgorithm::NONE;
        }
        CompressionAlgorithm::Unknown(s)
    }

    fn to_name(&self) -> (r: Vec<u8>) {
        match self {
            CompressionAlgorithm::NONE => name_none_alg_bytes(),
            CompressionAlgorithm::Unknown(v) => v.clone(),
        }
    }
}

#[allow(non_camel_case_types)]
#[derive(Debug, Clone, PartialEq, Eq)]
pub enum Language {
    EN,
    Unknown(Vec<u8>),
}

impl View for Language {
    type V = Seq<u8>;

    /// The wire name of the algorithm.
    open spec fn view(&self) -> Seq<u8> {
        match self {
            Language::EN => name_lang_en(),
            Language::Unknown(v) => v@,
        }
    }
}

impl Name for Language {
    open spec fn wf(&self) -> bool {
        self matches Language::Unknown(v) ==> valid_name(v@) && v@ != name_lang_en()
    }

    proof fn lemma_wf_valid(&self) {
        known_names_valid();
    }

    fn from_name(s: Vec<u8>) -> (r: Self) {
        if s == name_lang_en_bytes() {
            return Language::EN;
        }
        Language::Unknown(s)
    }

    fn to_name(&self) -> (r: Vec<u8>) {
        match self {
            Language::EN => name_lang_en_bytes(),
            Language::Unknown(v) => v.clone(),
        }
    }
}

// ---------------------------------------------------------------------------
// Name lists of typed values
// ---------------------------------------------------------------------------

/// The wire names of a sequence of typed values.
pub open spec fn name_views<T: Name>(l: Seq<T>) -> Seq<Seq<u8>> {
    l.map_values(|x: T| x@)
}

/// All elements of the list are well formed.
pub open spec fn names_wf<T: Name>(l: Seq<T>) -> bool {
    forall|i: int| 0 <= i < l.len() ==> (#[trigger] l[i]).wf()
}

/// Spec-level parse of a name list: one SSH string whose US-ASCII payload is
/// split at the commas.
pub open spec fn sp_name_list(data: Seq<u8>, pos: int) -> Option<(Seq<Seq<u8>>, int)> {
    match sp_string(data, pos) {
        Some((payload, p)) => if all_ascii(payload) {
            Some((split_names(payload), p))
        } else {
            None
        },
        None => None,
    }
}

/// A valid name holds no comma.
pub proof fn lemma_valid_comma_free(s: Seq<u8>)
    requires
        valid_name(s),
    ensures
        comma_free(s),
{
    assert(forall|i: int| 0 <= i < s.len() ==> #[trigger] s[i] != COMMA) by {
        assert(forall|i: int| 0 <= i < s.len() ==> name_byte(#[trigger] s[i]));
    }
}

/// A join of valid names is US-ASCII.
pub proof fn lemma_join_ascii(l: Seq<Seq<u8>>)
    requires
        forall|i: int| 0 <= i < l.len() ==> valid_name(#[trigger] l[i]),
    ensures
        all_ascii(join_names(l)),
    decreases l.len(),
{
    if l.len() == 0 {
    } else if l.len() == 1 {
        assert(valid_name(l[0]));
        assert(forall|i: int| 0 <= i < l[0].len() ==> name_byte(#[trigger] l[0][i]));
    } else {
        lemma_join_ascii(l.drop_first());
        let j = join_names(l);
        let head = l[0];
        let jt = join_names(l.drop_first());
        assert(valid_name(head));
        assert(forall|i: int| 0 <= i < head.len() ==> name_byte(#[trigger] head[i]));
        assert(forall|i: int| 0 <= i < j.len() ==> #[trigger] j[i] <= 0x7f) by {
            assert(forall|i: int| 0 <= i < head.len() ==> j[i] == head[i]);
            assert(j[head.len() as int] == COMMA);
            assert(forall|i: int| head.len() + 1 <= i < j.len() ==> j[i] == jt[i - head.len()
                - 1]);
        }
    }
}

/// Splitting a join of valid names gives the names back.
pub proof fn lemma_name_list_round(l: Seq<Seq<u8>>)
    requires
        forall|i: int| 0 <= i < l.len() ==> valid_name(#[trigger] l[i]),
    ensures
        split_names(join_names(l)) == l,
{
    if l.len() == 0 {
        assert(split_names(join_names(l)) =~= l);
    } else {
        lemma_join_first(l);
        assert(join_names(l).len() > 0);
        assert(forall|i: int| 0 <= i < l.len() ==> comma_free(#[trigger] l[i])) by {
            assert forall|i: int| 0 <= i < l.len() implies comma_free(#[trigger] l[i]) by {
                lemma_valid_comma_free(l[i]);
            }
        }
        lemma_split_join(l);
    }
}

/// Parsing an encoded name list of valid names gives the names back.
pub proof fn lemma_sp_name_list_of_enc(prefix: Seq<u8>, l: Seq<Seq<u8>>, rest: Seq<u8>)
    requires
        forall|i: int| 0 <= i < l.len() ==> valid_name(#[trigger] l[i]),
        join_names(l).len() < 0x1_0000_0000,
    ensures
        sp_name_list(prefix + enc_string(join_names(l)) + rest, prefix.len() as int) == Some(
            (l, prefix.len() + 4 + join_names(l).len() as int),
        ),
{
    lemma_sp_string_of_enc(prefix, join_names(l), rest);
    lemma_join_ascii(l);
    lemma_name_list_round(l);
}

/// Append a name list: the names joined by commas, as one SSH string.
pub fn put_name_list<T: Name>(enc: &mut BinaryEncoder, l: &Vec<T>) -> (r: Result<
    (),
    EncoderError,
>)
    ensures
        r is Ok <==> join_names(name_views(l@)).len() <= MAX_STRING_LEN,
        r is Ok ==> final(enc)@ == old(enc)@ + enc_string(join_names(name_views(l@))),
        r is Err ==> *final(enc) == *old(enc),
{
    let mut segs: Vec<Vec<u8>> = Vec::new();
    let mut i: usize = 0;
    let n = l.len();
    proof {
        assert(seq_views(segs@) =~= name_views(l@.take(0)));
    }
    while i < n
        invariant
            i <= n,
            n == l@.len(),
            seq_views(segs@) == name_views(l@.take(i as int)),
        decreases n - i,
    {
        let name = l[i].to_name();
        proof {
            assert(seq_views(segs@.push(name)) =~= seq_views(segs@).push(name@));
            assert(name_views(l@.take(i + 1)) =~= name_views(l@.take(i as int)).push(
                l@[i as int]@,
            ));
        }
        segs.push(name);
        i += 1;
    }
    proof {
        assert(l@.take(n as int) =~= l@);
    }
    let joined = join_payload(&segs);
    enc.put_bytes(joined.as_slice())
}

/// Parse a name list; unknown names are kept, not rejected.
pub fn parse_name_list<T: Name>(dec: &mut BinaryDecoder) -> (r: Result<Vec<T>, DecoderError>)
    requires
        old(dec).wf(),
    ensures
        final(dec).wf(),
        final(dec).spec_data() == old(dec).spec_data(),
        r is Ok <==> sp_name_list(old(dec).spec_data(), old(dec).spec_pos()) is Some,
        r matches Ok(l) ==> {
            &&& sp_name_list(old(dec).spec_data(), old(dec).spec_pos()) matches Some((views, p))
                && name_views(l@) == views && final(dec).spec_pos() == p
            &&& forall|i: int|
                0 <= i < l@.len() ==> valid_name((#[trigger] l@[i])@) ==> l@[i].wf()
        },
        r is Err ==> sp_string(old(dec).spec_data(), old(dec).spec_pos()) is None ==> r == Err::<
            Vec<T>,
            DecoderError,
        >(DecoderError::UnexpectedEOF),
        r is Err ==> sp_string(old(dec).spec_data(), old(dec).spec_pos()) is Some ==> r == Err::<
            Vec<T>,
            DecoderError,
        >(DecoderError::Utf8),
    {
    let payload = match dec.parse_bytes() {
        Ok(p) => p,
        Err(e) => {
            return Err(e);
        },
    };
    let mut k: usize = 0;
    let plen = payload.len();
    while k < plen
        invariant
            k <= plen,
            plen == payload@.len(),
            dec.wf(),
            dec.spec_data() == old(dec).spec_data(),
            sp_string(old(dec).spec_data(), old(dec).spec_pos()) == Some(
                (payload@, dec.spec_pos()),
            ),
            forall|j: int| 0 <= j < k ==> #[trigger] payload@[j] <= 0x7f,
        decreases plen - k,
    {
        if payload[k] > 0x7f {
            return Err(DecoderError::Utf8);
        }
        k += 1;
    }
    assert(all_ascii(payload@));
    let mut segs = split_payload(payload.as_slice());
    let ghost orig = segs@;
    let mut out: Vec<T> = Vec::new();
    proof {
        assert(name_views(out@) =~= seq_views(orig).take(0));
    }
    let mut i: usize = 0;
    let n = segs.len();
    while i < n
        invariant
            i <= n,
            n == orig.len(),
            dec.wf(),
            dec.spec_data() == old(dec).spec_data(),
            sp_string(old(dec).spec_data(), old(dec).spec_pos()) == Some(
                (payload@, dec.spec_pos()),
            ),
            all_ascii(payload@),
            seq_views(orig) == split_names(payload@),
            segs@ == orig.skip(i as int),
            out@.len() == i,
            name_views(out@) == seq_views(orig).take(i as int),
            forall|j: int| 0 <= j < out@.len() ==> valid_name((#[trigger] out@[j])@) ==> out@[j].wf(),
        decreases n - i,
    {
        let seg = segs.remove(0);
        proof {
            assert(seg@ == orig[i as int]@);
            assert(segs@ =~= orig.skip(i + 1));
        }
        let v = T::from_name(seg);
        proof {
            assert(name_views(out@.push(v)) =~= name_views(out@).push(v@));
            assert(seq_views(orig).take(i + 1) =~= seq_views(orig).take(i as int).push(
                orig[i as int]@,
            ));
        }
        out.push(v);
        i += 1;
    }
    proof {
        assert(seq_views(orig).take(n as int) =~= seq_views(orig));
    }
    Ok(out)
}

// ---------------------------------------------------------------------------
// The KEXINIT body: ten name lists, a flag, and a reserved word
// ---------------------------------------------------------------------------

/// The algorithm lists both peers announce in their KEXINIT packet, in wire
/// order; the tag byte and the sixteen-byte cookie stand in front of this on
/// the wire and are not part of it.
#[derive(Debug, Clone, PartialEq)]
pub struct AlgorithmNegotiation {
    pub kex_algorithms: Vec<KexAlgorithm>,
    pub server_host_key_algorithms: Vec<ServerHostKeyAlgorithm>,
    pub encryption_algorithms_client_to_server: Vec<EncryptionAlgorithm>,
    pub encryption_algorithms_server_to_client: Vec<EncryptionAlgorithm>,
    pub mac_algorithms_client_to_server: Vec<MacAlgorithm>,
    pub mac_algorithms_server_to_client: Vec<MacAlgorithm>,
    pub compression_algorithms_client_to_server: Vec<CompressionAlgorithm>,
    pub compression_algorithms_server_to_client: Vec<CompressionAlgorithm>,
    pub languages_client_to_server: Vec<Language>,
    pub languages_server_to_client: Vec<Language>,
    pub first_kex_packet_follows: bool,
    pub reserved: u32,
}

/// The mathematical content of an `AlgorithmNegotiation`: each list as the
/// sequence of its wire names.
#[verifier::ext_equal]
pub struct AlgorithmNegotiationView {
    pub kex_algorithms: Seq<Seq<u8>>,
    pub server_host_key_algorithms: Seq<Seq<u8>>,
    pub encryption_algorithms_client_to_server: Seq<Seq<u8>>,
    pub encryption_algorithms_server_to_client: Seq<Seq<u8>>,
    pub mac_algorithms_client_to_server: Seq<Seq<u8>>,
    pub mac_algorithms_server_to_client: Seq<Seq<u8>>,
    pub compression_algorithms_client_to_server: Seq<Seq<u8>>,
    pub compression_algorithms_server_to_client: Seq<Seq<u8>>,
    pub languages_client_to_server: Seq<Seq<u8>>,
    pub languages_server_to_client: Seq<Seq<u8>>,
    pub first_kex_packet_follows: bool,
    pub reserved: u32,
}

impl View for AlgorithmNegotiation {
    type V = AlgorithmNegotiationView;

    open spec fn view(&self) -> AlgorithmNegotiationView {
        AlgorithmNegotiationView {
            kex_algorithms: name_views(self.kex_algorithms@),
            server_host_key_algorithms: name_views(self.server_host_key_algorithms@),
            encryption_algorithms_client_to_server: name_views(self.encryption_algorithms_client_to_server@),
            encryption_algorithms_server_to_client: name_views(self.encryption_algorithms_server_to_client@),
            mac_algorithms_client_to_server: name_views(self.mac_algorithms_client_to_server@),
            mac_algorithms_server_to_client: name_views(self.mac_algorithms_server_to_client@),
            compression_algorithms_client_to_server: name_views(self.compression_algorithms_client_to_server@),
            compression_algorithms_server_to_client: name_views(self.compression_algorithms_server_to_client@),
            languages_client_to_server: name_views(self.languages_client_to_server@),
            languages_server_to_client: name_views(self.languages_server_to_client@),
            first_kex_packet_follows: self.first_kex_packet_follows,
            reserved: self.reserved,
        }
    }
}

impl AlgorithmNegotiation {
    /// Every announced name is well formed.
    pub open spec fn wf(&self) -> bool {
        names_wf(self.kex_algorithms@)
            && names_wf(self.server_host_key_algorithms@)
            && names_wf(self.encryption_algorithms_client_to_server@)
            && names_wf(self.encryption_algorithms_server_to_client@)
            && names_wf(self.mac_algorithms_client_to_server@)
            && names_wf(self.mac_algorithms_server_to_client@)
            && names_wf(self.compression_algorithms_client_to_server@)
            && names_wf(self.compression_algorithms_server_to_client@)
            && names_wf(self.languages_client_to_server@)
            && names_wf(self.languages_server_to_client@)
    }
}

/// Every name of every list is a valid SSH name.
pub open spec fn alg_neg_view_wf(v: AlgorithmNegotiationView) -> bool {
    (forall|i: int| 0 <= i < v.kex_algorithms.len() ==> valid_name(#[trigger] v.kex_algorithms[i]))
        && (forall|i: int| 0 <= i < v.server_host_key_algorithms.len() ==> valid_name(#[trigger] v.server_host_key_algorithms[i]))
        && (forall|i: int| 0 <= i < v.encryption_algorithms_client_to_server.len() ==> valid_name(#[trigger] v.encryption_algorithms_client_to_server[i]))
        && (forall|i: int| 0 <= i < v.encryption_algorithms_server_to_client.len() ==> valid_name(#[trigger] v.encryption_algorithms_server_to_client[i]))
        && (forall|i: int| 0 <= i < v.mac_algorithms_client_to_server.len() ==> valid_name(#[trigger] v.mac_algorithms_client_to_server[i]))
        && (forall|i: int| 0 <= i < v.mac_algorithms_server_to_client.len() ==> valid_name(#[trigger] v.mac_algorithms_server_to_client[i]))
        && (forall|i: int| 0 <= i < v.compression_algorithms_client_to_server.len() ==> valid_name(#[trigger] v.compression_algorithms_client_to_server[i]))
        && (forall|i: int| 0 <= i < v.compression_algorithms_server_to_client.len() ==> valid_name(#[trigger] v.compression_algorithms_server_to_client[i]))
        && (forall|i: int| 0 <= i < v.languages_client_to_server.len() ==> valid_name(#[trigger] v.languages_client_to_server[i]))
        && (forall|i: int| 0 <= i < v.languages_server_to_client.len() ==> valid_name(#[trigger] v.languages_server_to_client[i]))
}

/// Each joined list fits a uint32 length prefix.
pub open spec fn alg_neg_fits(v: AlgorithmNegotiationView) -> bool {
    join_names(v.kex_algorithms).len() <= MAX_STRING_LEN
        && join_names(v.server_host_key_algorithms).len() <= MAX_STRING_LEN
        && join_names(v.encryption_algorithms_client_to_server).len() <= MAX_STRING_LEN
        && join_names(v.encryption_algorithms_server_to_client).len() <= MAX_STRING_LEN
        && join_names(v.mac_algorithms_client_to_server).len() <= MAX_STRING_LEN
        && join_names(v.mac_algorithms_server_to_client).len() <= MAX_STRING_LEN
        && join_names(v.compression_algorithms_client_to_server).len() <= MAX_STRING_LEN
        && join_names(v.compression_algorithms_server_to_client).len() <= MAX_STRING_LEN
        && join_names(v.languages_client_to_server).len() <= MAX_STRING_LEN
        && join_names(v.languages_server_to_client).len() <= MAX_STRING_LEN
}

/// The wire form of the KEXINIT body.
pub open spec fn enc_alg_neg(v: AlgorithmNegotiationView) -> Seq<u8> {
    enc_string(join_names(v.kex_algorithms))
        + enc_string(join_names(v.server_host_key_algorithms))
        + enc_string(join_names(v.encryption_algorithms_client_to_server))
        + enc_string(join_names(v.encryption_algorithms_server_to_client))
        + enc_string(join_names(v.mac_algorithms_client_to_server))
        + enc_string(join_names(v.mac_algorithms_server_to_client))
        + enc_string(join_names(v.compression_algorithms_client_to_server))
        + enc_string(join_names(v.compression_algorithms_server_to_client))
        + enc_string(join_names(v.languages_client_to_server))
        + enc_string(join_names(v.languages_server_to_client)) + enc_bool(v.first_kex_packet_follows)
        + enc_u32(v.reserved as int)
}

/// Spec-level parse of the KEXINIT body.
pub open spec fn sp_alg_neg(data: Seq<u8>, pos: int) -> Option<(AlgorithmNegotiationView, int)> {
    match sp_name_list(data, pos) {
        Some((kex_algorithms, p0)) => 
        match sp_name_list(data, p0) {
            Some((server_host_key_algorithms, p1)) => 
            match sp_name_list(data, p1) {
                Some((encryption_algorithms_client_to_server, p2)) => 
                match sp_name_list(data, p2) {
                    Some((encryption_algorithms_server_to_client, p3)) => 
                    match sp_name_list(data, p3) {
                        Some((mac_algorithms_client_to_server, p4)) => 
                        match sp_name_list(data, p4) {
                            Some((mac_algorithms_server_to_client, p5)) => 
                            match sp_name_list(data, p5) {
                                Some((compression_algorithms_client_to_server, p6)) => 
                                match sp_name_list(data, p6) {
                                    Some((compression_algorithms_server_to_client, p7)) => 
                                    match sp_name_list(data, p7) {
                                        Some((languages_client_to_server, p8)) => 
                                        match sp_name_list(data, p8) {
                                            Some((languages_server_to_client, p9)) => match sp_bool(data, p9) {
                                            Some((fkpf, p10)) => match sp_u32(data, p10) {
                                                Some((reserved, p11)) => Some(
                                                    (
                                                        AlgorithmNegotiationView {
                                                            kex_algorithms,
                                                            server_host_key_algorithms,
                                                            encryption_algorithms_client_to_server,
                                                            encryption_algorithms_server_to_client,
                                                            mac_algorithms_client_to_server,
                                                            mac_algorithms_server_to_client,
                                                            compression_algorithms_client_to_server,
                                                            compression_algorithms_server_to_client,
                                                            languages_client_to_server,
                                                            languages_server_to_client,
                                                            first_kex_packet_follows: fkpf,
                                                            reserved: reserved as u32,
                                                        },
                                                        p11,
                                                    ),
                                                ),
                                                None => None,
                                            },
                                            None => None,
                                        },
                                            None => None,
                                        },
                                        None => None,
                                    },
                                    None => None,
                                },
                                None => None,
                            },
                            None => None,
                        },
                        None => None,
                    },
                    None => None,
                },
                None => None,
            },
            None => None,
        },
        None => None,
    }
}

/// Serialize the KEXINIT body.
pub fn serialize_alg_neg(v: &AlgorithmNegotiation) -> (r: Result<Vec<u8>, EncoderError>)
    ensures
        r is Ok <==> alg_neg_fits(v@),
        r matches Ok(b) ==> b@ == enc_alg_neg(v@),
{
    let mut enc = BinaryEncoder::new();
    match put_name_list(&mut enc, &v.kex_algorithms) {
        Ok(()) => (),
        Err(e) => {
            return Err(e);
        },
    }
    match put_name_list(&mut enc, &v.server_host_key_algorithms) {
        Ok(()) => (),
        Err(e) => {
            return Err(e);
        },
    }
    match put_name_list(&mut enc, &v.encryption_algorithms_client_to_server) {
        Ok(()) => (),
        Err(e) => {
            return Err(e);
        },
    }
    match put_name_list(&mut enc, &v.encryption_algorithms_server_to_client) {
        Ok(()) => (),
        Err(e) => {
            return Err(e);
        },
    }
    match put_name_list(&mut enc, &v.mac_algorithms_client_to_server) {
        Ok(()) => (),
        Err(e) => {
            return Err(e);
        },
    }
    match put_name_list(&mut enc, &v.mac_algorithms_server_to_client) {
        Ok(()) => (),
        Err(e) => {
            return Err(e);
        },
    }
    match put_name_list(&mut enc, &v.compression_algorithms_client_to_server) {
        Ok(()) => (),
        Err(e) => {
            return Err(e);
        },
    }
    match put_name_list(&mut enc, &v.compression_algorithms_server_to_client) {
        Ok(()) => (),
        Err(e) => {
            return Err(e);
        },
    }
    match put_name_list(&mut enc, &v.languages_client_to_server) {
        Ok(()) => (),
        Err(e) => {
            return Err(e);
        },
    }
    match put_name_list(&mut enc, &v.languages_server_to_client) {
        Ok(()) => (),
        Err(e) => {
            return Err(e);
        },
    }
    enc.put_bool(v.first_kex_packet_follows);
    enc.put_u32(v.reserved);
    let b = enc.into_inner();
    assert(b@ =~= enc_alg_neg(v@));
    Ok(b)
}

/// Parse the KEXINIT body.
pub fn parse_alg_neg(dec: &mut BinaryDecoder) -> (r: Result<AlgorithmNegotiation, DecoderError>)
    requires
        old(dec).wf(),
    ensures
        final(dec).wf(),
        final(dec).spec_data() == old(dec).spec_data(),
        r is Ok <==> sp_alg_neg(old(dec).spec_data(), old(dec).spec_pos()) is Some,
        r matches Ok(v) ==> sp_alg_neg(old(dec).spec_data(), old(dec).spec_pos()) == Some(
            (v@, final(dec).spec_pos()),
        ),
{
    let kex_algorithms = match parse_name_list::<KexAlgorithm>(dec) {
        Ok(l) => l,
        Err(e) => {
            return Err(e);
        },
    };
    let server_host_key_algorithms = match parse_name_list::<ServerHostKeyAlgorithm>(dec) {
        Ok(l) => l,
        Err(e) => {
            return Err(e);
        },
    };
    let encryption_algorithms_client_to_server = match parse_name_list::<EncryptionAlgorithm>(dec) {
        Ok(l) => l,
        Err(e) => {
            return Err(e);
        },
    };
    let encryption_algorithms_server_to_client = match parse_name_list::<EncryptionAlgorithm>(dec) {
        Ok(l) => l,
        Err(e) => {
            return Err(e);
        },
    };
    let mac_algorithms_client_to_server = match parse_name_list::<MacAlgorithm>(dec) {
        Ok(l) => l,
        Err(e) => {
            return Err(e);
        },
    };
    let mac_algorithms_server_to_client = match parse_name_list::<MacAlgorithm>(dec) {
        Ok(l) => l,
        Err(e) => {
            return Err(e);
        },
    };
    let compression_algorithms_client_to_server = match parse_name_list::<CompressionAlgorithm>(dec) {
        Ok(l) => l,
        Err(e) => {
            return Err(e);
        },
    };
    let compression_algorithms_server_to_client = match parse_name_list::<CompressionAlgorithm>(dec) {
        Ok(l) => l,
        Err(e) => {
            return Err(e);
        },
    };
    let languages_client_to_server = match parse_name_list::<Language>(dec) {
        Ok(l) => l,
        Err(e) => {
            return Err(e);
        },
    };
    let languages_server_to_client = match parse_name_list::<Language>(dec) {
        Ok(l) => l,
        Err(e) => {
            return Err(e);
        },
    };
    let first_kex_packet_follows = match dec.parse_bool() {
        Ok(b) => b,
        Err(e) => {
            return Err(e);
        },
    };
    let reserved = match dec.parse_u32() {
        Ok(n) => n,
        Err(e) => {
            return Err(e);
        },
    };
    let v = AlgorithmNegotiation {
        kex_algorithms,
        server_host_key_algorithms,
        encryption_algorithms_client_to_server,
        encryption_algorithms_server_to_client,
        mac_algorithms_client_to_server,
        mac_algorithms_server_to_client,
        compression_algorithms_client_to_server,
        compression_algorithms_server_to_client,
        languages_client_to_server,
        languages_server_to_client,
        first_kex_packet_follows,
        reserved,
    };
    proof {
        let sp = sp_alg_neg(old(dec).spec_data(), old(dec).spec_pos());
        assert(sp matches Some((w, p)) && w =~= v@ && p == final(dec).spec_pos());
    }
    Ok(v)
}

/// The encoding of part `k` of the KEXINIT body, in wire order.
pub open spec fn alg_neg_chunk(v: AlgorithmNegotiationView, k: int) -> Seq<u8> {
    if k == 0 {
        enc_string(join_names(v.kex_algorithms))
    } else     if k == 1 {
        enc_string(join_names(v.server_host_key_algorithms))
    } else     if k == 2 {
        enc_string(join_names(v.encryption_algorithms_client_to_server))
    } else     if k == 3 {
        enc_string(join_names(v.encryption_algorithms_server_to_client))
    } else     if k == 4 {
        enc_string(join_names(v.mac_algorithms_client_to_server))
    } else     if k == 5 {
        enc_string(join_names(v.mac_algorithms_server_to_client))
    } else     if k == 6 {
        enc_string(join_names(v.compression_algorithms_client_to_server))
    } else     if k == 7 {
        enc_string(join_names(v.compression_algorithms_server_to_client))
    } else     if k == 8 {
        enc_string(join_names(v.languages_client_to_server))
    } else     if k == 9 {
        enc_string(join_names(v.languages_server_to_client))
    } else if k == 10 {
        enc_bool(v.first_kex_packet_follows)
    } else {
        enc_u32(v.reserved as int)
    }
}

/// The parts before part `k`.
pub open spec fn alg_neg_pre(v: AlgorithmNegotiationView, k: int) -> Seq<u8>
    decreases k,
{
    if k <= 0 {
        Seq::empty()
    } else {
        alg_neg_pre(v, k - 1) + alg_neg_chunk(v, k - 1)
    }
}

/// The parts after part `k`.
pub open spec fn alg_neg_post(v: AlgorithmNegotiationView, k: int) -> Seq<u8>
    decreases 12 - k,
{
    if k >= 11 {
        Seq::empty()
    } else {
        alg_neg_chunk(v, k + 1) + alg_neg_post(v, k + 1)
    }
}

/// Around any part, the encoding is what stands before it, the part, and what
/// stands after it.
#[verifier::rlimit(100)]
pub proof fn lemma_alg_neg_chunks(v: AlgorithmNegotiationView, k: int)
    requires
        0 <= k <= 11,
    ensures
        enc_alg_neg(v) == alg_neg_pre(v, k) + alg_neg_chunk(v, k) + alg_neg_post(v, k),
    decreases 11 - k,
{
    if k == 11 {
        reveal_with_fuel(alg_neg_pre, 13);
        assert(enc_alg_neg(v) =~= alg_neg_pre(v, 11) + alg_neg_chunk(v, 11) + alg_neg_post(
            v,
            11,
        ));
    } else {
        lemma_alg_neg_chunks(v, k + 1);
        assert(alg_neg_pre(v, k) + alg_neg_chunk(v, k) + alg_neg_post(v, k) =~= alg_neg_pre(
            v,
            k + 1,
        ) + alg_neg_chunk(v, k + 1) + alg_neg_post(v, k + 1));
    }
}

/// Where part `k` of the KEXINIT body starts inside its encoding.
pub open spec fn alg_neg_pos(v: AlgorithmNegotiationView, k: int) -> int {
    alg_neg_pre(v, k).len() as int
}

/// Field `kex_algorithms` parses back at its place in the encoding.
#[verifier::rlimit(100)]
pub proof fn lemma_alg_neg_step0(v: AlgorithmNegotiationView)
    requires
        alg_neg_view_wf(v),
        alg_neg_fits(v),
    ensures
        sp_name_list(enc_alg_neg(v), alg_neg_pos(v, 0)) == Some(
            (v.kex_algorithms, alg_neg_pos(v, 0) + 4 + join_names(v.kex_algorithms).len() as int),
        ),
        alg_neg_pos(v, 1) == alg_neg_pos(v, 0) + 4 + join_names(v.kex_algorithms).len(),
{
    lemma_alg_neg_chunks(v, 0);
    lemma_sp_name_list_of_enc(alg_neg_pre(v, 0), v.kex_algorithms, alg_neg_post(v, 0));
}

/// Field `server_host_key_algorithms` parses back at its place in the encoding.
#[verifier::rlimit(100)]
pub proof fn lemma_alg_neg_step1(v: AlgorithmNegotiationView)
    requires
        alg_neg_view_wf(v),
        alg_neg_fits(v),
    ensures
        sp_name_list(enc_alg_neg(v), alg_neg_pos(v, 1)) == Some(
            (v.server_host_key_algorithms, alg_neg_pos(v, 1) + 4 + join_names(v.server_host_key_algorithms).len() as int),
        ),
        alg_neg_pos(v, 2) == alg_neg_pos(v, 1) + 4 + join_names(v.server_host_key_algorithms).len(),
{
    lemma_alg_neg_chunks(v, 1);
    lemma_sp_name_list_of_enc(alg_neg_pre(v, 1), v.server_host_key_algorithms, alg_neg_post(v, 1));
}

/// Field `encryption_algorithms_client_to_server` parses back at its place in the encoding.
#[verifier::rlimit(100)]
pub proof fn lemma_alg_neg_step2(v: AlgorithmNegotiationView)
    requires
        alg_neg_view_wf(v),
        alg_neg_fits(v),
    ensures
        sp_name_list(enc_alg_neg(v), alg_neg_pos(v, 2)) == Some(
            (v.encryption_algorithms_client_to_server, alg_neg_pos(v, 2) + 4 + join_names(v.encryption_algorithms_client_to_server).len() as int),
        ),
        alg_neg_pos(v, 3) == alg_neg_pos(v, 2) + 4 + join_names(v.encryption_algorithms_client_to_server).len(),
{
    lemma_alg_neg_chunks(v, 2);
    lemma_sp_name_list_of_enc(alg_neg_pre(v, 2), v.encryption_algorithms_client_to_server, alg_neg_post(v, 2));
}

/// Field `encryption_algorithms_server_to_client` parses back at its place in the encoding.
#[verifier::rlimit(100)]
pub proof fn lemma_alg_neg_step3(v: AlgorithmNegotiationView)
    requires
        alg_neg_view_wf(v),
        alg_neg_fits(v),
    ensures
        sp_name_list(enc_alg_neg(v), alg_neg_pos(v, 3)) == Some(
            (v.encryption_algorithms_server_to_client, alg_neg_pos(v, 3) + 4 + join_names(v.encryption_algorithms_server_to_client).len() as int),
        ),
        alg_neg_pos(v, 4) == alg_neg_pos(v, 3) + 4 + join_names(v.encryption_algorithms_server_to_client).len(),
{
    lemma_alg_neg_chunks(v, 3);
    lemma_sp_name_list_of_enc(alg_neg_pre(v, 3), v.encryption_algorithms_server_to_client, alg_neg_post(v, 3));
}

/// Field `mac_algorithms_client_to_server` parses back at its place in the encoding.
#[verifier::rlimit(100)]
pub proof fn lemma_alg_neg_step4(v: AlgorithmNegotiationView)
    requires
        alg_neg_view_wf(v),
        alg_neg_fits(v),
    ensures
        sp_name_list(enc_alg_neg(v), alg_neg_pos(v, 4)) == Some(
            (v.mac_algorithms_client_to_server, alg_neg_pos(v, 4) + 4 + join_names(v.mac_algorithms_client_to_server).len() as int),
        ),
        alg_neg_pos(v, 5) == alg_neg_pos(v, 4) + 4 + join_names(v.mac_algorithms_client_to_server).len(),
{
    lemma_alg_neg_chunks(v, 4);
    lemma_sp_name_list_of_enc(alg_neg_pre(v, 4), v.mac_algorithms_client_to_server, alg_neg_post(v, 4));
}

/// Field `mac_algorithms_server_to_client` parses back at its place in the encoding.
#[verifier::rlimit(100)]
pub proof fn lemma_alg_neg_step5(v: AlgorithmNegotiationView)
    requires
        alg_neg_view_wf(v),
        alg_neg_fits(v),
    ensures
        sp_name_list(enc_alg_neg(v), alg_neg_pos(v, 5)) == Some(
            (v.mac_algorithms_server_to_client, alg_neg_pos(v, 5) + 4 + join_names(v.mac_algorithms_server_to_client).len() as int),
        ),
        alg_neg_pos(v, 6) == alg_neg_pos(v, 5) + 4 + join_names(v.mac_algorithms_server_to_client).len(),
{
    lemma_alg_neg_chunks(v, 5);
    lemma_sp_name_list_of_enc(alg_neg_pre(v, 5), v.mac_algorithms_server_to_client, alg_neg_post(v, 5));
}

/// Field `compression_algorithms_client_to_server` parses back at its place in the encoding.
#[verifier::rlimit(100)]
pub proof fn lemma_alg_neg_step6(v: AlgorithmNegotiationView)
    requires
        alg_neg_view_wf(v),
        alg_neg_fits(v),
    ensures
        sp_name_list(enc_alg_neg(v), alg_neg_pos(v, 6)) == Some(
            (v.compression_algorithms_client_to_server, alg_neg_pos(v, 6) + 4 + join_names(v.compression_algorithms_client_to_server).len() as int),
        ),
        alg_neg_pos(v, 7) == alg_neg_pos(v, 6) + 4 + join_names(v.compression_algorithms_client_to_server).len(),
{
    lemma_alg_neg_chunks(v, 6);
    lemma_sp_name_list_of_enc(alg_neg_pre(v, 6), v.compression_algorithms_client_to_server, alg_neg_post(v, 6));
}

/// Field `compression_algorithms_server_to_client` parses back at its place in the encoding.
#[verifier::rlimit(100)]
pub proof fn lemma_alg_neg_step7(v: AlgorithmNegotiationView)
    requires
        alg_neg_view_wf(v),
        alg_neg_fits(v),
    ensures
        sp_name_list(enc_alg_neg(v), alg_neg_pos(v, 7)) == Some(
            (v.compression_algorithms_server_to_client, alg_neg_pos(v, 7) + 4 + join_names(v.compression_algorithms_server_to_client).len() as int),
        ),
        alg_neg_pos(v, 8) == alg_neg_pos(v, 7) + 4 + join_names(v.compression_algorithms_server_to_client).len(),
{
    lemma_alg_neg_chunks(v, 7);
    lemma_sp_name_list_of_enc(alg_neg_pre(v, 7), v.compression_algorithms_server_to_client, alg_neg_post(v, 7));
}

/// Field `languages_client_to_server` parses back at its place in the encoding.
#[verifier::rlimit(100)]
pub proof fn lemma_alg_neg_step8(v: AlgorithmNegotiationView)
    requires
        alg_neg_view_wf(v),
        alg_neg_fits(v),
    ensures
        sp_name_list(enc_alg_neg(v), alg_neg_pos(v, 8)) == Some(
            (v.languages_client_to_server, alg_neg_pos(v, 8) + 4 + join_names(v.languages_client_to_server).len() as int),
        ),
        alg_neg_pos(v, 9) == alg_neg_pos(v, 8) + 4 + join_names(v.languages_client_to_server).len(),
{
    lemma_alg_neg_chunks(v, 8);
    lemma_sp_name_list_of_enc(alg_neg_pre(v, 8), v.languages_client_to_server, alg_neg_post(v, 8));
}

/// Field `languages_server_to_client` parses back at its place in the encoding.
#[verifier::rlimit(100)]
pub proof fn lemma_alg_neg_step9(v: AlgorithmNegotiationView)
    requires
        alg_neg_view_wf(v),
        alg_neg_fits(v),
    ensures
        sp_name_list(enc_alg_neg(v), alg_neg_pos(v, 9)) == Some(
            (v.languages_server_to_client, alg_neg_pos(v, 9) + 4 + join_names(v.languages_server_to_client).len() as int),
        ),
        alg_neg_pos(v, 10) == alg_neg_pos(v, 9) + 4 + join_names(v.languages_server_to_client).len(),
{
    lemma_alg_neg_chunks(v, 9);
    lemma_sp_name_list_of_enc(alg_neg_pre(v, 9), v.languages_server_to_client, alg_neg_post(v, 9));
}

/// The flag and the reserved word parse back at their places.
#[verifier::rlimit(100)]
pub proof fn lemma_alg_neg_step_tail(v: AlgorithmNegotiationView)
    requires
        alg_neg_view_wf(v),
        alg_neg_fits(v),
    ensures
        sp_bool(enc_alg_neg(v), alg_neg_pos(v, 10)) == Some(
            (v.first_kex_packet_follows, alg_neg_pos(v, 10) + 1 as int),
        ),
        sp_u32(enc_alg_neg(v), alg_neg_pos(v, 11)) == Some(
            (v.reserved as int, alg_neg_pos(v, 11) + 4 as int),
        ),
        alg_neg_pos(v, 11) == alg_neg_pos(v, 10) + 1,
        alg_neg_pos(v, 11) + 4 == enc_alg_neg(v).len(),
{
    lemma_alg_neg_chunks(v, 10);
    lemma_sp_bool_of_enc(alg_neg_pre(v, 10), v.first_kex_packet_follows, alg_neg_post(v, 10));
    lemma_alg_neg_chunks(v, 11);
    lemma_sp_u32_of_enc(alg_neg_pre(v, 11), v.reserved as int, alg_neg_post(v, 11));
    assert(alg_neg_pre(v, 11) + enc_u32(v.reserved as int) + alg_neg_post(v, 11) =~= alg_neg_pre(
        v,
        11,
    ) + enc_u32(v.reserved as int) + Seq::<u8>::empty());
}

/// Encoding the KEXINIT body and parsing it back gives the same lists.
#[verifier::rlimit(100)]
pub proof fn lemma_alg_neg_round(v: AlgorithmNegotiationView)
    requires
        alg_neg_view_wf(v),
        alg_neg_fits(v),
    ensures
        sp_alg_neg(enc_alg_neg(v), 0) == Some((v, enc_alg_neg(v).len() as int)),
{
    let data = enc_alg_neg(v);
    lemma_alg_neg_step0(v);
    lemma_alg_neg_step1(v);
    lemma_alg_neg_step2(v);
    lemma_alg_neg_step3(v);
    lemma_alg_neg_step4(v);
    lemma_alg_neg_step5(v);
    lemma_alg_neg_step6(v);
    lemma_alg_neg_step7(v);
    lemma_alg_neg_step8(v);
    lemma_alg_neg_step9(v);
    lemma_alg_neg_step_tail(v);
    assert(alg_neg_pos(v, 0) == 0);
    assert(sp_alg_neg(data, 0) matches Some((w, p)) && w =~= v && p == data.len());
}

// ---------------------------------------------------------------------------
// KEXDH_INIT body: the client's ephemeral public value
// ---------------------------------------------------------------------------

/// The body of a KEXDH_INIT packet after the tag byte: the client's ephemeral
/// public value as one SSH string.
#[derive(Debug, Clone, PartialEq)]
pub struct KexInit {
    pub e: Vec<u8>,
}

impl View for KexInit {
    type V = Seq<u8>;

    open spec fn view(&self) -> Seq<u8> {
        self.e@
    }
}

/// The wire form of a KEXDH_INIT body.
pub open spec fn enc_kex_init(e: Seq<u8>) -> Seq<u8> {
    enc_string(e)
}

pub fn serialize_kex_init(v: &KexInit) -> (r: Result<Vec<u8>, EncoderError>)
    ensures
        r is Ok <==> v@.len() <= MAX_STRING_LEN,
        r matches Ok(b) ==> b@ == enc_kex_init(v@),
{
    let mut enc = BinaryEncoder::new();
    match enc.put_bytes(v.e.as_slice()) {
        Ok(()) => (),
        Err(e) => {
            return Err(e);
        },
    }
    let b = enc.into_inner();
    assert(b@ =~= enc_kex_init(v@));
    Ok(b)
}

pub fn parse_kex_init(dec: &mut BinaryDecoder) -> (r: Result<KexInit, DecoderError>)
    requires
        old(dec).wf(),
    ensures
        final(dec).wf(),
        final(dec).spec_data() == old(dec).spec_data(),
        r is Ok <==> sp_string(old(dec).spec_data(), old(dec).spec_pos()) is Some,
        r matches Ok(v) ==> sp_string(old(dec).spec_data(), old(dec).spec_pos()) == Some(
            (v@, final(dec).spec_pos()),
        ),
{
    match dec.parse_bytes() {
        Ok(e) => Ok(KexInit { e }),
        Err(e) => Err(e),
    }
}

// ---------------------------------------------------------------------------
// The server host key and the signature, each a tagged nested blob
// ---------------------------------------------------------------------------

/// A server host-key blob: the tag name, then the variant's fields.  An
/// unknown tag keeps the name and the raw remainder of the blob.
#[derive(Debug, Clone, PartialEq)]
#[allow(non_camel_case_types)]
pub enum ServerKey {
    SSH_RSA { e: Vec<u8>, n: Vec<u8> },
    Unknown { name: Vec<u8>, data: Vec<u8> },
}

/// The mathematical content of a `ServerKey`.
#[verifier::ext_equal]
#[allow(non_camel_case_types)]
pub enum ServerKeyView {
    SSH_RSA { e: Seq<u8>, n: Seq<u8> },
    Unknown { name: Seq<u8>, data: Seq<u8> },
}

impl View for ServerKey {
    type V = ServerKeyView;

    open spec fn view(&self) -> ServerKeyView {
        match self {
            ServerKey::SSH_RSA { e, n } => ServerKeyView::SSH_RSA { e: e@, n: n@ },
            ServerKey::Unknown { name, data } => ServerKeyView::Unknown {
                name: name@,
                data: data@,
            },
        }
    }
}

/// An unknown tag is a valid name other than `ssh-rsa`.
pub open spec fn sk_view_wf(v: ServerKeyView) -> bool {
    match v {
        ServerKeyView::SSH_RSA { e, n } => true,
        ServerKeyView::Unknown { name, data } => valid_name(name) && name != name_ssh_rsa(),
    }
}

/// Every length fits its uint32 prefix.
pub open spec fn sk_fits(v: ServerKeyView) -> bool {
    match v {
        ServerKeyView::SSH_RSA { e, n } => e.len() <= MAX_STRING_LEN && n.len()
            <= MAX_STRING_LEN,
        ServerKeyView::Unknown { name, data } => name.len() <= MAX_STRING_LEN,
    }
}

/// The wire form of a host-key blob.
pub open spec fn enc_server_key(v: ServerKeyView) -> Seq<u8> {
    match v {
        ServerKeyView::SSH_RSA { e, n } => enc_string(name_ssh_rsa()) + enc_string(e)
            + enc_string(n),
        ServerKeyView::Unknown { name, data } => enc_string(name) + data,
    }
}

/// Spec-level parse of a whole host-key blob.
pub open spec fn sp_server_key(data: Seq<u8>) -> Option<ServerKeyView> {
    match sp_string(data, 0) {
        Some((tag, p)) => if tag == name_ssh_rsa() {
            match sp_string(data, p) {
                Some((e, p2)) => match sp_string(data, p2) {
                    Some((n, p3)) => Some(ServerKeyView::SSH_RSA { e, n }),
                    None => None,
                },
                None => None,
            }
        } else {
            Some(ServerKeyView::Unknown { name: tag, data: data.skip(p) })
        },
        None => None,
    }
}

pub fn serialize_server_key(v: &ServerKey) -> (r: Result<Vec<u8>, EncoderError>)
    ensures
        r is Ok <==> sk_fits(v@),
        r matches Ok(b) ==> b@ == enc_server_key(v@),
{
    let mut enc = BinaryEncoder::new();
    match v {
        ServerKey::SSH_RSA { e, n } => {
            let tag = name_ssh_rsa_bytes();
            match enc.put_bytes(tag.as_slice()) {
                Ok(()) => (),
                Err(er) => {
                    assert(false);
                    return Err(er);
                },
            }
            match enc.put_bytes(e.as_slice()) {
                Ok(()) => (),
                Err(er) => {
                    return Err(er);
                },
            }
            match enc.put_bytes(n.as_slice()) {
                Ok(()) => (),
                Err(er) => {
                    return Err(er);
                },
            }
        },
        ServerKey::Unknown { name, data } => {
            match enc.put_bytes(name.as_slice()) {
                Ok(()) => (),
                Err(er) => {
                    return Err(er);
                },
            }
            enc.put_raw(data.as_slice());
        },
    }
    let b = enc.into_inner();
    assert(b@ =~= enc_server_key(v@));
    Ok(b)
}

pub fn parse_server_key(blob: &[u8]) -> (r: Result<ServerKey, DecoderError>)
    ensures
        r is Ok <==> sp_server_key(blob@) is Some,
        r matches Ok(v) ==> sp_server_key(blob@) == Some(v@),
{
    let mut dec = BinaryDecoder::new(blob);
    let tag = match dec.parse_bytes() {
        Ok(t) => t,
        Err(e) => {
            return Err(e);
        },
    };
    let rsa = name_ssh_rsa_bytes();
    if tag == rsa {
        proof {
            assert(tag@ =~= name_ssh_rsa());
        }
        let e = match dec.parse_bytes() {
            Ok(x) => x,
            Err(er) => {
                return Err(er);
            },
        };
        let n = match dec.parse_bytes() {
            Ok(x) => x,
            Err(er) => {
                return Err(er);
            },
        };
        Ok(ServerKey::SSH_RSA { e, n })
    } else {
        proof {
            if tag@ == name_ssh_rsa() {
                assert(tag@ =~= rsa@);
            }
        }
        let data = dec.parse_remaining();
        Ok(ServerKey::Unknown { name: tag, data })
    }
}

/// Encoding a host-key blob and parsing it back gives the value back.
#[verifier::rlimit(100)]
pub proof fn lemma_server_key_round(v: ServerKeyView)
    requires
        sk_view_wf(v),
        sk_fits(v),
    ensures
        sp_server_key(enc_server_key(v)) == Some(v),
{
    let data = enc_server_key(v);
    match v {
        ServerKeyView::SSH_RSA { e, n } => {
            let c0 = enc_string(name_ssh_rsa());
            let c1 = enc_string(e);
            let c2 = enc_string(n);
            assert(data =~= Seq::<u8>::empty() + c0 + (c1 + c2));
            lemma_sp_string_of_enc(Seq::<u8>::empty(), name_ssh_rsa(), c1 + c2);
            assert(data =~= c0 + c1 + c2);
            lemma_sp_string_of_enc(c0, e, c2);
            assert(data =~= (c0 + c1) + c2 + Seq::<u8>::empty());
            lemma_sp_string_of_enc(c0 + c1, n, Seq::<u8>::empty());
            assert(sp_server_key(data) matches Some(w) && w =~= v);
        },
        ServerKeyView::Unknown { name, data: d } => {
            assert(data =~= Seq::<u8>::empty() + enc_string(name) + d);
            lemma_sp_string_of_enc(Seq::<u8>::empty(), name, d);
            assert(data.skip(4 + name.len() as int) =~= d);
            assert(sp_server_key(data) matches Some(w) && w =~= v);
        },
    }
}

/// A signature blob: the tag name, then the raw signature bytes.  An unknown
/// tag keeps the name and the raw remainder of the blob.
#[derive(Debug, Clone, PartialEq)]
#[allow(non_camel_case_types)]
pub enum Signature {
    SSH_RSA { signature: Vec<u8> },
    Unknown { name: Vec<u8>, data: Vec<u8> },
}

/// The mathematical content of a `Signature`.
#[verifier::ext_equal]
#[allow(non_camel_case_types)]
pub enum SignatureView {
    SSH_RSA { signature: Seq<u8> },
    Unknown { name: Seq<u8>, data: Seq<u8> },
}

impl View for Signature {
    type V = SignatureView;

    open spec fn view(&self) -> SignatureView {
        match self {
            Signature::SSH_RSA { signature } => SignatureView::SSH_RSA { signature: signature@ },
            Signature::Unknown { name, data } => SignatureView::Unknown {
                name: name@,
                data: data@,
            },
        }
    }
}

/// An unknown tag is a valid name other than `ssh-rsa`.
pub open spec fn sig_view_wf(v: SignatureView) -> bool {
    match v {
        SignatureView::SSH_RSA { signature } => true,
        SignatureView::Unknown { name, data } => valid_name(name) && name != name_ssh_rsa(),
    }
}

/// Every length fits its uint32 prefix.
pub open spec fn sig_fits(v: SignatureView) -> bool {
    match v {
        SignatureView::SSH_RSA { signature } => signature.len() <= MAX_STRING_LEN,
        SignatureView::Unknown { name, data } => name.len() <= MAX_STRING_LEN,
    }
}

/// The wire form of a signature blob.
pub open spec fn enc_signature(v: SignatureView) -> Seq<u8> {
    match v {
        SignatureView::SSH_RSA { signature } => enc_string(name_ssh_rsa()) + enc_string(
            signature,
        ),
        SignatureView::Unknown { name, data } => enc_string(name) + data,
    }
}

/// Spec-level parse of a whole signature blob.
pub open spec fn sp_signature(data: Seq<u8>) -> Option<SignatureView> {
    match sp_string(data, 0) {
        Some((tag, p)) => if tag == name_ssh_rsa() {
            match sp_string(data, p) {
                Some((signature, p2)) => Some(SignatureView::SSH_RSA { signature }),
                None => None,
            }
        } else {
            Some(SignatureView::Unknown { name: tag, data: data.skip(p) })
        },
        None => None,
    }
}

pub fn serialize_signature(v: &Signature) -> (r: Result<Vec<u8>, EncoderError>)
    ensures
        r is Ok <==> sig_fits(v@),
        r matches Ok(b) ==> b@ == enc_signature(v@),
{
    let mut enc = BinaryEncoder::new();
    match v {
        Signature::SSH_RSA { signature } => {
            let tag = name_ssh_rsa_bytes();
            match enc.put_bytes(tag.as_slice()) {
                Ok(()) => (),
                Err(er) => {
                    assert(false);
                    return Err(er);
                },
            }
            match enc.put_bytes(signature.as_slice()) {
                Ok(()) => (),
                Err(er) => {
                    return Err(er);
                },
            }
        },
        Signature::Unknown { name, data } => {
            match enc.put_bytes(name.as_slice()) {
                Ok(()) => (),
                Err(er) => {
                    return Err(er);
                },
            }
            enc.put_raw(data.as_slice());
        },
    }
    let b = enc.into_inner();
    assert(b@ =~= enc_signature(v@));
    Ok(b)
}

pub fn parse_signature(blob: &[u8]) -> (r: Result<Signature, DecoderError>)
    ensures
        r is Ok <==> sp_signature(blob@) is Some,
        r matches Ok(v) ==> sp_signature(blob@) == Some(v@),
{
    let mut dec = BinaryDecoder::new(blob);
    let tag = match dec.parse_bytes() {
        Ok(t) => t,
        Err(e) => {
            return Err(e);
        },
    };
    let rsa = name_ssh_rsa_bytes();
    if tag == rsa {
        proof {
            assert(tag@ =~= name_ssh_rsa());
        }
        let signature = match dec.parse_bytes() {
            Ok(x) => x,
            Err(er) => {
                return Err(er);
            },
        };
        Ok(Signature::SSH_RSA { signature })
    } else {
        proof {
            if tag@ == name_ssh_rsa() {
                assert(tag@ =~= rsa@);
            }
        }
        let data = dec.parse_remaining();
        Ok(Signature::Unknown { name: tag, data })
    }
}

/// Encoding a signature blob and parsing it back gives the value back.
#[verifier::rlimit(100)]
pub proof fn lemma_signature_round(v: SignatureView)
    requires
        sig_view_wf(v),
        sig_fits(v),
    ensures
        sp_signature(enc_signature(v)) == Some(v),
{
    let data = enc_signature(v);
    match v {
        SignatureView::SSH_RSA { signature } => {
            let c0 = enc_string(name_ssh_rsa());
            let c1 = enc_string(signature);
            assert(data =~= Seq::<u8>::empty() + c0 + c1);
            lemma_sp_string_of_enc(Seq::<u8>::empty(), name_ssh_rsa(), c1);
            assert(data =~= c0 + c1 + Seq::<u8>::empty());
            lemma_sp_string_of_enc(c0, signature, Seq::<u8>::empty());
            assert(sp_signature(data) matches Some(w) && w =~= v);
        },
        SignatureView::Unknown { name, data: d } => {
            assert(data =~= Seq::<u8>::empty() + enc_string(name) + d);
            lemma_sp_string_of_enc(Seq::<u8>::empty(), name, d);
            assert(data.skip(4 + name.len() as int) =~= d);
            assert(sp_signature(data) matches Some(w) && w =~= v);
        },
    }
}

// ---------------------------------------------------------------------------
// KEXDH_REPLY body: host key, server ephemeral value, signature
// ---------------------------------------------------------------------------

/// The body of a KEXDH_REPLY packet after the tag byte: the server host-key
/// blob, the server's ephemeral public value, and the signature blob.
#[derive(Debug, Clone, PartialEq)]
pub struct KexReply {
    pub server_key: ServerKey,
    pub f: Vec<u8>,
    pub signature: Signature,
}

/// The mathematical content of a `KexReply`.
#[verifier::ext_equal]
pub struct KexReplyView {
    pub server_key: ServerKeyView,
    pub f: Seq<u8>,
    pub signature: SignatureView,
}

impl View for KexReply {
    type V = KexReplyView;

    open spec fn view(&self) -> KexReplyView {
        KexReplyView { server_key: self.server_key@, f: self.f@, signature: self.signature@ }
    }
}

/// Well-formed nested blobs.
pub open spec fn reply_view_wf(v: KexReplyView) -> bool {
    sk_view_wf(v.server_key) && sig_view_wf(v.signature)
}

/// Every length fits its uint32 prefix, the nested blobs' own included.
pub open spec fn reply_fits(v: KexReplyView) -> bool {
    &&& sk_fits(v.server_key)
    &&& sig_fits(v.signature)
    &&& enc_server_key(v.server_key).len() <= MAX_STRING_LEN
    &&& enc_signature(v.signature).len() <= MAX_STRING_LEN
    &&& v.f.len() <= MAX_STRING_LEN
}

/// The wire form of a KEXDH_REPLY body.
pub open spec fn enc_kex_reply(v: KexReplyView) -> Seq<u8> {
    enc_string(enc_server_key(v.server_key)) + enc_string(v.f) + enc_string(
        enc_signature(v.signature),
    )
}

/// Spec-level parse of the KEXDH_REPLY body.
pub open spec fn sp_kex_reply(data: Seq<u8>, pos: int) -> Option<(KexReplyView, int)> {
    match sp_string(data, pos) {
        Some((blob1, p1)) => match sp_server_key(blob1) {
            Some(server_key) => match sp_string(data, p1) {
                Some((f, p2)) => match sp_string(data, p2) {
                    Some((blob3, p3)) => match sp_signature(blob3) {
                        Some(signature) => Some((KexReplyView { server_key, f, signature }, p3)),
                        None => None,
                    },
                    None => None,
                },
                None => None,
            },
            None => None,
        },
        None => None,
    }
}

pub fn serialize_kex_reply(v: &KexReply) -> (r: Result<Vec<u8>, EncoderError>)
    ensures
        r is Ok <==> reply_fits(v@),
        r matches Ok(b) ==> b@ == enc_kex_reply(v@),
{
    let blob1 = match serialize_server_key(&v.server_key) {
        Ok(b) => b,
        Err(e) => {
            return Err(e);
        },
    };
    let blob3 = match serialize_signature(&v.signature) {
        Ok(b) => b,
        Err(e) => {
            return Err(e);
        },
    };
    let mut enc = BinaryEncoder::new();
    match enc.put_bytes(blob1.as_slice()) {
        Ok(()) => (),
        Err(e) => {
            return Err(e);
        },
    }
    match enc.put_bytes(v.f.as_slice()) {
        Ok(()) => (),
        Err(e) => {
            return Err(e);
        },
    }
    match enc.put_bytes(blob3.as_slice()) {
        Ok(()) => (),
        Err(e) => {
            return Err(e);
        },
    }
    let b = enc.into_inner();
    assert(b@ =~= enc_kex_reply(v@));
    Ok(b)
}

pub fn parse_kex_reply(dec: &mut BinaryDecoder) -> (r: Result<KexReply, DecoderError>)
    requires
        old(dec).wf(),
    ensures
        final(dec).wf(),
        final(dec).spec_data() == old(dec).spec_data(),
        r is Ok <==> sp_kex_reply(old(dec).spec_data(), old(dec).spec_pos()) is Some,
        r matches Ok(v) ==> sp_kex_reply(old(dec).spec_data(), old(dec).spec_pos()) == Some(
            (v@, final(dec).spec_pos()),
        ),
{
    let blob1 = match dec.parse_bytes() {
        Ok(b) => b,
        Err(e) => {
            return Err(e);
        },
    };
    let server_key = match parse_server_key(blob1.as_slice()) {
        Ok(k) => k,
        Err(e) => {
            return Err(e);
        },
    };
    let f = match dec.parse_bytes() {
        Ok(b) => b,
        Err(e) => {
            return Err(e);
        },
    };
    let blob3 = match dec.parse_bytes() {
        Ok(b) => b,
        Err(e) => {
            return Err(e);
        },
    };
    let signature = match parse_signature(blob3.as_slice()) {
        Ok(s) => s,
        Err(e) => {
            return Err(e);
        },
    };
    let v = KexReply { server_key, f, signature };
    proof {
        let sp = sp_kex_reply(old(dec).spec_data(), old(dec).spec_pos());
        assert(sp matches Some((w, p)) && w =~= v@ && p == final(dec).spec_pos());
    }
    Ok(v)
}

/// Encoding a KEXDH_REPLY body and parsing it back gives the value back.
#[verifier::rlimit(100)]
pub proof fn lemma_kex_reply_round(v: KexReplyView)
    requires
        reply_view_wf(v),
        reply_fits(v),
    ensures
        sp_kex_reply(enc_kex_reply(v), 0) == Some((v, enc_kex_reply(v).len() as int)),
{
    let data = enc_kex_reply(v);
    let c0 = enc_string(enc_server_key(v.server_key));
    let c1 = enc_string(v.f);
    let c2 = enc_string(enc_signature(v.signature));
    assert(data =~= Seq::<u8>::empty() + c0 + (c1 + c2));
    lemma_sp_string_of_enc(Seq::<u8>::empty(), enc_server_key(v.server_key), c1 + c2);
    lemma_server_key_round(v.server_key);
    assert(data =~= c0 + c1 + c2);
    lemma_sp_string_of_enc(c0, v.f, c2);
    assert(data =~= (c0 + c1) + c2 + Seq::<u8>::empty());
    lemma_sp_string_of_enc(c0 + c1, enc_signature(v.signature), Seq::<u8>::empty());
    lemma_signature_round(v.signature);
    assert(sp_kex_reply(data, 0) matches Some((w, p)) && w =~= v && p == data.len());
}

} // verus!
