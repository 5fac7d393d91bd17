//! The exchange-hash transcript: every value is hashed as an SSH string, in
//! the order the protocol prescribes, and SHA-256 of the whole run is the
//! exchange hash `H`.

use vstd::prelude::*;

use crate::codec::{enc_string, MAX_STRING_LEN};
use crate::crypto::{sha256, sha256_of};
use crate::types::ServerKey;

verus! {

/// The bytes the exchange hash is computed over: each of the eight values as
/// an SSH string, in wire order.
pub open spec fn transcript_bytes(
    v_c: Seq<u8>,
    v_s: Seq<u8>,
    i_c: Seq<u8>,
    i_s: Seq<u8>,
    k_s: Seq<u8>,
    e: Seq<u8>,
    f: Seq<u8>,
    k: Seq<u8>,
) -> Seq<u8> {
    enc_string(v_c) + enc_string(v_s) + enc_string(i_c) + enc_string(i_s) + enc_string(k_s)
        + enc_string(e) + enc_string(f) + enc_string(k)
}

/// An incremental transcript: values arrive one at a time, each hashed as an
/// SSH string, and the digest is taken at the end.
pub struct TranscriptHash {
    data: Vec<u8>,
}

impl View for TranscriptHash {
    type V = Seq<u8>;

    /// The bytes fed so far.
    closed spec fn view(&self) -> Seq<u8> {
        self.data@
    }
}

impl TranscriptHash {
    pub fn new() -> (r: TranscriptHash)
        ensures
            r@ == Seq::<u8>::empty(),
    {
        TranscriptHash { data: Vec::new() }
    }

    /// Feed one value, hashed as an SSH string: its length as a big-endian
    /// uint32, then its bytes.
    pub fn update_string(&mut self, b: &[u8]) -> (r: Result<(), ()>)
        ensures
            r is Ok <==> b@.len() <= MAX_STRING_LEN,
            r is Ok ==> final(self)@ == old(self)@ + enc_string(b@),
            r is Err ==> *final(self) == *old(self),
    {
        if b.len() > MAX_STRING_LEN {
            return Err(());
        }
        proof {
            reveal(crate::codec::enc_u32);
        }
        let len = b.len() as u32;
        self.data.push((len / 0x100_0000 % 256) as u8);
        self.data.push((len / 0x1_0000 % 256) as u8);
        self.data.push((len / 0x100 % 256) as u8);
        self.data.push((len % 256) as u8);
        let mut i: usize = 0;
        let n = b.len();
        while i < n
            invariant
                i <= n,
                n == b@.len(),
                self@ == old(self)@ + crate::codec::enc_u32(n as int) + b@.take(i as int),
            decreases n - i,
        {
            let byte = *vstd::slice::slice_index_get(b, i);
            self.data.push(byte);
            assert(self@ =~= old(self)@ + crate::codec::enc_u32(n as int) + b@.take(i + 1));
            i += 1;
        }
        assert(final(self)@ =~= old(self)@ + enc_string(b@));
        Ok(())
    }

    /// The SHA-256 digest of everything fed so far.
    pub fn finish(&self) -> (r: Vec<u8>)
        ensures
            r@ == sha256_of(self@),
            r@.len() == 32,
    {
        sha256(&self.data)
    }
}

/// A struct-of-options form of the transcript: the caller deposits the eight
/// values in any order and asks for the digest once all are present.
#[derive(Debug, Default)]
pub struct KeyBuilder {
    pub v_c: Option<Vec<u8>>,
    pub v_s: Option<Vec<u8>>,
    pub i_c: Option<Vec<u8>>,
    pub i_s: Option<Vec<u8>>,
    pub k_s: Option<Vec<u8>>,
    pub e: Option<Vec<u8>>,
    pub f: Option<Vec<u8>>,
    pub k: Option<Vec<u8>>,
    pub server_key: Option<ServerKey>,
}

/// A transcript value was missing or too long to hash as an SSH string.
#[derive(Debug, PartialEq, Eq, Clone, Copy)]
pub struct KeyBuilderError;

impl KeyBuilder {
    /// All eight transcript fields are present.
    pub open spec fn complete(&self) -> bool {
        &&& self.v_c is Some
        &&& self.v_s is Some
        &&& self.i_c is Some
        &&& self.i_s is Some
        &&& self.k_s is Some
        &&& self.e is Some
        &&& self.f is Some
        &&& self.k is Some
    }

    /// Every present field fits a uint32 length prefix.
    pub open spec fn fits(&self) -> bool {
        &&& self.v_c matches Some(v) ==> v@.len() <= MAX_STRING_LEN
        &&& self.v_s matches Some(v) ==> v@.len() <= MAX_STRING_LEN
        &&& self.i_c matches Some(v) ==> v@.len() <= MAX_STRING_LEN
        &&& self.i_s matches Some(v) ==> v@.len() <= MAX_STRING_LEN
        &&& self.k_s matches Some(v) ==> v@.len() <= MAX_STRING_LEN
        &&& self.e matches Some(v) ==> v@.len() <= MAX_STRING_LEN
        &&& self.f matches Some(v) ==> v@.len() <= MAX_STRING_LEN
        &&& self.k matches Some(v) ==> v@.len() <= MAX_STRING_LEN
    }

    /// The exchange hash of the deposited values.
    pub fn digest(&self) -> (r: Result<Vec<u8>, KeyBuilderError>)
        ensures
            r is Ok <==> self.complete() && self.fits(),
            r matches Ok(h) ==> h@.len() == 32 && h@ == sha256_of(
                transcript_bytes(
                    self.v_c->0@,
                    self.v_s->0@,
                    self.i_c->0@,
                    self.i_s->0@,
                    self.k_s->0@,
                    self.e->0@,
                    self.f->0@,
                    self.k->0@,
                ),
            ),
    {
        let mut t = TranscriptHash::new();
        let fields: [&Option<Vec<u8>>; 8] = [
            &self.v_c,
            &self.v_s,
            &self.i_c,
            &self.i_s,
            &self.k_s,
            &self.e,
            &self.f,
            &self.k,
        ];
        let mut idx: usize = 0;
        while idx < 8
            invariant
                idx <= 8,
                fields@.len() == 8,
                fields@[0] == &self.v_c,
                fields@[1] == &self.v_s,
                fields@[2] == &self.i_c,
                fields@[3] == &self.i_s,
                fields@[4] == &self.k_s,
                fields@[5] == &self.e,
                fields@[6] == &self.f,
                fields@[7] == &self.k,
                forall|j: int|
                    0 <= j < idx ==> (#[trigger] fields@[j]) is Some && fields@[j]->0@.len()
                        <= MAX_STRING_LEN,
                t@ == prefix_transcript(*self, idx as int),
            decreases 8 - idx,
        {
            let field = fields[idx];
            match field {
                None => {
                    return Err(KeyBuilderError);
                },
                Some(v) => {
                    match t.update_string(v.as_slice()) {
                        Err(()) => {
                            return Err(KeyBuilderError);
                        },
                        Ok(()) => (),
                    }
                },
            }
            idx += 1;
        }
        let h = t.finish();
        proof {
            reveal_with_fuel(prefix_transcript, 9);
            assert(prefix_transcript(*self, 8) =~= transcript_bytes(
                self.v_c->0@,
                self.v_s->0@,
                self.i_c->0@,
                self.i_s->0@,
                self.k_s->0@,
                self.e->0@,
                self.f->0@,
                self.k->0@,
            ));
        }
        Ok(h)
    }
}

/// The transcript of the first `n` of the eight fields, used while the
/// digest walks them in order.
pub open spec fn prefix_transcript(b: KeyBuilder, n: int) -> Seq<u8>
    decreases n,
{
    if n <= 0 {
        Seq::empty()
    } else {
        prefix_transcript(b, n - 1) + enc_string(transcript_field(b, n - 1))
    }
}

/// Field `k` of the eight transcript fields, in wire order.
pub open spec fn transcript_field(b: KeyBuilder, k: int) -> Seq<u8> {
    if k == 0 {
        b.v_c->0@
    } else if k == 1 {
        b.v_s->0@
    } else if k == 2 {
        b.i_c->0@
    } else if k == 3 {
        b.i_s->0@
    } else if k == 4 {
        b.k_s->0@
    } else if k == 5 {
        b.e->0@
    } else if k == 6 {
        b.f->0@
    } else {
        b.k->0@
    }
}

/// Two runs over the same eight values hash the same bytes: feeding them one
/// at a time through the running transcript, as the handshake states do,
/// yields exactly the bytes of the one-pass transcript, and so the same
/// exchange hash, byte for byte.
pub proof fn lemma_transcript_equivalence(
    v_c: Seq<u8>,
    v_s: Seq<u8>,
    i_c: Seq<u8>,
    i_s: Seq<u8>,
    k_s: Seq<u8>,
    e: Seq<u8>,
    f: Seq<u8>,
    k: Seq<u8>,
)
    ensures
        Seq::<u8>::empty() + enc_string(v_c) + enc_string(v_s) + enc_string(i_c) + enc_string(i_s)
            + enc_string(k_s) + enc_string(e) + enc_string(f) + enc_string(k) == transcript_bytes(
            v_c,
            v_s,
            i_c,
            i_s,
            k_s,
            e,
            f,
            k,
        ),
        sha256_of(
            Seq::<u8>::empty() + enc_string(v_c) + enc_string(v_s) + enc_string(i_c) + enc_string(
                i_s,
            ) + enc_string(k_s) + enc_string(e) + enc_string(f) + enc_string(k),
        ) == sha256_of(transcript_bytes(v_c, v_s, i_c, i_s, k_s, e, f, k)),
{
    assert(Seq::<u8>::empty() + enc_string(v_c) + enc_string(v_s) + enc_string(i_c) + enc_string(
        i_s,
    ) + enc_string(k_s) + enc_string(e) + enc_string(f) + enc_string(k) =~= transcript_bytes(
        v_c,
        v_s,
        i_c,
        i_s,
        k_s,
        e,
        f,
        k,
    ));
}

} // verus!
