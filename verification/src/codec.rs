//! The SSH binary codec: big-endian integers, booleans, length-prefixed byte
//! strings and comma-separated name lists, together with the spec-level
//! encodings and parsers that the typed wire values are proved against.

use vstd::prelude::*;

verus! {

/// Errors of the byte-level decoder.
#[derive(Debug, PartialEq, Eq, Clone, Copy)]
pub enum DecoderError {
    /// The input ended before the field did.
    UnexpectedEOF,
    /// A boolean octet held something other than 0 or 1.
    NonBoolean,
    /// A name held a byte outside US-ASCII.
    Utf8,
}

/// Errors of the byte-level encoder.
#[derive(Debug, PartialEq, Eq, Clone, Copy)]
pub enum EncoderError {
    /// A byte string longer than a uint32 length prefix can carry.
    DataTooLarge(usize),
}

/// Largest length a uint32 length prefix can carry.
pub const MAX_STRING_LEN: usize = 0xffff_ffff;

/// The comma that separates the names of a name list.
pub const COMMA: u8 = 44;

// ---------------------------------------------------------------------------
// Spec-level encodings
// ---------------------------------------------------------------------------

/// The four big-endian bytes of `n`; meaningful for `0 <= n < 2^32`.
#[verifier::opaque]
pub open spec fn enc_u32(n: int) -> Seq<u8> {
    seq![
        (n / 0x100_0000 % 256) as u8,
        (n / 0x1_0000 % 256) as u8,
        (n / 0x100 % 256) as u8,
        (n % 256) as u8,
    ]
}

/// The value of four big-endian bytes.
#[verifier::opaque]
pub open spec fn dec_u32(b0: u8, b1: u8, b2: u8, b3: u8) -> int {
    b0 * 0x100_0000 + b1 * 0x1_0000 + b2 * 0x100 + b3
}

/// Four bytes encode a uint32.
pub broadcast proof fn lemma_enc_u32_len(n: int)
    ensures
        (#[trigger] enc_u32(n)).len() == 4,
{
    reveal(enc_u32);
}

/// An SSH `string`: uint32 length, then the raw bytes.
pub open spec fn enc_string(b: Seq<u8>) -> Seq<u8> {
    enc_u32(b.len() as int) + b
}

/// An SSH `boolean` octet.
pub open spec fn enc_bool(v: bool) -> Seq<u8> {
    seq![if v { 1u8 } else { 0u8 }]
}

/// An SSH `mpint` holding a non-negative value: the empty string for zero,
/// else the value bytes with one zero byte prepended when the high bit of the
/// first byte is set.
pub open spec fn enc_mpint_body(b: Seq<u8>) -> Seq<u8> {
    if b.len() == 0 {
        b
    } else if b[0] <= 0x7f {
        b
    } else {
        seq![0u8] + b
    }
}

/// Decoding the four big-endian bytes of a value gives the value back.
pub proof fn lemma_u32_round(n: int)
    requires
        0 <= n < 0x1_0000_0000,
    ensures
        enc_u32(n).len() == 4,
        dec_u32(enc_u32(n)[0], enc_u32(n)[1], enc_u32(n)[2], enc_u32(n)[3]) == n,
{
    reveal(enc_u32);
    reveal(dec_u32);
    assert((n / 0x100_0000 % 256) * 0x100_0000 + (n / 0x1_0000 % 256) * 0x1_0000 + (n / 0x100 % 256)
        * 0x100 + n % 256 == n) by (nonlinear_arith)
        requires
            0 <= n < 0x1_0000_0000,
    ;
}

// ---------------------------------------------------------------------------
// Spec-level parsers: each yields the parsed value and the position after it
// ---------------------------------------------------------------------------

/// Parse one octet.
pub open spec fn sp_u8(data: Seq<u8>, pos: int) -> Option<(u8, int)> {
    if 0 <= pos && pos + 1 <= data.len() {
        Some((data[pos], pos + 1))
    } else {
        None
    }
}

/// Parse a big-endian uint32.
pub open spec fn sp_u32(data: Seq<u8>, pos: int) -> Option<(int, int)> {
    if 0 <= pos && pos + 4 <= data.len() {
        Some((dec_u32(data[pos], data[pos + 1], data[pos + 2], data[pos + 3]), pos + 4))
    } else {
        None
    }
}

/// Parse a length-prefixed byte string.
pub open spec fn sp_string(data: Seq<u8>, pos: int) -> Option<(Seq<u8>, int)> {
    match sp_u32(data, pos) {
        Some((n, p)) => if p + n <= data.len() {
            Some((data.subrange(p, p + n), p + n))
        } else {
            None
        },
        None => None,
    }
}

/// Parse a boolean octet; `None` covers both a short input and a non-boolean
/// byte, which the executable decoder tells apart by its error value.
pub open spec fn sp_bool(data: Seq<u8>, pos: int) -> Option<(bool, int)> {
    match sp_u8(data, pos) {
        Some((b, p)) => if b == 0 {
            Some((false, p))
        } else if b == 1 {
            Some((true, p))
        } else {
            None
        },
        None => None,
    }
}

/// Parsing an encoded uint32 gives the value back.
pub proof fn lemma_sp_u32_of_enc(prefix: Seq<u8>, n: int, rest: Seq<u8>)
    requires
        0 <= n < 0x1_0000_0000,
    ensures
        sp_u32(prefix + enc_u32(n) + rest, prefix.len() as int) == Some(
            (n, prefix.len() + 4 as int),
        ),
{
    broadcast use lemma_enc_u32_len;

    let data = prefix + enc_u32(n) + rest;
    let pos = prefix.len() as int;
    lemma_u32_round(n);
    assert(data[pos] == enc_u32(n)[0]);
    assert(data[pos + 1] == enc_u32(n)[1]);
    assert(data[pos + 2] == enc_u32(n)[2]);
    assert(data[pos + 3] == enc_u32(n)[3]);
}

/// Parsing an encoded string gives the bytes back.
pub proof fn lemma_sp_string_of_enc(prefix: Seq<u8>, b: Seq<u8>, rest: Seq<u8>)
    requires
        b.len() < 0x1_0000_0000,
    ensures
        sp_string(prefix + enc_string(b) + rest, prefix.len() as int) == Some(
            (b, prefix.len() + 4 + b.len() as int),
        ),
{
    broadcast use lemma_enc_u32_len;

    let data = prefix + enc_string(b) + rest;
    let pos = prefix.len() as int;
    assert(prefix + enc_string(b) + rest =~= prefix + enc_u32(b.len() as int) + (b + rest));
    lemma_sp_u32_of_enc(prefix, b.len() as int, b + rest);
    assert(data.subrange(pos + 4, pos + 4 + b.len()) =~= b);
}


/// Parsing an encoded boolean gives the value back.
pub proof fn lemma_sp_bool_of_enc(prefix: Seq<u8>, b: bool, rest: Seq<u8>)
    ensures
        sp_bool(prefix + enc_bool(b) + rest, prefix.len() as int) == Some(
            (b, prefix.len() + 1 as int),
        ),
{
    let data = prefix + enc_bool(b) + rest;
    assert(data[prefix.len() as int] == enc_bool(b)[0]);
}

// ---------------------------------------------------------------------------
// Name lists: names joined by commas, carried as one SSH string
// ---------------------------------------------------------------------------

/// A byte a name may hold: printable US-ASCII other than the comma.
pub open spec fn name_byte(b: u8) -> bool {
    33 <= b <= 126 && b != COMMA
}

/// A wire name: non-empty printable US-ASCII without commas.
pub open spec fn valid_name(s: Seq<u8>) -> bool {
    s.len() > 0 && forall|i: int| 0 <= i < s.len() ==> name_byte(#[trigger] s[i])
}

/// No comma anywhere.
pub open spec fn comma_free(s: Seq<u8>) -> bool {
    forall|i: int| 0 <= i < s.len() ==> #[trigger] s[i] != COMMA
}

/// Every byte is US-ASCII.
pub open spec fn all_ascii(s: Seq<u8>) -> bool {
    forall|i: int| 0 <= i < s.len() ==> #[trigger] s[i] <= 0x7f
}

/// The names joined by commas.
pub open spec fn join_names(l: Seq<Seq<u8>>) -> Seq<u8>
    decreases l.len(),
{
    if l.len() == 0 {
        Seq::empty()
    } else if l.len() == 1 {
        l[0]
    } else {
        l[0] + seq![COMMA] + join_names(l.drop_first())
    }
}

/// Index of the first comma; meaningful when one is present.
pub open spec fn first_comma(s: Seq<u8>) -> int
    decreases s.len(),
{
    if s.len() == 0 {
        0
    } else if s[0] == COMMA {
        0
    } else {
        1 + first_comma(s.drop_first())
    }
}

/// The segments between commas; one segment more than there are commas.
pub open spec fn split_segs(s: Seq<u8>) -> Seq<Seq<u8>>
    decreases s.len(),
{
    if !s.contains(COMMA) {
        seq![s]
    } else {
        let i = first_comma(s);
        if 0 <= i < s.len() {
            seq![s.take(i)] + split_segs(s.skip(i + 1))
        } else {
            seq![s]
        }
    }
}

/// An empty payload is an empty list; anything else splits at the commas.
pub open spec fn split_names(s: Seq<u8>) -> Seq<Seq<u8>> {
    if s.len() == 0 {
        seq![]
    } else {
        split_segs(s)
    }
}

/// Where a comma exists, `first_comma` finds the first one.
pub proof fn lemma_first_comma(s: Seq<u8>)
    requires
        s.contains(COMMA),
    ensures
        0 <= first_comma(s) < s.len(),
        s[first_comma(s)] == COMMA,
        forall|j: int| 0 <= j < first_comma(s) ==> s[j] != COMMA,
    decreases s.len(),
{
    if s.len() == 0 {
    } else if s[0] == COMMA {
    } else {
        let t = s.drop_first();
        let w = choose|i: int| 0 <= i < s.len() && s[i] == COMMA;
        assert(t[w - 1] == COMMA);
        assert(t.contains(COMMA));
        lemma_first_comma(t);
        assert(forall|j: int| 0 <= j < first_comma(s) ==> s[j] != COMMA) by {
            assert(forall|j: int| 1 <= j < first_comma(s) ==> s[j] == t[j - 1] && t[j - 1]
                != COMMA);
        }
    }
}

/// A comma at `i` after none is the first comma.
pub proof fn lemma_first_comma_at(s: Seq<u8>, i: int)
    requires
        0 <= i < s.len(),
        s[i] == COMMA,
        forall|j: int| 0 <= j < i ==> s[j] != COMMA,
    ensures
        first_comma(s) == i,
{
    assert(s.contains(COMMA));
    lemma_first_comma(s);
    let f = first_comma(s);
    if f < i {
        assert(s[f] != COMMA);
    } else if f > i {
        assert(s[i] != COMMA);
    }
}

/// Splitting what was joined from comma-free names gives the names back.
pub proof fn lemma_split_join(l: Seq<Seq<u8>>)
    requires
        l.len() >= 1,
        forall|i: int| 0 <= i < l.len() ==> comma_free(#[trigger] l[i]),
    ensures
        split_segs(join_names(l)) == l,
    decreases l.len(),
{
    let j = join_names(l);
    if l.len() == 1 {
        assert(comma_free(l[0]));
        assert(!j.contains(COMMA)) by {
            assert(forall|i: int| 0 <= i < j.len() ==> #[trigger] j[i] != COMMA);
        }
        assert(split_segs(j) =~= l);
    } else {
        let head = l[0];
        let tail = l.drop_first();
        let jt = join_names(tail);
        assert(j == head + seq![COMMA] + jt);
        let hl = head.len() as int;
        assert(j[hl] == COMMA);
        assert(forall|k: int| 0 <= k < hl ==> j[k] == head[k] && #[trigger] j[k] != COMMA);
        lemma_first_comma_at(j, hl);
        assert(j.contains(COMMA));
        assert(j.take(hl) =~= head);
        assert(j.skip(hl + 1) =~= jt);
        lemma_split_join(tail);
        assert(split_segs(j) =~= seq![head] + split_segs(jt));
        assert(seq![head] + tail =~= l);
    }
}

/// A join of at least one name starts with the first name.
pub proof fn lemma_join_first(l: Seq<Seq<u8>>)
    requires
        l.len() >= 1,
    ensures
        join_names(l).len() >= l[0].len(),
{
}

/// The views of a sequence of byte vectors.
pub open spec fn seq_views(l: Seq<Vec<u8>>) -> Seq<Seq<u8>> {
    l.map_values(|v: Vec<u8>| v@)
}

/// Split a payload at its commas.
pub fn split_payload(payload: &[u8]) -> (r: Vec<Vec<u8>>)
    ensures
        seq_views(r@) == split_names(payload@),
{
    let mut r: Vec<Vec<u8>> = Vec::new();
    let n = payload.len();
    if n == 0 {
        assert(seq_views(r@) =~= split_names(payload@));
        return r;
    }
    proof {
        assert(payload@.skip(0) =~= payload@);
        assert(seq_views(r@) =~= Seq::<Seq<u8>>::empty());
        assert(seq_views(r@) + split_segs(payload@) =~= split_segs(payload@));
    }
    let mut start: usize = 0;
    let mut i: usize = 0;
    while i < n
        invariant
            start <= i <= n,
            n == payload@.len(),
            n > 0,
            forall|k: int| start <= k < i ==> payload@[k] != COMMA,
            split_names(payload@) == seq_views(r@) + split_segs(payload@.skip(start as int)),
        decreases n - i,
    {
        if *vstd::slice::slice_index_get(payload, i) == COMMA {
            let seg = vstd::slice::slice_to_vec(vstd::slice::slice_subrange(payload, start, i));
            proof {
                let rem = payload@.skip(start as int);
                assert(rem[i - start] == COMMA);
                assert(forall|j: int| 0 <= j < i - start ==> rem[j] == payload@[start + j]
                    && #[trigger] rem[j] != COMMA);
                lemma_first_comma_at(rem, i - start);
                assert(rem.contains(COMMA));
                assert(rem.take(i - start) =~= seg@);
                assert(rem.skip(i - start + 1) =~= payload@.skip(i + 1));
                assert(split_segs(rem) == seq![seg@] + split_segs(payload@.skip(i + 1)));
                assert(seq_views(r@.push(seg)) =~= seq_views(r@) + seq![seg@]);
                assert(seq_views(r@) + (seq![seg@] + split_segs(payload@.skip(i + 1))) =~= (
                seq_views(r@) + seq![seg@]) + split_segs(payload@.skip(i + 1)));
            }
            r.push(seg);
            start = i + 1;
        }
        i += 1;
    }
    let seg = vstd::slice::slice_to_vec(vstd::slice::slice_subrange(payload, start, n));
    proof {
        let rem = payload@.skip(start as int);
        assert(forall|j: int| 0 <= j < rem.len() ==> rem[j] == payload@[start + j]
            && #[trigger] rem[j] != COMMA);
        assert(!rem.contains(COMMA));
        assert(rem =~= seg@);
        assert(split_segs(rem) == seq![seg@]);
        assert(seq_views(r@.push(seg)) =~= seq_views(r@) + seq![seg@]);
    }
    r.push(seg);
    r
}

/// Appending one more name to a join.
pub proof fn lemma_join_push(l: Seq<Seq<u8>>, x: Seq<u8>)
    ensures
        join_names(l.push(x)) == if l.len() == 0 {
            x
        } else {
            join_names(l) + seq![COMMA] + x
        },
    decreases l.len(),
{
    let p = l.push(x);
    if l.len() == 0 {
        assert(p.len() == 1);
        assert(p[0] == x);
    } else if l.len() == 1 {
        assert(p.len() == 2);
        assert(p.drop_first() =~= seq![x]);
        assert(join_names(seq![x]) == seq![x][0]);
        assert(seq![x][0] == x);
        assert(join_names(p) == p[0] + seq![COMMA] + x);
        assert(p[0] == l[0]);
        assert(join_names(l) == l[0]);
    } else {
        assert(p.drop_first() =~= l.drop_first().push(x));
        lemma_join_push(l.drop_first(), x);
        assert(join_names(p) == p[0] + seq![COMMA] + join_names(l.drop_first().push(x)));
        assert(p[0] == l[0]);
        assert(l[0] + seq![COMMA] + (join_names(l.drop_first()) + seq![COMMA] + x) =~= (l[0]
            + seq![COMMA] + join_names(l.drop_first())) + seq![COMMA] + x);
    }
}

/// Join segments with commas.
pub fn join_payload(segs: &Vec<Vec<u8>>) -> (r: Vec<u8>)
    ensures
        r@ == join_names(seq_views(segs@)),
{
    let mut r: Vec<u8> = Vec::new();
    let mut idx: usize = 0;
    let n = segs.len();
    while idx < n
        invariant
            idx <= n,
            n == segs@.len(),
            r@ == join_names(seq_views(segs@.take(idx as int))),
        decreases n - idx,
    {
        proof {
            let done = seq_views(segs@.take(idx as int));
            lemma_join_push(done, segs@[idx as int]@);
            assert(seq_views(segs@.take(idx + 1)) =~= done.push(segs@[idx as int]@));
        }
        if idx > 0 {
            r.push(COMMA);
        } else {
            assert(seq_views(segs@.take(idx as int)).len() == 0);
        }
        let seg = &segs[idx];
        r.extend_from_slice(seg.as_slice());
        idx += 1;
    }
    proof {
        assert(segs@.take(n as int) =~= segs@);
    }
    r
}

// ---------------------------------------------------------------------------
// The executable encoder
// ---------------------------------------------------------------------------

/// Accumulates the wire form of a packet payload, field by field.
pub struct BinaryEncoder {
    buf: Vec<u8>,
}

impl View for BinaryEncoder {
    type V = Seq<u8>;

    /// The bytes written so far.
    closed spec fn view(&self) -> Seq<u8> {
        self.buf@
    }
}

impl BinaryEncoder {
    pub fn new() -> (r: BinaryEncoder)
        ensures
            r@ == Seq::<u8>::empty(),
    {
        BinaryEncoder { buf: Vec::new() }
    }

    /// Hand out the accumulated bytes.
    pub fn into_inner(self) -> (r: Vec<u8>)
        ensures
            r@ == self@,
    {
        self.buf
    }

    pub fn put_u8(&mut self, v: u8)
        ensures
            final(self)@ == old(self)@ + seq![v],
    {
        self.buf.push(v);
    }

    pub fn put_bool(&mut self, v: bool)
        ensures
            final(self)@ == old(self)@ + enc_bool(v),
    {
        if v {
            self.buf.push(1);
        } else {
            self.buf.push(0);
        }
        assert(final(self)@ =~= old(self)@ + enc_bool(v));
    }

    pub fn put_u32(&mut self, v: u32)
        ensures
            final(self)@ == old(self)@ + enc_u32(v as int),
    {
        proof {
            reveal(enc_u32);
        }
        self.buf.push((v / 0x100_0000 % 256) as u8);
        self.buf.push((v / 0x1_0000 % 256) as u8);
        self.buf.push((v / 0x100 % 256) as u8);
        self.buf.push((v % 256) as u8);
        assert(final(self)@ =~= old(self)@ + enc_u32(v as int));
    }


    /// Append raw bytes with no length prefix.
    pub fn put_raw(&mut self, v: &[u8])
        ensures
            final(self)@ == old(self)@ + v@,
    {
        let mut i: usize = 0;
        let len = v.len();
        while i < len
            invariant
                i <= len,
                len == v@.len(),
                self@ == old(self)@ + v@.take(i as int),
            decreases len - i,
        {
            let b = *vstd::slice::slice_index_get(v, i);
            self.buf.push(b);
            assert(self@ =~= old(self)@ + v@.take(i + 1));
            i += 1;
        }
        assert(final(self)@ =~= old(self)@ + v@);
    }

    /// Append a length-prefixed byte string.
    pub fn put_bytes(&mut self, v: &[u8]) -> (r: Result<(), EncoderError>)
        ensures
            r matches Ok(()) <==> v@.len() <= MAX_STRING_LEN,
            r is Ok ==> final(self)@ == old(self)@ + enc_string(v@),
            r is Err ==> *final(self) == *old(self),
            r matches Err(e) ==> e == EncoderError::DataTooLarge(v@.len() as usize),
    {
        broadcast use lemma_enc_u32_len;

        if v.len() > MAX_STRING_LEN {
            return Err(EncoderError::DataTooLarge(v.len()));
        }
        self.put_u32(v.len() as u32);
        let mut i: usize = 0;
        let len = v.len();
        while i < len
            invariant
                i <= len,
                len == v@.len(),
                self@ == old(self)@ + enc_u32(len as int) + v@.take(i as int),
            decreases len - i,
        {
            let b = *vstd::slice::slice_index_get(v, i);
            self.buf.push(b);
            assert(self@ =~= old(self)@ + enc_u32(len as int) + v@.take(i + 1));
            i += 1;
        }
        assert(final(self)@ =~= old(self)@ + enc_string(v@));
        Ok(())
    }
}

// ---------------------------------------------------------------------------
// The executable decoder
// ---------------------------------------------------------------------------

/// Walks a byte slice from front to back, one typed field at a time.
pub struct BinaryDecoder<'a> {
    buf: &'a [u8],
    pos: usize,
}

impl<'a> BinaryDecoder<'a> {
    /// The cursor never passes the end of the input.
    pub closed spec fn wf(&self) -> bool {
        self.pos <= self.buf@.len()
    }

    /// The whole input.
    pub closed spec fn spec_data(&self) -> Seq<u8> {
        self.buf@
    }

    /// How far the decoder has read.
    pub closed spec fn spec_pos(&self) -> int {
        self.pos as int
    }

    pub fn new(data: &'a [u8]) -> (r: BinaryDecoder<'a>)
        ensures
            r.wf(),
            r.spec_data() == data@,
            r.spec_pos() == 0,
    {
        BinaryDecoder { buf: data, pos: 0 }
    }

    /// How many bytes are left.
    pub fn remaining(&self) -> (r: usize)
        requires
            self.wf(),
        ensures
            r == self.spec_data().len() - self.spec_pos(),
    {
        self.buf.len() - self.pos
    }

    pub fn parse_u8(&mut self) -> (r: Result<u8, DecoderError>)
        requires
            old(self).wf(),
        ensures
            final(self).wf(),
            final(self).spec_data() == old(self).spec_data(),
            r is Ok <==> sp_u8(old(self).spec_data(), old(self).spec_pos()) is Some,
            r matches Ok(v) ==> sp_u8(old(self).spec_data(), old(self).spec_pos()) == Some(
                (v, final(self).spec_pos()),
            ),
            r is Err ==> *final(self) == *old(self) && r == Err::<u8,
            DecoderError>(DecoderError::UnexpectedEOF),
    {
        if self.pos >= self.buf.len() {
            Err(DecoderError::UnexpectedEOF)
        } else {
            let v = *vstd::slice::slice_index_get(self.buf, self.pos);
            self.pos = self.pos + 1;
            Ok(v)
        }
    }

    pub fn parse_u32(&mut self) -> (r: Result<u32, DecoderError>)
        requires
            old(self).wf(),
        ensures
            final(self).wf(),
            final(self).spec_data() == old(self).spec_data(),
            r is Ok <==> sp_u32(old(self).spec_data(), old(self).spec_pos()) is Some,
            r matches Ok(v) ==> sp_u32(old(self).spec_data(), old(self).spec_pos()) == Some(
                (v as int, final(self).spec_pos()),
            ),
            r is Err ==> *final(self) == *old(self) && r == Err::<u32,
            DecoderError>(DecoderError::UnexpectedEOF),
    {
        proof {
            reveal(dec_u32);
        }
        if self.buf.len() < 4 || self.pos > self.buf.len() - 4 {
            Err(DecoderError::UnexpectedEOF)
        } else {
            let b0 = *vstd::slice::slice_index_get(self.buf, self.pos);
            let b1 = *vstd::slice::slice_index_get(self.buf, self.pos + 1);
            let b2 = *vstd::slice::slice_index_get(self.buf, self.pos + 2);
            let b3 = *vstd::slice::slice_index_get(self.buf, self.pos + 3);
            let v = (b0 as u32) * 0x100_0000 + (b1 as u32) * 0x1_0000 + (b2 as u32) * 0x100 + (
            b3 as u32);
            self.pos = self.pos + 4;
            Ok(v)
        }
    }

    /// Read a uint32 length, then that many raw bytes.
    pub fn parse_bytes(&mut self) -> (r: Result<Vec<u8>, DecoderError>)
        requires
            old(self).wf(),
        ensures
            final(self).wf(),
            final(self).spec_data() == old(self).spec_data(),
            r is Ok <==> sp_string(old(self).spec_data(), old(self).spec_pos()) is Some,
            r matches Ok(v) ==> sp_string(old(self).spec_data(), old(self).spec_pos()) == Some(
                (v@, final(self).spec_pos()),
            ),
            r is Err ==> *final(self) == *old(self) && r == Err::<Vec<u8>,
            DecoderError>(DecoderError::UnexpectedEOF),
    {
        proof {
            reveal(dec_u32);
        }
        if self.buf.len() < 4 || self.pos > self.buf.len() - 4 {
            return Err(DecoderError::UnexpectedEOF);
        }
        let b0 = *vstd::slice::slice_index_get(self.buf, self.pos);
        let b1 = *vstd::slice::slice_index_get(self.buf, self.pos + 1);
        let b2 = *vstd::slice::slice_index_get(self.buf, self.pos + 2);
        let b3 = *vstd::slice::slice_index_get(self.buf, self.pos + 3);
        let n = ((b0 as u32) * 0x100_0000 + (b1 as u32) * 0x1_0000 + (b2 as u32) * 0x100 + (
        b3 as u32)) as usize;
        if self.buf.len() - (self.pos + 4) < n {
            return Err(DecoderError::UnexpectedEOF);
        }
        let v = vstd::slice::slice_to_vec(
            vstd::slice::slice_subrange(self.buf, self.pos + 4, self.pos + 4 + n),
        );
        self.pos = self.pos + 4 + n;
        Ok(v)
    }


    /// Take every byte that is left.
    pub fn parse_remaining(&mut self) -> (r: Vec<u8>)
        requires
            old(self).wf(),
        ensures
            final(self).wf(),
            final(self).spec_data() == old(self).spec_data(),
            r@ == old(self).spec_data().skip(old(self).spec_pos()),
            final(self).spec_pos() == final(self).spec_data().len(),
    {
        let r = vstd::slice::slice_to_vec(
            vstd::slice::slice_subrange(self.buf, self.pos, self.buf.len()),
        );
        self.pos = self.buf.len();
        assert(r@ =~= old(self).spec_data().skip(old(self).spec_pos()));
        r
    }

    /// Read one octet that must be 0 or 1.
    pub fn parse_bool(&mut self) -> (r: Result<bool, DecoderError>)
        requires
            old(self).wf(),
        ensures
            final(self).wf(),
            final(self).spec_data() == old(self).spec_data(),
            r is Ok <==> sp_bool(old(self).spec_data(), old(self).spec_pos()) is Some,
            r matches Ok(v) ==> sp_bool(old(self).spec_data(), old(self).spec_pos()) == Some(
                (v, final(self).spec_pos()),
            ),
            sp_u8(old(self).spec_data(), old(self).spec_pos()) is None ==> r == Err::<bool,
            DecoderError>(DecoderError::UnexpectedEOF),
            (sp_u8(old(self).spec_data(), old(self).spec_pos()) matches Some((b, _)) && b != 0 && b
                != 1) ==> r == Err::<bool, DecoderError>(DecoderError::NonBoolean),
            r is Err ==> final(self).spec_pos() == old(self).spec_pos(),
    {
        match self.parse_u8() {
            Err(e) => Err(e),
            Ok(0) => Ok(false),
            Ok(1) => Ok(true),
            Ok(_) => {
                self.pos = self.pos - 1;
                Err(DecoderError::NonBoolean)
            },
        }
    }
}

} // verus!
