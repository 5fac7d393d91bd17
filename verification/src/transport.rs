//! The unencrypted binary packet framing: byte-order helpers, the random
//! padding computation, and the spec-level model of a framed byte stream.

use vstd::prelude::*;

use crate::buf::AsyncBuf;
use crate::bufreader::AsyncBufReader;
use crate::bufwriter::AsyncBufWriter;
use crate::codec::{dec_u32, enc_u32, lemma_enc_u32_len, lemma_u32_round, MAX_STRING_LEN};
use crate::handshake::{HandshakeError, SecureContext, TransportError};
use crate::{Async, IoErrorKind};

verus! {

/// The value of the first four bytes, big-endian.
pub fn ntoh(buf: &[u8]) -> (r: u32)
    requires
        buf@.len() >= 4,
    ensures
        r == dec_u32(buf@[0], buf@[1], buf@[2], buf@[3]),
{
    proof {
        reveal(dec_u32);
    }
    let b0 = *vstd::slice::slice_index_get(buf, 0);
    let b1 = *vstd::slice::slice_index_get(buf, 1);
    let b2 = *vstd::slice::slice_index_get(buf, 2);
    let b3 = *vstd::slice::slice_index_get(buf, 3);
    (b0 as u32) * 0x100_0000 + (b1 as u32) * 0x1_0000 + (b2 as u32) * 0x100 + (b3 as u32)
}

/// The four big-endian bytes of a value.
pub fn hton(n: u32) -> (r: [u8; 4])
    ensures
        r@ == enc_u32(n as int),
{
    proof {
        reveal(enc_u32);
    }
    let r = [(n / 0x100_0000 % 256) as u8, (n / 0x1_0000 % 256) as u8, (n / 0x100 % 256) as u8, (n
        % 256) as u8];
    assert(r@ =~= enc_u32(n as int));
    r
}

/// Relies on rand::RngExt::random_range over `0..n`: a draw below `n`.
#[verifier::external_body]
fn rand_below<R: rand::RngExt>(rng: &mut R, n: usize) -> (r: usize)
    requires
        n > 0,
    ensures
        r < n,
{
    rng.random_range(0..n)
}

/// The alignment every frame must meet: the cipher block size, at least 8.
pub open spec fn spec_min_unit(blk: int) -> int {
    if blk > 8 {
        blk
    } else {
        8
    }
}

/// The largest total frame length the padding may reach: the room a uint32
/// packet_length field leaves, capped by the longest admissible padding.
pub open spec fn spec_upper(payload: int) -> int {
    if payload + 260 < 0x1_0000_0003 {
        payload + 260
    } else {
        0x1_0000_0003
    }
}

/// The smallest admissible total frame length.
pub open spec fn spec_lower(payload: int, blk: int) -> int {
    let unit = spec_min_unit(blk);
    let floor = if unit > 16 {
        unit
    } else {
        16
    };
    if payload + 9 > floor {
        payload + 9
    } else {
        floor
    }
}

/// The largest aligned total frame length.
pub open spec fn spec_max_pkt(payload: int, blk: int) -> int {
    let unit = spec_min_unit(blk);
    spec_upper(payload) - spec_upper(payload) % unit
}

/// The smallest aligned admissible total frame length.
pub open spec fn spec_min_pkt(payload: int, blk: int) -> int {
    let unit = spec_min_unit(blk);
    (spec_lower(payload, blk) + unit - 1) / unit * unit
}

/// When a padding length exists: the bounds are computable without overflow
/// and leave an admissible padding between 4 and 255.
pub open spec fn pad_computable(payload: int, blk: int) -> bool {
    let unit = spec_min_unit(blk);
    let except_pad = payload + 5;
    &&& payload + 260 <= u64::MAX
    &&& spec_lower(payload, blk) + unit - 1 <= u64::MAX
    &&& spec_max_pkt(payload, blk) >= except_pad
    &&& 4 <= spec_min_pkt(payload, blk) - except_pad
    &&& spec_min_pkt(payload, blk) - except_pad <= spec_max_pkt(payload, blk) - except_pad
    &&& spec_max_pkt(payload, blk) - except_pad <= 255
}

/// Pick a packet_length and padding_length for a payload: the padding lies
/// between 4 and 255, chosen at random among the aligned possibilities, and
/// the whole frame is a multiple of `max(blk_size, 8)`, at least 16 bytes.
#[verifier::rlimit(100)]
pub fn compute_pad_len<R: rand::RngExt>(payload_len: usize, blk_size: usize, rng: &mut R) -> (r:
    Result<(u32, u8), ()>)
    ensures
        r is Ok <==> pad_computable(payload_len as int, blk_size as int),
        r matches Ok((pkt_len, pad_len)) ==> {
            &&& 4 <= pad_len
            &&& pkt_len == payload_len + 1 + pad_len
            &&& (pkt_len + 4) as int % spec_min_unit(blk_size as int) == 0
            &&& pkt_len + 4 >= 16
            &&& pkt_len + 4 >= spec_min_unit(blk_size as int)
        },
{
    let payload = payload_len as u64;
    let unit: u64 = if blk_size > 8 {
        blk_size as u64
    } else {
        8u64
    };
    assert(unit == spec_min_unit(blk_size as int));
    if payload > u64::MAX - 260 {
        return Err(());
    }
    let upper0 = payload + 260;
    let cap: u64 = 0xffff_ffffu64 + 4;
    let upper = if upper0 < cap {
        upper0
    } else {
        cap
    };
    assert(upper == spec_upper(payload as int));
    let floor: u64 = if unit > 16 {
        unit
    } else {
        16
    };
    let lower = if payload + 9 > floor {
        payload + 9
    } else {
        floor
    };
    assert(lower == spec_lower(payload as int, blk_size as int));
    let rem = upper % unit;
    assert(0 <= rem <= upper && rem < unit) by (nonlinear_arith)
        requires
            unit > 0,
            upper > 0,
            rem == upper % unit,
    ;
    let max_pkt = upper - rem;
    if lower > u64::MAX - (unit - 1) {
        return Err(());
    }
    let q = ((lower - 1) + unit) / unit;
    assert(q * unit <= lower + unit - 1 && q * unit + unit > lower + unit - 1 && q >= 0) by (
    nonlinear_arith)
        requires
            unit > 0,
            lower + unit - 1 <= u64::MAX,
            lower >= 16,
            q == (lower + unit - 1) / (unit as int),
    ;
    let min_pkt = q * unit;
    assert(min_pkt == spec_min_pkt(payload as int, blk_size as int));
    let except_pad = payload + 5;
    if max_pkt < except_pad {
        return Err(());
    }
    let max_pad = max_pkt - except_pad;
    if min_pkt < except_pad {
        assert(min_pkt >= lower >= payload + 9 > except_pad);
        return Err(());
    }
    let min_pad = min_pkt - except_pad;
    if 4 <= min_pad && min_pad <= max_pad && max_pad <= 255 {
        let span = (max_pad - min_pad) / unit;
        assert(span * unit <= max_pad - min_pad && span >= 0) by (nonlinear_arith)
            requires
                unit > 0,
                0 <= max_pad - min_pad <= 255,
                span == ((max_pad - min_pad) as u64) / unit,
        ;
        let choices = span + 1;
        let k = rand_below(rng, choices as usize) as u64;
        assert(k * unit <= span * unit) by (nonlinear_arith)
            requires
                unit > 0,
                0 <= k <= span,
        ;
        let pad = k * unit + min_pad;
        assert(pad <= max_pad <= 255);
        assert(4 <= pad);
        let pkt = pad + except_pad - 4;
        proof {
            let u = unit as int;
            let m = (k + q) as int;
            assert((pkt + 4) as int == m * u) by (nonlinear_arith)
                requires
                    pkt + 4 == k * unit + q * unit,
                    m == (k + q) as int,
                    u == unit as int,
            ;
            assert((m * u) % u == 0) by (nonlinear_arith)
                requires
                    u > 0,
            ;
            assert((pkt + 4) as int % spec_min_unit(blk_size as int) == 0);
        }
        assert(pkt + 4 >= min_pkt >= lower >= 16);
        assert(pkt + 4 >= unit);
        assert(pkt == payload + 1 + pad);
        Ok((pkt as u32, pad as u8))
    } else {
        Err(())
    }
}

/// One outbound packet a handshake state asks the transport to send, and
/// whether the writer should be flushed once it is out.
pub struct PacketWriteRequest {
    pub payload: Vec<u8>,
    pub flush: bool,
}

// ---------------------------------------------------------------------------
// The framed byte stream
// ---------------------------------------------------------------------------

/// One unencrypted frame: packet_length, padding_length, payload, padding.
pub open spec fn frame_bytes(payload: Seq<u8>, padding: Seq<u8>) -> Seq<u8> {
    enc_u32(payload.len() as int + 1 + padding.len() as int) + seq![padding.len() as u8] + payload + padding
}

/// A frame the reader accepts: padding between 4 and 255, packet_length at
/// least 16, and everything within a uint32.
pub open spec fn frame_wf(payload: Seq<u8>, padding: Seq<u8>) -> bool {
    &&& 4 <= padding.len() <= 255
    &&& payload.len() + 1 + padding.len() >= 16
    &&& payload.len() + 1 + padding.len() <= u32::MAX
}

/// The frames of a list of (payload, padding) pairs, back to back.
pub open spec fn concat_frames(frames: Seq<(Seq<u8>, Seq<u8>)>) -> Seq<u8>
    decreases frames.len(),
{
    if frames.len() == 0 {
        Seq::empty()
    } else {
        frame_bytes(frames[0].0, frames[0].1) + concat_frames(frames.drop_first())
    }
}

/// Parse a whole byte stream into its frames' payloads, as the framer does:
/// reject a packet_length under 16 or under padding_length + 1.
pub open spec fn sp_frames(data: Seq<u8>) -> Option<Seq<Seq<u8>>>
    decreases data.len(),
{
    if data.len() == 0 {
        Some(seq![])
    } else if data.len() < 5 {
        None
    } else {
        let pkt_len = dec_u32(data[0], data[1], data[2], data[3]);
        let pad_len = data[4] as int;
        if pkt_len < 16 || pkt_len < pad_len + 1 || data.len() < 4 + pkt_len {
            None
        } else {
            let payload = data.subrange(5, 5 + pkt_len - pad_len - 1);
            match sp_frames(data.skip(4 + pkt_len)) {
                Some(rest) => Some(seq![payload] + rest),
                None => None,
            }
        }
    }
}

/// At the unencrypted layer's alignment, any packet_length and
/// padding_length chosen for a payload of at least eight bytes form a frame
/// that the reader accepts: the padding computation can pick a
/// packet_length as small as 12 for shorter payloads, which the reader's
/// 16-byte floor would reject.
pub proof fn lemma_chosen_frame_admissible(
    payload_len: int,
    blk: int,
    pkt_len: int,
    pad_len: int,
)
    requires
        blk <= 8,
        8 <= payload_len,
        4 <= pad_len <= 255,
        pkt_len == payload_len + 1 + pad_len,
        (pkt_len + 4) % spec_min_unit(blk) == 0,
    ensures
        pkt_len >= 16,
        pad_len + 1 <= pkt_len,
{
    assert(spec_min_unit(blk) == 8);
    assert(pkt_len + 4 >= 17);
    assert(pkt_len + 4 >= 24) by (nonlinear_arith)
        requires
            (pkt_len + 4) % 8 == 0,
            pkt_len + 4 >= 17,
    ;
}

/// The payloads of a list of frames.
pub open spec fn frame_payloads(frames: Seq<(Seq<u8>, Seq<u8>)>) -> Seq<Seq<u8>> {
    frames.map_values(|f: (Seq<u8>, Seq<u8>)| f.0)
}

/// The byte stream produced by writing any number of well-formed frames back
/// to back is parsed into exactly those frames' payloads by a fresh reader.
#[verifier::rlimit(100)]
pub proof fn lemma_frames_round(frames: Seq<(Seq<u8>, Seq<u8>)>)
    requires
        forall|i: int|
            0 <= i < frames.len() ==> frame_wf(
                (#[trigger] frames[i]).0,
                frames[i].1,
            ),
    ensures
        sp_frames(concat_frames(frames)) == Some(frame_payloads(frames)),
    decreases frames.len(),
{
    broadcast use lemma_enc_u32_len;

    if frames.len() == 0 {
        assert(sp_frames(concat_frames(frames)) == Some(Seq::<Seq<u8>>::empty()));
        assert(frame_payloads(frames) =~= Seq::<Seq<u8>>::empty());
    } else {
        let payload = frames[0].0;
        let padding = frames[0].1;
        let head = frame_bytes(payload, padding);
        let tail = concat_frames(frames.drop_first());
        let data = concat_frames(frames);
        assert(data == head + tail);
        let pkt_len: int = payload.len() as int + 1 + padding.len() as int;
        lemma_u32_round(pkt_len as int);
        assert(data.len() >= head.len());
        assert(head.len() == 4 + pkt_len);
        assert(data[0] == enc_u32(pkt_len as int)[0]);
        assert(data[1] == enc_u32(pkt_len as int)[1]);
        assert(data[2] == enc_u32(pkt_len as int)[2]);
        assert(data[3] == enc_u32(pkt_len as int)[3]);
        assert(dec_u32(data[0], data[1], data[2], data[3]) == pkt_len);
        assert(data[4] == padding.len() as u8);
        assert(data.subrange(5, 5 + pkt_len - padding.len() - 1) =~= payload);
        assert(data.skip(4 + pkt_len as int) =~= tail);
        lemma_frames_round(frames.drop_first());
        assert(frame_payloads(frames) =~= seq![payload] + frame_payloads(frames.drop_first()));
    }
}


// ---------------------------------------------------------------------------
// The transport driver
// ---------------------------------------------------------------------------

/// The four hooks a handshake state offers the packet transport, together
/// with spec-level views of what it wants to read, what it asks to send,
/// and what it has resolved with.
pub trait AsyncPacketState: Sized {
    /// What the state upholds between transport steps.
    spec fn wf(&self) -> bool;

    /// Whether the next inbound packet may advance the state.
    spec fn spec_wants_read(&self) -> bool;

    /// The payload the state asks to send next, with its flush wish.
    spec fn spec_write_packet(&self) -> Option<(Seq<u8>, bool)>;

    /// The negotiated names and session identifier the state has resolved
    /// with, once it has.
    spec fn spec_result(&self) -> Option<
        (crate::handshake::NegotiatedAlgorithmView, Seq<u8>),
    >;

    /// May the next inbound packet advance this state?
    fn wants_read(&self) -> (r: bool)
        requires
            self.wf(),
        ensures
            r == self.spec_wants_read(),
    ;

    /// Deliver one whole packet payload; its first byte is the message
    /// number.  Reading alone never resolves the handshake: that takes the
    /// NEWKEYS flush acknowledgement and a progression step.
    fn on_read(&mut self, msg: &[u8]) -> (r: Result<(), HandshakeError>)
        requires
            old(self).wf(),
            msg@.len() <= MAX_STRING_LEN,
        ensures
            final(self).wf(),
            final(self).spec_result() == old(self).spec_result(),
    ;

    /// The state's next outbound packet, if any.
    fn write_packet(&self) -> (r: Option<PacketWriteRequest>)
        requires
            self.wf(),
        ensures
            r is Some <==> self.spec_write_packet() is Some,
            r matches Some(req) ==> self.spec_write_packet() == Some((req.payload@, req.flush))
                && req.payload@.len() <= MAX_STRING_LEN,
    ;

    /// The writer reports that the packet left the buffer.  The request is
    /// thereby spent: the state asks for nothing until a later stage has a
    /// new packet.
    fn on_flush(&mut self) -> (r: Result<(), HandshakeError>)
        requires
            old(self).wf(),
        ensures
            final(self).wf(),
            final(self).spec_write_packet() is None,
    ;

    /// The state's own progression: a result once it has one, a bare Ready
    /// when an inner stage finished and polling should continue.  A context
    /// comes out only once the state holds it resolved, and its session
    /// identifier is a 32-byte exchange hash.
    fn poll(&mut self) -> (r: Result<Async<Option<SecureContext>>, HandshakeError>)
        requires
            old(self).wf(),
        ensures
            final(self).wf(),
            r matches Ok(Async::Ready(Some(ctx))) ==> old(self).spec_result() == Some(
                (ctx.spec_neg(), ctx.spec_session_id()),
            ) && ctx.spec_session_id().len() == 32,
    ;
}

/// Where the inbound side of the transport stands.
enum PacketReadState {
    /// Waiting for the five header bytes.
    Idle,
    /// The header was accepted; waiting for packet_length - 1 more bytes.
    ReadPayload(u32, u8),
}

/// Where the outbound side of the transport stands.
enum PacketWriteState {
    /// No packet in progress.
    Idle,
    /// A frame for this request, with the chosen packet_length and
    /// padding_length, still has to enter the writer.
    WritePayload(PacketWriteRequest, u32, u8),
    /// The frame is in the writer; it asked to be flushed through.
    Flush,
}

/// Build one frame: header, payload, and fresh random padding.
fn build_frame<RNG: rand::Rng>(
    rng: &mut RNG,
    payload: &Vec<u8>,
    pkt_len: u32,
    pad_len: u8,
) -> (r: Vec<u8>)
    requires
        pkt_len == payload@.len() + 1 + pad_len,
    ensures
        exists|padding: Seq<u8>|
            padding.len() == pad_len && r@ == frame_bytes(payload@, padding),
{
    let mut v: Vec<u8> = Vec::new();
    let header = hton(pkt_len);
    v.extend_from_slice(header.as_slice());
    v.push(pad_len);
    v.extend_from_slice(payload.as_slice());
    let padding = crate::crypto::random_bytes_from(rng, pad_len as usize);
    v.extend_from_slice(padding.as_slice());
    proof {
        assert(v@ =~= frame_bytes(payload@, padding@));
    }
    v
}

/// Drives one handshake state over a buffered reader and writer: each poll
/// writes as far as the sink allows, reads as far as the source allows, and
/// then lets the state progress.  Two ghost logs record its history: the
/// frames framed for the writer, and the payloads delivered to the state.
pub struct AsyncPacketTransport<R, W, RNG, T> {
    rd: AsyncBufReader<R>,
    rd_st: PacketReadState,
    wr: AsyncBufWriter<W>,
    wr_st: PacketWriteState,
    rng: RNG,
    st: T,
    queued: Ghost<Seq<(Seq<u8>, Seq<u8>)>>,
    delivered: Ghost<Seq<Seq<u8>>>,
}

impl<R, W, RNG, T: AsyncPacketState> AsyncPacketTransport<R, W, RNG, T> {
    /// The reader and writer buffers are sound, an accepted header is an
    /// admissible one, and a pending frame fits its chosen padding and the
    /// unencrypted layer's eight-byte alignment.
    pub closed spec fn wf(&self) -> bool {
        &&& self.rd.wf()
        &&& self.wr.wf()
        &&& self.st.wf()
        &&& self.rd_st matches PacketReadState::ReadPayload(pkt_len, pad_len) ==> pkt_len >= 16
            && pad_len + 1 <= pkt_len
        &&& self.wr_st matches PacketWriteState::WritePayload(req, pkt_len, pad_len) ==> pkt_len
            == req.payload@.len() + 1 + pad_len && pad_len >= 4 && req.payload@.len()
            <= MAX_STRING_LEN && (pkt_len + 4) % 8 == 0
    }

    /// No packet is being read.
    pub closed spec fn spec_read_idle(&self) -> bool {
        self.rd_st is Idle
    }

    /// No packet is being written or flushed.
    pub closed spec fn spec_write_idle(&self) -> bool {
        self.wr_st is Idle
    }

    /// The bytes the reader holds and has not delivered.
    pub closed spec fn spec_reader_buffered(&self) -> Seq<u8> {
        self.rd@
    }

    /// The bytes the writer holds and has not handed to the sink.
    pub closed spec fn spec_writer_buffered(&self) -> Seq<u8> {
        self.wr@
    }

    /// The handshake state the transport drives.
    pub closed spec fn spec_state(&self) -> T {
        self.st
    }

    /// Every (payload, padding) pair framed for the writer so far, oldest
    /// first; `frame_bytes` of each pair is what entered the writer.
    pub closed spec fn spec_queued_frames(&self) -> Seq<(Seq<u8>, Seq<u8>)> {
        self.queued@
    }

    /// Every packet payload delivered to the state so far, oldest first.
    pub closed spec fn spec_delivered(&self) -> Seq<Seq<u8>> {
        self.delivered@
    }

    /// Wrap a reader, a writer, a random source and a state.  Construction
    /// performs no I/O: both sides start idle, both buffers keep their
    /// bytes, and the state is stored as given.
    pub fn new(rd: AsyncBufReader<R>, wr: AsyncBufWriter<W>, rng: RNG, st: T) -> (r:
        AsyncPacketTransport<R, W, RNG, T>)
        requires
            rd.wf(),
            wr.wf(),
            st.wf(),
        ensures
            r.wf(),
            r.spec_read_idle(),
            r.spec_write_idle(),
            r.spec_reader_buffered() == rd@,
            r.spec_writer_buffered() == wr@,
            r.spec_state() == st,
            r.spec_queued_frames() == Seq::<(Seq<u8>, Seq<u8>)>::empty(),
            r.spec_delivered() == Seq::<Seq<u8>>::empty(),
    {
        AsyncPacketTransport {
            rd,
            rd_st: PacketReadState::Idle,
            wr,
            wr_st: PacketWriteState::Idle,
            rng,
            st,
            queued: Ghost(Seq::empty()),
            delivered: Ghost(Seq::empty()),
        }
    }
}

impl<R: std::io::Read, W: std::io::Write, RNG: rand::Rng + rand::RngExt, T: AsyncPacketState>
    AsyncPacketTransport<R, W, RNG, T> {
    /// The write pass, one step: frame the state's pending packet and hand
    /// the whole frame to the writer, or drive the flush a framed packet
    /// asked for.  Either the frame log is unchanged and the writer only
    /// drained towards the sink, or exactly one frame — the packet the
    /// state requested, with fresh padding of the chosen length — was
    /// logged and entered the writer, less the front part the sink took
    /// directly.
    fn try_write(&mut self) -> (r: Result<(), HandshakeError>)
        requires
            old(self).wf(),
        ensures
            final(self).wf(),
            final(self).delivered == old(self).delivered,
            final(self).rd == old(self).rd,
            final(self).rd_st == old(self).rd_st,
            (old(self).wr_st is Idle && old(self).st.spec_write_packet() is None) ==> *final(self)
                == *old(self),
            (final(self).queued@ == old(self).queued@ && exists|k: int|
                0 <= k <= old(self).wr@.len() && final(self).wr@ == old(self).wr@.skip(k)) || (
            exists|payload: Seq<u8>, padding: Seq<u8>, k: int, m: int|
                #![auto]
                {
                    &&& final(self).queued@ == old(self).queued@.push((payload, padding))
                    &&& 4 <= padding.len() <= 255
                    &&& payload.len() + 1 + padding.len() <= u32::MAX
                    &&& (payload.len() + 5 + padding.len()) % 8 == 0
                    &&& (old(self).wr_st matches PacketWriteState::WritePayload(req, pk, pd)
                        ==> payload == req.payload@ && padding.len() == pd)
                    &&& (old(self).wr_st is Idle ==> (old(
                        self,
                    ).st.spec_write_packet() matches Some(pf) && payload == pf.0))
                    &&& 0 <= k <= old(self).wr@.len()
                    &&& 0 <= m <= frame_bytes(payload, padding).len()
                    &&& final(self).wr@ == old(self).wr@.skip(k) + frame_bytes(
                        payload,
                        padding,
                    ).skip(m)
                    &&& (m > 0 ==> k == old(self).wr@.len())
                }),
    {
        match &self.wr_st {
            PacketWriteState::Idle => {
                match self.st.write_packet() {
                    None => {
                        proof {
                            assert(self.wr@ =~= old(self).wr@.skip(0));
                        }
                        return Ok(());
                    },
                    Some(req) => {
                        match compute_pad_len(req.payload.len(), 0, &mut self.rng) {
                            Err(()) => {
                                proof {
                                    assert(self.wr@ =~= old(self).wr@.skip(0));
                                }
                                return Err(HandshakeError::unspecified());
                            },
                            Ok((pkt_len, pad_len)) => {
                                self.wr_st = PacketWriteState::WritePayload(req, pkt_len, pad_len);
                            },
                        }
                    },
                }
            },
            _ => (),
        }
        match &self.wr_st {
            PacketWriteState::Idle => {
                proof {
                    assert(self.wr@ =~= old(self).wr@.skip(0));
                }
                return Ok(());
            },
            PacketWriteState::WritePayload(req, pkt_len, pad_len) => {
                let pkt_len = *pkt_len;
                let pad_len = *pad_len;
                if pkt_len as usize != req.payload.len() + 1 + pad_len as usize {
                    proof {
                        assert(self.wr@ =~= old(self).wr@.skip(0));
                    }
                    return Err(HandshakeError::Panic);
                }
                let frame = build_frame(&mut self.rng, &req.payload, pkt_len, pad_len);
                let ghost payload_g = req.payload@;
                let ghost padding_g = choose|p: Seq<u8>|
                    p.len() == pad_len && frame@ == frame_bytes(req.payload@, p);
                let flush = req.flush;
                match self.wr.nb_write_exact(frame.as_slice()) {
                    Err(k) => {
                        return Err(HandshakeError::io_error(k));
                    },
                    Ok(Async::NotReady) => {
                        return Ok(());
                    },
                    Ok(Async::Ready(())) => {
                        proof {
                            self.queued@ = self.queued@.push((payload_g, padding_g));
                            assert(frame@ == frame_bytes(payload_g, padding_g));
                        }
                        if flush {
                            self.wr_st = PacketWriteState::Flush;
                            Ok(())
                        } else {
                            self.wr_st = PacketWriteState::Idle;
                            match self.st.on_flush() {
                                Err(e) => Err(e),
                                Ok(()) => Ok(()),
                            }
                        }
                    },
                }
            },
            PacketWriteState::Flush => {
                match self.wr.nb_flush() {
                    Err(k) => Err(HandshakeError::io_error(k)),
                    Ok(Async::NotReady) => Ok(()),
                    Ok(Async::Ready(())) => {
                        self.wr_st = PacketWriteState::Idle;
                        match self.st.on_flush() {
                            Err(e) => Err(e),
                            Ok(()) => Ok(()),
                        }
                    },
                }
            },
        }
    }

    /// The read pass, one step: either accept or reject the five header
    /// bytes, or complete the pending body and deliver the payload — the
    /// first `packet_length - padding_length - 1` body bytes — to the state.
    fn try_read(&mut self) -> (r: Result<(), HandshakeError>)
        requires
            old(self).wf(),
        ensures
            final(self).wf(),
            final(self).queued == old(self).queued,
            final(self).wr == old(self).wr,
            final(self).wr_st == old(self).wr_st,
            old(self).rd_st is Idle ==> (r == Err::<(), HandshakeError>(
                HandshakeError::InvalidHeader,
            ) ==> exists|h: Seq<u8>, fresh: Seq<u8>|
                #![auto]
                h.len() == 5 && old(self).rd@ + fresh == h + final(self).rd@ && (dec_u32(
                    h[0],
                    h[1],
                    h[2],
                    h[3],
                ) < 16 || dec_u32(h[0], h[1], h[2], h[3]) < h[4] + 1)),
            old(self).rd_st is Idle ==> final(self).delivered == old(self).delivered,
            old(self).rd_st is Idle ==> (final(self).rd_st matches PacketReadState::ReadPayload(
                pkt_len,
                pad_len,
            ) ==> r is Ok && pkt_len >= 16 && pad_len + 1 <= pkt_len && exists|
                h: Seq<u8>,
                fresh: Seq<u8>,
            |
                #![auto]
                h.len() == 5 && old(self).rd@ + fresh == h + final(self).rd@ && pkt_len == dec_u32(
                    h[0],
                    h[1],
                    h[2],
                    h[3],
                ) && pad_len == h[4]),
            old(self).rd_st matches PacketReadState::ReadPayload(pkt_len, pad_len) ==> ({
                ||| (final(self).rd_st == old(self).rd_st && final(self).delivered == old(
                    self,
                ).delivered && exists|fresh: Seq<u8>|
                    #![auto]
                    final(self).rd@ == old(self).rd@ + fresh)
                ||| (final(self).rd_st is Idle && exists|body: Seq<u8>, fresh: Seq<u8>|
                    #![auto]
                    body.len() == pkt_len - 1 && old(self).rd@ + fresh == body + final(self).rd@
                        && final(self).delivered@ == old(self).delivered@.push(
                        body.take(pkt_len - pad_len - 1),
                    ))
            }),
            (old(self).rd_st is Idle && old(self).st.spec_wants_read() && old(self).rd@.len()
                >= 5) ==> ({
                let h = old(self).rd@;
                let pkt = dec_u32(h[0], h[1], h[2], h[3]);
                &&& final(self).rd@ == h.skip(5)
                &&& ((pkt < 16 || pkt < h[4] + 1) ==> r == Err::<(), HandshakeError>(
                    HandshakeError::InvalidHeader,
                ))
                &&& (!(pkt < 16 || pkt < h[4] + 1) ==> r is Ok && final(self).rd_st
                    == PacketReadState::ReadPayload(pkt as u32, h[4]))
            }),
            old(self).rd_st matches PacketReadState::ReadPayload(pkt_len, pad_len) ==> (old(
                self,
            ).rd@.len() >= pkt_len - 1 ==> final(self).rd_st is Idle && final(self).rd@ == old(
                self,
            ).rd@.skip(pkt_len - 1) && final(self).delivered@ == old(self).delivered@.push(
                old(self).rd@.take(pkt_len - pad_len - 1),
            )),
    {
        match &self.rd_st {
            PacketReadState::Idle => {
                if !self.st.wants_read() {
                    proof {
                        assert(old(self).rd@ + Seq::<u8>::empty() =~= old(self).rd@);
                    }
                    return Ok(());
                }
                match self.rd.nb_read_exact(5) {
                    Err(k) => Err(HandshakeError::io_error(k)),
                    Ok(Async::NotReady) => Ok(()),
                    Ok(Async::Ready(header)) => {
                        let pkt_len = ntoh(header.as_slice());
                        let pad_len = header[4];
                        if pkt_len < 16 || pkt_len < (pad_len as u32) + 1 {
                            proof {
                                let fresh = choose|fresh: Seq<u8>|
                                    old(self).rd@ + fresh == header@ + self.rd@;
                                assert(old(self).rd@ + fresh == header@ + self.rd@);
                            }
                            return Err(HandshakeError::invalid_header());
                        }
                        self.rd_st = PacketReadState::ReadPayload(pkt_len, pad_len);
                        Ok(())
                    },
                }
            },
            PacketReadState::ReadPayload(pkt_len, pad_len) => {
                let pkt_len = *pkt_len;
                let pad_len = *pad_len;
                match self.rd.nb_read_exact((pkt_len - 1) as usize) {
                    Err(k) => {
                        proof {
                            assert(self.rd@ =~= old(self).rd@ + Seq::<u8>::empty());
                        }
                        Err(HandshakeError::io_error(k))
                    },
                    Ok(Async::NotReady) => Ok(()),
                    Ok(Async::Ready(body)) => {
                        let payload_len = (pkt_len - pad_len as u32 - 1) as usize;
                        let payload = vstd::slice::slice_subrange(
                            body.as_slice(),
                            0,
                            payload_len,
                        );
                        self.rd_st = PacketReadState::Idle;
                        proof {
                            self.delivered@ = self.delivered@.push(payload@);
                            if old(self).rd@.len() >= pkt_len - 1 {
                                assert(body@ == old(self).rd@.take(pkt_len - 1));
                                assert(payload@ =~= old(self).rd@.take(pkt_len - pad_len - 1));
                            }
                        }
                        match self.st.on_read(payload) {
                            Err(e) => Err(e),
                            Ok(()) => Ok(()),
                        }
                    },
                }
            },
        }
    }

    /// One cooperative step: write as far as the sink allows, read as far
    /// as the source allows, then let the state progress.  The frame and
    /// delivery logs only ever grow, and a Ready context carries the
    /// 32-byte exchange hash the state resolved with.
    pub fn poll(&mut self) -> (r: Result<Async<SecureContext>, HandshakeError>)
        requires
            old(self).wf(),
        ensures
            final(self).wf(),
            old(self).spec_queued_frames().is_prefix_of(final(self).spec_queued_frames()),
            old(self).spec_delivered().is_prefix_of(final(self).spec_delivered()),
            r matches Ok(Async::Ready(ctx)) ==> ctx.spec_session_id().len() == 32,
    {
        proof {
            lemma_push_keeps_prefix_frames(old(self).queued@, old(self).queued@);
            lemma_push_keeps_prefix_payloads(old(self).delivered@, old(self).delivered@);
        }
        let mut rounds: u8 = 8;
        while rounds > 0
            invariant
                self.wf(),
                old(self).queued@.is_prefix_of(self.queued@),
                old(self).delivered@.is_prefix_of(self.delivered@),
            decreases rounds,
        {
            rounds = rounds - 1;
            let ghost pre_queued = self.queued@;
            let ghost pre_delivered = self.delivered@;
            match self.try_write() {
                Err(e) => {
                    return Err(e);
                },
                Ok(()) => (),
            }
            proof {
                lemma_push_keeps_prefix_frames(pre_queued, self.queued@);
            }
            let ghost pre_delivered2 = self.delivered@;
            match self.try_read() {
                Err(e) => {
                    return Err(e);
                },
                Ok(()) => (),
            }
            proof {
                lemma_push_keeps_prefix_payloads(pre_delivered2, self.delivered@);
            }
            match self.st.poll() {
                Err(e) => {
                    return Err(e);
                },
                Ok(Async::NotReady) => {
                    return Ok(Async::NotReady);
                },
                Ok(Async::Ready(Some(ctx))) => {
                    return Ok(Async::Ready(ctx));
                },
                Ok(Async::Ready(None)) => (),
            }
        }
        Ok(Async::NotReady)
    }
}

/// A log extended by nothing or one entry keeps its old entries in front.
proof fn lemma_push_keeps_prefix_frames(a: Seq<(Seq<u8>, Seq<u8>)>, b: Seq<(Seq<u8>, Seq<u8>)>)
    requires
        a.is_prefix_of(b) || (exists|x: (Seq<u8>, Seq<u8>)| b == a.push(x)) || b == a,
    ensures
        a.is_prefix_of(b),
{
    if b == a {
        assert(a.is_prefix_of(b));
    } else if !a.is_prefix_of(b) {
        let x = choose|x: (Seq<u8>, Seq<u8>)| b == a.push(x);
        assert(b.subrange(0, a.len() as int) =~= a);
    }
}

/// A log extended by nothing or one entry keeps its old entries in front.
proof fn lemma_push_keeps_prefix_payloads(a: Seq<Seq<u8>>, b: Seq<Seq<u8>>)
    requires
        a.is_prefix_of(b) || (exists|x: Seq<u8>| b == a.push(x)) || b == a,
    ensures
        a.is_prefix_of(b),
{
    if b == a {
        assert(a.is_prefix_of(b));
    } else if !a.is_prefix_of(b) {
        let x = choose|x: Seq<u8>| b == a.push(x);
        assert(b.subrange(0, a.len() as int) =~= a);
    }
}

} // verus!
