//! Wire formats: control messages, probe payloads and the length prefix
//! that delimits control messages on a byte stream.

use vstd::prelude::*;
use vstd::bytes::*;
use vstd::slice::*;

verus! {

/// The largest number of bytes that one relay step or one probe may carry.
pub const MAX_FRAME: usize = 65535;

/// Bytes of a length prefix.
pub const PREFIX_LEN: usize = 4;

/// Bytes of an encoded handshake message: the tag, then two 64-bit fields.
pub const HANDSHAKE_LEN: usize = 20;

/// The index of the handshake among the kinds of control message.
pub const HANDSHAKE_TAG: u32 = 0;

/// Bytes of an encoded probe message: three 64-bit fields.
pub const PROBE_LEN: usize = 24;

/// The kind of transport that a session measures over.
#[derive(Clone, Copy, Debug, PartialEq, Eq, Structural)]
pub enum TestType {
    Udp,
    Tcp,
}

impl TestType {
    pub open spec fn spec_code(self) -> u64 {
        match self {
            TestType::Udp => 0,
            TestType::Tcp => 1,
        }
    }

    /// The number that stands for this kind on the wire.
    pub fn code(self) -> (r: u64)
        ensures
            r == self.spec_code(),
    {
        match self {
            TestType::Udp => 0,
            TestType::Tcp => 1,
        }
    }

    pub open spec fn spec_from_code(code: u64) -> Option<TestType> {
        if code == 0 {
            Some(TestType::Udp)
        } else if code == 1 {
            Some(TestType::Tcp)
        } else {
            None
        }
    }

    /// The kind that a wire number stands for, if any.
    pub fn from_code(code: u64) -> (r: Option<TestType>)
        ensures
            r == Self::spec_from_code(code),
    {
        if code == 0 {
            Some(TestType::Udp)
        } else if code == 1 {
            Some(TestType::Tcp)
        } else {
            None
        }
    }
}

/// Declares a session's identity and the transport it intends to use.
#[derive(Clone, Copy, Debug, PartialEq, Eq, Structural)]
pub struct ClientHandshake {
    pub id: u64,
    pub protocol: u64,
}

/// A message on the control channel.
#[derive(Clone, Copy, Debug, PartialEq, Eq, Structural)]
pub enum ClientMessage {
    Handshake(ClientHandshake),
}

/// The payload of one probe.
#[derive(Clone, Copy, Debug, PartialEq, Eq, Structural)]
pub struct LatencyMsg {
    pub id: u64,
    pub seq: u64,
    pub timestamp: u64,
}

/// The encoding of a handshake message: its tag as four little-endian
/// bytes, then `id` and `protocol` as eight each.
pub open spec fn handshake_bytes(id: u64, protocol: u64) -> Seq<u8> {
    tagged_pair_bytes(HANDSHAKE_TAG, id, protocol)
}

/// A 32-bit tag and two 64-bit numbers, one after another, each at its
/// fixed width with the least significant byte first.
pub open spec fn tagged_pair_bytes(tag: u32, a: u64, b: u64) -> Seq<u8> {
    spec_u32_to_le_bytes(tag) + spec_u64_to_le_bytes(a) + spec_u64_to_le_bytes(b)
}

/// What a control message's bytes decode to.
pub open spec fn decoded_message(bytes: Seq<u8>) -> Option<ClientMessage> {
    if bytes.len() == HANDSHAKE_LEN && spec_u32_from_le_bytes(bytes.subrange(0, 4))
        == HANDSHAKE_TAG {
        Some(
            ClientMessage::Handshake(
                ClientHandshake {
                    id: spec_u64_from_le_bytes(bytes.subrange(4, 12)),
                    protocol: spec_u64_from_le_bytes(bytes.subrange(12, 20)),
                },
            ),
        )
    } else {
        None
    }
}

/// The encoding of a probe message: its three fields, eight little-endian
/// bytes each.
pub open spec fn probe_bytes(msg: LatencyMsg) -> Seq<u8> {
    spec_u64_to_le_bytes(msg.id) + spec_u64_to_le_bytes(msg.seq) + spec_u64_to_le_bytes(
        msg.timestamp,
    )
}

/// What a probe payload decodes to. Bytes after the message are padding.
pub open spec fn decoded_probe(bytes: Seq<u8>) -> Option<LatencyMsg> {
    if bytes.len() >= PROBE_LEN {
        Some(
            LatencyMsg {
                id: spec_u64_from_le_bytes(bytes.subrange(0, 8)),
                seq: spec_u64_from_le_bytes(bytes.subrange(8, 16)),
                timestamp: spec_u64_from_le_bytes(bytes.subrange(16, 24)),
            },
        )
    } else {
        None
    }
}

/// `n` bytes of padding.
pub open spec fn padding(n: nat) -> Seq<u8> {
    Seq::new(n, |i: int| 0u8)
}

/// A probe payload of exactly `size` bytes: the encoded probe, then padding.
/// A size too small for a probe leaves only padding.
pub open spec fn probe_payload(msg: LatencyMsg, size: nat) -> Seq<u8> {
    if size >= PROBE_LEN {
        probe_bytes(msg) + padding((size - PROBE_LEN) as nat)
    } else {
        padding(size)
    }
}

/// A payload behind its length prefix.
pub open spec fn framed(payload: Seq<u8>) -> Seq<u8> {
    spec_u32_to_le_bytes(payload.len() as u32) + payload
}

/// The first delimited message of a byte stream and the number of bytes it
/// takes up, or `None` while the message is not yet complete.
pub open spec fn first_frame(buf: Seq<u8>) -> Option<(Seq<u8>, int)> {
    if buf.len() < PREFIX_LEN {
        None
    } else {
        let n = spec_u32_from_le_bytes(buf.subrange(0, 4)) as int;
        if buf.len() - PREFIX_LEN < n {
            None
        } else {
            Some((buf.subrange(4, 4 + n), 4 + n))
        }
    }
}

/// Every complete delimited message at the front of a byte stream, in
/// order.
pub open spec fn all_frames(buf: Seq<u8>) -> Seq<Seq<u8>>
    decreases buf.len(),
{
    match first_frame(buf) {
        Some((payload, used)) => seq![payload] + all_frames(buf.skip(used)),
        None => Seq::empty(),
    }
}

/// What is left of a byte stream behind its complete messages: the start of
/// a message that has not yet arrived in full, or nothing.
pub open spec fn after_frames(buf: Seq<u8>) -> Seq<u8>
    decreases buf.len(),
{
    match first_frame(buf) {
        Some((payload, used)) => after_frames(buf.skip(used)),
        None => buf,
    }
}

/// The round-trip time of a probe sent at `sent` whose echo arrived at `now`.
pub open spec fn spec_rtt(sent: u64, now: u64) -> Option<u64> {
    if now >= sent {
        Some((now - sent) as u64)
    } else {
        None
    }
}

/// Calls `bincode::serialize` on the triple of a tag and two numbers. With
/// the crate's default configuration an integer is written at its fixed
/// width, least significant byte first, and a tuple as its fields one after
/// another, which is also how the crate writes an enum's variant, by its
/// index, that holds a struct of two such fields. Writing integers into a
/// vector without a size limit does not fail.
#[verifier::external_body]
fn bincode_tagged_pair(tag: u32, a: u64, b: u64) -> (r: Vec<u8>)
    ensures
        r@ == tagged_pair_bytes(tag, a, b),
{
    bincode::serialize(&(tag, a, b)).unwrap()
}

impl ClientMessage {
    /// The message's bytes on the control channel, without a length prefix.
    pub fn encode(&self) -> (r: Vec<u8>)
        ensures
            r@ == match *self {
                ClientMessage::Handshake(h) => handshake_bytes(h.id, h.protocol),
            },
            decoded_message(r@) == Some(*self),
    {
        match self {
            ClientMessage::Handshake(h) => {
                proof {
                    lemma_handshake_round_trip(h.id, h.protocol);
                }
                bincode_tagged_pair(HANDSHAKE_TAG, h.id, h.protocol)
            },
        }
    }

    /// Reads one control message from exactly its bytes.
    pub fn decode(bytes: &[u8]) -> (r: Option<ClientMessage>)
        ensures
            r == decoded_message(bytes@),
    {
        if bytes.len() != HANDSHAKE_LEN {
            return None;
        }
        let tag: u32 = u32_from_le_bytes(slice_subrange(bytes, 0, 4));
        if tag != HANDSHAKE_TAG {
            return None;
        }
        let id: u64 = u64_from_le_bytes(slice_subrange(bytes, 4, 12));
        let protocol: u64 = u64_from_le_bytes(slice_subrange(bytes, 12, 20));
        Some(ClientMessage::Handshake(ClientHandshake { id, protocol }))
    }
}

impl LatencyMsg {
    /// The probe's bytes.
    pub fn encode(&self) -> (r: Vec<u8>)
        ensures
            r@ == probe_bytes(*self),
            r@.len() == PROBE_LEN,
    {
        proof {
            lemma_auto_spec_u64_to_from_le_bytes();
        }
        let mut out: Vec<u8> = u64_to_le_bytes(self.id);
        let mut seq_bytes: Vec<u8> = u64_to_le_bytes(self.seq);
        let mut ts_bytes: Vec<u8> = u64_to_le_bytes(self.timestamp);
        out.append(&mut seq_bytes);
        out.append(&mut ts_bytes);
        out
    }

    /// Reads a probe from the front of a payload.
    pub fn decode(bytes: &[u8]) -> (r: Option<LatencyMsg>)
        ensures
            r == decoded_probe(bytes@),
    {
        if bytes.len() < PROBE_LEN {
            return None;
        }
        let id: u64 = u64_from_le_bytes(slice_subrange(bytes, 0, 8));
        let seq: u64 = u64_from_le_bytes(slice_subrange(bytes, 8, 16));
        let timestamp: u64 = u64_from_le_bytes(slice_subrange(bytes, 16, 24));
        Some(LatencyMsg { id, seq, timestamp })
    }
}

fn zero_bytes(n: usize) -> (r: Vec<u8>)
    ensures
        r@ == padding(n as nat),
{
    let mut out: Vec<u8> = Vec::new();
    let mut i: usize = 0;
    while i < n
        invariant
            i <= n,
            out@ == padding(i as nat),
        decreases n - i,
    {
        out.push(0u8);
        i = i + 1;
        assert(out@ =~= padding(i as nat));
    }
    out
}

/// Composes a probe payload of exactly `size` bytes.
pub fn compose_probe(msg: &LatencyMsg, size: usize) -> (r: Vec<u8>)
    ensures
        r@ == probe_payload(*msg, size as nat),
        r@.len() == size,
        size >= PROBE_LEN ==> decoded_probe(r@) == Some(*msg),
{
    if size >= PROBE_LEN {
        proof {
            lemma_probe_round_trip(*msg, padding((size - PROBE_LEN) as nat));
        }
        let mut out: Vec<u8> = msg.encode();
        let mut pad: Vec<u8> = zero_bytes(size - PROBE_LEN);
        out.append(&mut pad);
        out
    } else {
        zero_bytes(size)
    }
}

/// The round-trip time of a probe sent at `sent` whose echo arrived at
/// `now`, both in the same unit. An echo cannot arrive before its probe
/// left: such a pair has no round-trip time.
pub fn rtt(sent: u64, now: u64) -> (r: Option<u64>)
    ensures
        r == spec_rtt(sent, now),
{
    if now >= sent {
        Some(now - sent)
    } else {
        None
    }
}

/// Puts a length prefix in front of a payload. A payload whose length does
/// not fit the prefix cannot be framed.
pub fn frame(payload: &[u8]) -> (r: Option<Vec<u8>>)
    ensures
        payload@.len() <= u32::MAX ==> (r matches Some(v) && v@ == framed(payload@)),
        payload@.len() > u32::MAX ==> r is None,
{
    if payload.len() > 0xffff_ffff {
        return None;
    }
    let n: u32 = payload.len() as u32;
    let mut out: Vec<u8> = u32_to_le_bytes(n);
    out.extend_from_slice(payload);
    Some(out)
}

/// Takes the first delimited message off the front of a byte stream: its
/// payload and the number of bytes to drop from the stream, or `None` while
/// the stream does not yet hold the whole message.
pub fn deframe(buf: &[u8]) -> (r: Option<(Vec<u8>, usize)>)
    ensures
        match first_frame(buf@) {
            Some((payload, used)) => (r matches Some((v, u)) && v@ == payload && u == used),
            None => r is None,
        },
{
    if buf.len() < PREFIX_LEN {
        return None;
    }
    let n: u32 = u32_from_le_bytes(slice_subrange(buf, 0, 4));
    if buf.len() - PREFIX_LEN < n as usize {
        return None;
    }
    let end: usize = PREFIX_LEN + n as usize;
    let payload: Vec<u8> = slice_to_vec(slice_subrange(buf, 4, end));
    Some((payload, end))
}

/// Takes every complete message off the front of a stream's buffer, in
/// order, and leaves in the buffer the bytes of the message that has not yet
/// arrived in full.
pub fn drain_frames(buf: &mut Vec<u8>) -> (r: Vec<Vec<u8>>)
    ensures
        r@.len() == all_frames(old(buf)@).len(),
        forall|i: int| 0 <= i < r@.len() ==> (#[trigger] r@[i])@ == all_frames(old(buf)@)[i],
        final(buf)@ == after_frames(old(buf)@),
{
    let mut out: Vec<Vec<u8>> = Vec::new();
    let ghost mut got: Seq<Seq<u8>> = Seq::empty();
    let len: usize = buf.len();
    let mut pos: usize = 0;
    proof {
        assert(buf@.skip(0) =~= buf@);
        assert(got + all_frames(buf@) =~= all_frames(buf@));
    }
    loop
        invariant
            buf@ == old(buf)@,
            len == buf@.len(),
            pos <= len,
            out@.len() == got.len(),
            forall|i: int| 0 <= i < out@.len() ==> (#[trigger] out@[i])@ == got[i],
            all_frames(old(buf)@) == got + all_frames(old(buf)@.skip(pos as int)),
            after_frames(old(buf)@) == after_frames(old(buf)@.skip(pos as int)),
        ensures
            first_frame(old(buf)@.skip(pos as int)) is None,
        decreases len - pos,
    {
        let ghost cur = buf@.skip(pos as int);
        let rest: &[u8] = slice_subrange(buf.as_slice(), pos, len);
        assert(rest@ =~= cur);
        match deframe(rest) {
            Some((payload, used)) => {
                proof {
                    assert(cur.skip(used as int) =~= buf@.skip(pos + used));
                    assert((got + seq![payload@]) + all_frames(cur.skip(used as int)) =~= got + (
                    seq![payload@] + all_frames(cur.skip(used as int))));
                    got = got.push(payload@);
                    assert(got =~= got.drop_last() + seq![payload@]);
                }
                out.push(payload);
                pos = pos + used;
            },
            None => {
                break ;
            },
        }
    }
    let left: Vec<u8> = slice_to_vec(slice_subrange(buf.as_slice(), pos, len));
    proof {
        assert(left@ =~= old(buf)@.skip(pos as int));
        assert(got + Seq::<Seq<u8>>::empty() =~= got);
    }
    *buf = left;
    out
}

/// Decoding an encoded handshake message gives the message back.
pub proof fn lemma_handshake_round_trip(id: u64, protocol: u64)
    ensures
        handshake_bytes(id, protocol).len() == HANDSHAKE_LEN,
        decoded_message(handshake_bytes(id, protocol)) == Some(
            ClientMessage::Handshake(ClientHandshake { id, protocol }),
        ),
{
    lemma_auto_spec_u32_to_from_le_bytes();
    lemma_auto_spec_u64_to_from_le_bytes();
    let b = handshake_bytes(id, protocol);
    assert(b.subrange(0, 4) =~= spec_u32_to_le_bytes(HANDSHAKE_TAG));
    assert(b.subrange(4, 12) =~= spec_u64_to_le_bytes(id));
    assert(b.subrange(12, 20) =~= spec_u64_to_le_bytes(protocol));
}

/// Decoding an encoded probe gives the probe back, whatever padding follows.
pub proof fn lemma_probe_round_trip(msg: LatencyMsg, padding: Seq<u8>)
    ensures
        probe_bytes(msg).len() == PROBE_LEN,
        decoded_probe(probe_bytes(msg) + padding) == Some(msg),
{
    lemma_auto_spec_u64_to_from_le_bytes();
    let b = probe_bytes(msg) + padding;
    assert(b.subrange(0, 8) =~= spec_u64_to_le_bytes(msg.id));
    assert(b.subrange(8, 16) =~= spec_u64_to_le_bytes(msg.seq));
    assert(b.subrange(16, 24) =~= spec_u64_to_le_bytes(msg.timestamp));
}

/// A framed payload comes off the front of a stream unchanged, whatever
/// follows it, and takes the prefix and the payload with it.
pub proof fn lemma_frame_round_trip(payload: Seq<u8>, rest: Seq<u8>)
    requires
        payload.len() <= u32::MAX,
    ensures
        first_frame(framed(payload) + rest) == Some((payload, 4 + payload.len() as int)),
{
    lemma_auto_spec_u32_to_from_le_bytes();
    let n = payload.len() as u32;
    let b = framed(payload) + rest;
    assert(b.subrange(0, 4) =~= spec_u32_to_le_bytes(n));
    assert(b.subrange(4, 4 + payload.len() as int) =~= payload);
}

} // verus!
