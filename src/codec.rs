//! Wire framing: `[u32 LE payload length][u64 LE timestamp ms][payload]`,
//! where the payload is every sample as four little-endian bytes.
use vstd::prelude::*;

verus! {

/// Bytes per sample on the wire.
pub const SAMPLE_BYTES: usize = 4;

/// Bytes in a frame header: the payload length and the timestamp.
pub const HEADER_BYTES: usize = 12;

/// Errors of frame decoding.
#[derive(Debug, Clone, Copy, PartialEq, Eq, Structural)]
pub enum FrameError {
    /// The payload length is not a multiple of the sample size.
    MalformedFrame,
    /// The chunk's payload does not fit the 32-bit length field.
    PayloadTooLarge,
}

/// The four little-endian bytes of `x`.
pub open spec fn u32_le(x: u32) -> Seq<u8> {
    seq![
        (x & 0xff) as u8,
        ((x >> 8u32) & 0xff) as u8,
        ((x >> 16u32) & 0xff) as u8,
        ((x >> 24u32) & 0xff) as u8,
    ]
}

/// The eight little-endian bytes of `x`.
pub open spec fn u64_le(x: u64) -> Seq<u8> {
    seq![
        (x & 0xff) as u8,
        ((x >> 8u64) & 0xff) as u8,
        ((x >> 16u64) & 0xff) as u8,
        ((x >> 24u64) & 0xff) as u8,
        ((x >> 32u64) & 0xff) as u8,
        ((x >> 40u64) & 0xff) as u8,
        ((x >> 48u64) & 0xff) as u8,
        ((x >> 56u64) & 0xff) as u8,
    ]
}

/// The `u32` whose little-endian bytes are `b[at..at + 4]`.
pub open spec fn le_u32_at(b: Seq<u8>, at: int) -> u32 {
    (b[at] as u32) | ((b[at + 1] as u32) << 8u32) | ((b[at + 2] as u32) << 16u32) | ((
    b[at + 3] as u32) << 24u32)
}

/// The `u64` whose little-endian bytes are `b[at..at + 8]`.
pub open spec fn le_u64_at(b: Seq<u8>, at: int) -> u64 {
    (b[at] as u64) | ((b[at + 1] as u64) << 8u64) | ((b[at + 2] as u64) << 16u64) | ((
    b[at + 3] as u64) << 24u64) | ((b[at + 4] as u64) << 32u64) | ((b[at + 5] as u64)
        << 40u64) | ((b[at + 6] as u64) << 48u64) | ((b[at + 7] as u64) << 56u64)
}

/// The payload bytes of a sequence of samples.
pub open spec fn samples_le(s: Seq<u32>) -> Seq<u8>
    decreases s.len(),
{
    if s.len() == 0 {
        Seq::empty()
    } else {
        samples_le(s.drop_last()) + u32_le(s.last())
    }
}

/// The samples that a payload of `b.len() / 4` whole samples holds.
pub open spec fn payload_samples(b: Seq<u8>) -> Seq<u32> {
    Seq::new(b.len() / 4, |i: int| le_u32_at(b, 4 * i))
}

/// A whole frame: header then payload.
pub open spec fn frame_bytes(s: Seq<u32>, timestamp_ms: u64) -> Seq<u8> {
    u32_le((4 * s.len()) as u32) + u64_le(timestamp_ms) + samples_le(s)
}

/// The payload length that a header starting at `b[0]` announces.
pub open spec fn header_len(b: Seq<u8>) -> u32 {
    le_u32_at(b, 0)
}

/// The timestamp that a header starting at `b[0]` carries.
pub open spec fn header_timestamp(b: Seq<u8>) -> u64 {
    le_u64_at(b, 4)
}

proof fn lemma_u32_le_inverse(x: u32)
    ensures
        le_u32_at(u32_le(x), 0) == x,
{
    let b = u32_le(x);
    let b0 = (x & 0xff) as u8;
    let b1 = ((x >> 8u32) & 0xff) as u8;
    let b2 = ((x >> 16u32) & 0xff) as u8;
    let b3 = ((x >> 24u32) & 0xff) as u8;
    assert(b[0] == b0 && b[1] == b1 && b[2] == b2 && b[3] == b3);
    assert((b0 as u32) | ((b1 as u32) << 8u32) | ((b2 as u32) << 16u32) | ((b3 as u32) << 24u32)
        == x) by (bit_vector)
        requires
            b0 == (x & 0xff) as u8,
            b1 == ((x >> 8u32) & 0xff) as u8,
            b2 == ((x >> 16u32) & 0xff) as u8,
            b3 == ((x >> 24u32) & 0xff) as u8,
    ;
}

proof fn lemma_u64_le_inverse(x: u64)
    ensures
        le_u64_at(u64_le(x), 0) == x,
{
    let b = u64_le(x);
    let b0 = (x & 0xff) as u8;
    let b1 = ((x >> 8u64) & 0xff) as u8;
    let b2 = ((x >> 16u64) & 0xff) as u8;
    let b3 = ((x >> 24u64) & 0xff) as u8;
    let b4 = ((x >> 32u64) & 0xff) as u8;
    let b5 = ((x >> 40u64) & 0xff) as u8;
    let b6 = ((x >> 48u64) & 0xff) as u8;
    let b7 = ((x >> 56u64) & 0xff) as u8;
    assert(b[0] == b0 && b[1] == b1 && b[2] == b2 && b[3] == b3);
    assert(b[4] == b4 && b[5] == b5 && b[6] == b6 && b[7] == b7);
    assert((b0 as u64) | ((b1 as u64) << 8u64) | ((b2 as u64) << 16u64) | ((b3 as u64) << 24u64)
        | ((b4 as u64) << 32u64) | ((b5 as u64) << 40u64) | ((b6 as u64) << 48u64) | ((
    b7 as u64) << 56u64) == x) by (bit_vector)
        requires
            b0 == (x & 0xff) as u8,
            b1 == ((x >> 8u64) & 0xff) as u8,
            b2 == ((x >> 16u64) & 0xff) as u8,
            b3 == ((x >> 24u64) & 0xff) as u8,
            b4 == ((x >> 32u64) & 0xff) as u8,
            b5 == ((x >> 40u64) & 0xff) as u8,
            b6 == ((x >> 48u64) & 0xff) as u8,
            b7 == ((x >> 56u64) & 0xff) as u8,
    ;
}

/// The payload of `s` has four bytes per sample, sample `i` at `4 * i`.
pub proof fn lemma_samples_le_layout(s: Seq<u32>)
    ensures
        samples_le(s).len() == 4 * s.len(),
        forall|i: int, k: int|
            0 <= i < s.len() && 0 <= k < 4 ==> #[trigger] samples_le(s)[4 * i + k]
                == u32_le(s[i])[k],
    decreases s.len(),
{
    if s.len() > 0 {
        let p = s.drop_last();
        lemma_samples_le_layout(p);
        assert forall|i: int, k: int|
            0 <= i < s.len() && 0 <= k < 4 implies #[trigger] samples_le(s)[4 * i + k]
                == u32_le(s[i])[k] by {
            if i < p.len() {
                assert(s[i] == p[i]);
            }
        }
    }
}

/// Decoding the payload of `s` gives back `s`.
pub proof fn lemma_payload_inverse(s: Seq<u32>)
    ensures
        payload_samples(samples_le(s)) == s,
{
    let b = samples_le(s);
    lemma_samples_le_layout(s);
    assert forall|i: int| 0 <= i < s.len() implies #[trigger] payload_samples(b)[i] == s[i] by {
        assert(b[4 * i + 0] == u32_le(s[i])[0]);
        assert(b[4 * i + 1] == u32_le(s[i])[1]);
        assert(b[4 * i + 2] == u32_le(s[i])[2]);
        assert(b[4 * i + 3] == u32_le(s[i])[3]);
        lemma_u32_le_inverse(s[i]);
    }
    assert(payload_samples(b) =~= s);
}

/// Reads the little-endian `u32` at `b[at..at + 4]`.
pub fn read_u32_le(b: &[u8], at: usize) -> (r: u32)
    requires
        at + 4 <= b@.len(),
    ensures
        r == le_u32_at(b@, at as int),
{
    (b[at] as u32) | ((b[at + 1] as u32) << 8u32) | ((b[at + 2] as u32) << 16u32) | ((b[at
        + 3] as u32) << 24u32)
}

/// Reads the little-endian `u64` at `b[at..at + 8]`.
pub fn read_u64_le(b: &[u8], at: usize) -> (r: u64)
    requires
        at + 8 <= b@.len(),
    ensures
        r == le_u64_at(b@, at as int),
{
    (b[at] as u64) | ((b[at + 1] as u64) << 8u64) | ((b[at + 2] as u64) << 16u64) | ((b[at
        + 3] as u64) << 24u64) | ((b[at + 4] as u64) << 32u64) | ((b[at + 5] as u64) << 40u64)
        | ((b[at + 6] as u64) << 48u64) | ((b[at + 7] as u64) << 56u64)
}

/// Appends the four little-endian bytes of `x`.
pub fn push_u32_le(out: &mut Vec<u8>, x: u32)
    ensures
        final(out)@ == old(out)@ + u32_le(x),
{
    out.push((x & 0xff) as u8);
    out.push(((x >> 8u32) & 0xff) as u8);
    out.push(((x >> 16u32) & 0xff) as u8);
    out.push(((x >> 24u32) & 0xff) as u8);
    assert(out@ =~= old(out)@ + u32_le(x));
}

/// Appends the eight little-endian bytes of `x`.
pub fn push_u64_le(out: &mut Vec<u8>, x: u64)
    ensures
        final(out)@ == old(out)@ + u64_le(x),
{
    out.push((x & 0xff) as u8);
    out.push(((x >> 8u64) & 0xff) as u8);
    out.push(((x >> 16u64) & 0xff) as u8);
    out.push(((x >> 24u64) & 0xff) as u8);
    out.push(((x >> 32u64) & 0xff) as u8);
    out.push(((x >> 40u64) & 0xff) as u8);
    out.push(((x >> 48u64) & 0xff) as u8);
    out.push(((x >> 56u64) & 0xff) as u8);
    assert(out@ =~= old(out)@ + u64_le(x));
}

/// Encodes one chunk stamped with `timestamp_ms` as a whole frame.
pub fn encode_frame(samples: &[u32], timestamp_ms: u64) -> (r: Vec<u8>)
    requires
        4 * samples@.len() <= u32::MAX,
    ensures
        r@ == frame_bytes(samples@, timestamp_ms),
{
    let n: usize = samples.len();
    let mut out: Vec<u8> = Vec::new();
    push_u32_le(&mut out, (4 * n) as u32);
    push_u64_le(&mut out, timestamp_ms);
    let ghost head = out@;
    let mut i: usize = 0;
    while i < n
        invariant
            n == samples@.len(),
            i <= n,
            head == u32_le((4 * n) as u32) + u64_le(timestamp_ms),
            out@ == head + samples_le(samples@.take(i as int)),
        decreases n - i,
    {
        push_u32_le(&mut out, samples[i]);
        assert(samples@.take(i + 1).drop_last() =~= samples@.take(i as int));
        i = i + 1;
    }
    assert(samples@.take(n as int) =~= samples@);
    out
}

/// Encodes one chunk stamped with `timestamp_ms`, or refuses a chunk whose
/// payload length does not fit the header.
pub fn encode_chunk(samples: &[u32], timestamp_ms: u64) -> (r: Result<Vec<u8>, FrameError>)
    ensures
        4 * samples@.len() <= u32::MAX <==> r is Ok,
        r matches Ok(b) ==> b@ == frame_bytes(samples@, timestamp_ms),
        r matches Err(e) ==> e == FrameError::PayloadTooLarge,
{
    if samples.len() > (u32::MAX as usize) / SAMPLE_BYTES {
        Err(FrameError::PayloadTooLarge)
    } else {
        Ok(encode_frame(samples, timestamp_ms))
    }
}

/// Decodes the header at the start of `bytes` into the payload length and
/// the timestamp.
pub fn decode_header(bytes: &[u8]) -> (r: (u32, u64))
    requires
        bytes@.len() >= HEADER_BYTES,
    ensures
        r == (header_len(bytes@), header_timestamp(bytes@)),
{
    (read_u32_le(bytes, 0), read_u64_le(bytes, 4))
}

/// Decodes the samples in `b[start..start + len]`, `len` a multiple of four.
fn decode_samples(b: &[u8], start: usize, len: usize) -> (r: Vec<u32>)
    requires
        start + len <= b@.len(),
        len % 4 == 0,
    ensures
        r@ == payload_samples(b@.subrange(start as int, start + len)),
{
    let ghost p = b@.subrange(start as int, start + len);
    let total: usize = b.len();
    let count: usize = len / 4;
    let mut out: Vec<u32> = Vec::new();
    let mut i: usize = 0;
    while i < count
        invariant
            count == len / 4,
            start + len <= b@.len(),
            total == b@.len(),
            len % 4 == 0,
            i <= count,
            p == b@.subrange(start as int, start + len),
            out@ == payload_samples(p).take(i as int),
        decreases count - i,
    {
        assert(4 * i + 4 <= len) by (nonlinear_arith)
            requires
                i < count,
                count == len / 4,
        ;
        let x = read_u32_le(b, start + 4 * i);
        assert(le_u32_at(p, 4 * i) == x);
        out.push(x);
        assert(out@ =~= payload_samples(p).take(i + 1));
        i = i + 1;
    }
    assert(payload_samples(p).take(count as int) =~= payload_samples(p));
    out
}

/// Decodes a payload into samples; fails when its length is not a whole
/// number of samples.
pub fn decode_payload(bytes: &[u8]) -> (r: Result<Vec<u32>, FrameError>)
    ensures
        bytes@.len() % 4 == 0 <==> r is Ok,
        r matches Ok(s) ==> s@ == payload_samples(bytes@),
        r matches Err(e) ==> e == FrameError::MalformedFrame,
{
    if bytes.len() % SAMPLE_BYTES != 0 {
        Err(FrameError::MalformedFrame)
    } else {
        let s = decode_samples(bytes, 0, bytes.len());
        assert(bytes@.subrange(0, bytes@.len() as int) =~= bytes@);
        Ok(s)
    }
}

/// One decoded frame.
pub struct Frame {
    /// The sender's wall-clock time in milliseconds when it was encoded.
    pub timestamp_ms: u64,
    /// The samples of the chunk.
    pub samples: Vec<u32>,
}

/// What the front of a byte buffer holds.
pub enum FrameParse {
    /// Fewer bytes than a whole frame: read more.
    Incomplete,
    /// The header announces a payload that is not whole samples.
    Malformed,
    /// A whole frame, and how many bytes it took.
    Complete(Frame, usize),
}

/// Parses the frame at the front of `bytes`.
pub fn parse_frame(bytes: &[u8]) -> (r: FrameParse)
    ensures
        bytes@.len() < HEADER_BYTES ==> r is Incomplete,
        bytes@.len() >= HEADER_BYTES ==> {
            let n = header_len(bytes@) as int;
            if n % 4 != 0 {
                r is Malformed
            } else if bytes@.len() < HEADER_BYTES + n {
                r is Incomplete
            } else {
                &&& r matches FrameParse::Complete(f, used)
                &&& used == HEADER_BYTES + n
                &&& f.timestamp_ms == header_timestamp(bytes@)
                &&& f.samples@ == payload_samples(bytes@.subrange(HEADER_BYTES as int, used as int))
            }
        },
{
    if bytes.len() < HEADER_BYTES {
        return FrameParse::Incomplete;
    }
    let (len, timestamp_ms) = decode_header(bytes);
    let n = len as usize;
    if n % SAMPLE_BYTES != 0 {
        FrameParse::Malformed
    } else if bytes.len() - HEADER_BYTES < n {
        FrameParse::Incomplete
    } else {
        let samples = decode_samples(bytes, HEADER_BYTES, n);
        FrameParse::Complete(Frame { timestamp_ms, samples }, HEADER_BYTES + n)
    }
}

/// Encoding a chunk and decoding the frame gives back the chunk bit for bit,
/// with its timestamp, and a header that announces four bytes per sample.
pub proof fn lemma_frame_round_trip(s: Seq<u32>, timestamp_ms: u64)
    requires
        4 * s.len() <= u32::MAX,
    ensures
        ({
            let f = frame_bytes(s, timestamp_ms);
            &&& f.len() == HEADER_BYTES + 4 * s.len()
            &&& header_len(f) == 4 * s.len()
            &&& header_timestamp(f) == timestamp_ms
            &&& payload_samples(f.subrange(HEADER_BYTES as int, f.len() as int)) == s
        }),
{
    let f = frame_bytes(s, timestamp_ms);
    let n = (4 * s.len()) as u32;
    lemma_samples_le_layout(s);
    lemma_u32_le_inverse(n);
    lemma_u64_le_inverse(timestamp_ms);
    let hl = u32_le(n);
    let ht = u64_le(timestamp_ms);
    assert(f.subrange(0, 4) =~= hl);
    assert(header_len(f) == le_u32_at(hl, 0));
    assert(header_timestamp(f) == le_u64_at(ht, 0));
    assert(f.subrange(HEADER_BYTES as int, f.len() as int) =~= samples_le(s));
    lemma_payload_inverse(s);
}

/// In a stream where a frame is followed by further bytes, the header's
/// payload length is exactly the number of bytes between the header and the
/// next frame: they are the chunk's payload, and what follows them is the
/// rest of the stream.
pub proof fn lemma_header_delimits_frame(s: Seq<u32>, timestamp_ms: u64, rest: Seq<u8>)
    requires
        4 * s.len() <= u32::MAX,
    ensures
        ({
            let b = frame_bytes(s, timestamp_ms) + rest;
            let n = header_len(b) as int;
            &&& n == samples_le(s).len()
            &&& b.subrange(HEADER_BYTES as int, HEADER_BYTES + n) == samples_le(s)
            &&& b.subrange(HEADER_BYTES + n, b.len() as int) == rest
        }),
{
    let f = frame_bytes(s, timestamp_ms);
    let b = f + rest;
    lemma_frame_round_trip(s, timestamp_ms);
    lemma_samples_le_layout(s);
    assert(header_len(b) == header_len(f));
    let n = header_len(b) as int;
    assert(b.subrange(HEADER_BYTES as int, HEADER_BYTES + n) =~= samples_le(s));
    assert(b.subrange(HEADER_BYTES + n, b.len() as int) =~= rest);
}

} // verus!
