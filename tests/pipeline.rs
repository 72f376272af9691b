use netaudio::capture::{capture_chunk, capture_into, chunk_len, FRAME_SIZE};
use netaudio::codec::{
    decode_header, decode_payload, encode_chunk, encode_frame, parse_frame, read_u32_le,
    read_u64_le, FrameError, FrameParse, HEADER_BYTES,
};
use netaudio::handoff::{DropPolicy, HandoffQueue, Offer};
use netaudio::jitter::{JitterBuffer, SILENCE};
use netaudio::latency::latency_ms;
use netaudio::receiver::{deliver, FrameReader, ReadPhase, ReadStep};
use netaudio::sender::next_frame;

fn bits(xs: &[f32]) -> Vec<u32> {
    xs.iter().map(|x| x.to_bits()).collect()
}

fn chunk(start: u32, n: u32) -> Vec<u32> {
    (start..start + n).collect()
}

#[test]
fn encode_frame_exact_bytes() {
    let samples = bits(&[1.0, -1.0]);
    let b = encode_frame(&samples, 0x0102_0304_0506_0708);
    assert_eq!(
        b,
        vec![
            8, 0, 0, 0, 8, 7, 6, 5, 4, 3, 2, 1, 0x00, 0x00, 0x80, 0x3f, 0x00, 0x00, 0x80, 0xbf
        ]
    );
}

#[test]
fn encode_empty_chunk_is_header_only() {
    let b = encode_frame(&[], 7);
    assert_eq!(b, vec![0, 0, 0, 0, 7, 0, 0, 0, 0, 0, 0, 0]);
    assert_eq!(decode_header(&b), (0, 7));
}

#[test]
fn encode_chunk_accepts_ordinary_chunk() {
    let samples = bits(&[0.5]);
    assert_eq!(encode_chunk(&samples, 1), Ok(encode_frame(&samples, 1)));
}

#[test]
fn read_le_integers() {
    let b = [0xaa, 0x78, 0x56, 0x34, 0x12, 9, 8, 7, 6, 5, 4, 3, 2];
    assert_eq!(read_u32_le(&b, 1), 0x1234_5678);
    assert_eq!(read_u64_le(&b, 5), 0x0203_0405_0607_0809);
}

#[test]
fn round_trip_is_bit_exact() {
    let values = [0.0f32, -0.0, 1.5, -2.25, f32::MAX, f32::MIN_POSITIVE, f32::INFINITY];
    let mut samples = bits(&values);
    samples.push(0x7fc0_1234);
    let b = encode_frame(&samples, 123_456);
    match parse_frame(&b) {
        FrameParse::Complete(f, used) => {
            assert_eq!(used, b.len());
            assert_eq!(f.timestamp_ms, 123_456);
            assert_eq!(f.samples, samples);
        }
        _ => panic!("whole frame not parsed"),
    }
    assert_eq!(decode_payload(&b[HEADER_BYTES..]), Ok(samples));
}

#[test]
fn header_delimits_consecutive_frames() {
    let a = chunk(10, 3);
    let c = chunk(100, 5);
    let mut stream = encode_frame(&a, 1);
    let second = encode_frame(&c, 2);
    stream.extend_from_slice(&second);
    let (len, ts) = decode_header(&stream);
    assert_eq!((len, ts), (12, 1));
    let next = HEADER_BYTES + len as usize;
    assert_eq!(&stream[next..], &second[..]);
    match parse_frame(&stream) {
        FrameParse::Complete(f, used) => {
            assert_eq!(used, next);
            assert_eq!(f.samples, a);
        }
        _ => panic!("first frame not parsed"),
    }
    match parse_frame(&stream[next..]) {
        FrameParse::Complete(f, used) => {
            assert_eq!(used, second.len());
            assert_eq!(f.timestamp_ms, 2);
            assert_eq!(f.samples, c);
        }
        _ => panic!("second frame not parsed"),
    }
}

#[test]
fn parse_frame_incomplete_and_malformed() {
    let b = encode_frame(&chunk(0, 4), 9);
    assert!(matches!(parse_frame(&b[..11]), FrameParse::Incomplete));
    assert!(matches!(parse_frame(&b[..b.len() - 1]), FrameParse::Incomplete));
    let bad = [6, 0, 0, 0, 0, 0, 0, 0, 0, 0, 0, 0, 1, 2, 3, 4, 5, 6];
    assert!(matches!(parse_frame(&bad), FrameParse::Malformed));
}

#[test]
fn decode_payload_rejects_partial_sample() {
    assert_eq!(decode_payload(&[1, 2, 3, 4, 5]), Err(FrameError::MalformedFrame));
    assert_eq!(decode_payload(&[]), Ok(vec![]));
    assert_eq!(decode_payload(&[1, 0, 0, 0, 0, 0, 0x80, 0x3f]), Ok(vec![1, 0x3f80_0000]));
}

#[test]
fn stereo_chunk_of_2048_samples_over_reader() {
    let values: Vec<f32> = (0..2048).map(|i| (i as f32) * 0.001 - 1.0).collect();
    let samples = bits(&values);
    let wire = encode_frame(&samples, 42);
    assert_eq!(&wire[..4], &8192u32.to_le_bytes());
    let mut reader = FrameReader::new();
    assert_eq!(reader.bytes_needed(), 12);
    assert!(matches!(reader.on_bytes(&wire[..12]), ReadStep::NeedPayload));
    assert_eq!(reader.bytes_needed(), 8192);
    match reader.on_bytes(&wire[12..]) {
        ReadStep::Deliver(f) => {
            assert_eq!(f.timestamp_ms, 42);
            let got: Vec<f32> = f.samples.iter().map(|b| f32::from_bits(*b)).collect();
            assert_eq!(got.len(), 2048);
            for (x, y) in got.iter().zip(values.iter()) {
                assert_eq!(x.to_bits(), y.to_bits());
            }
        }
        _ => panic!("frame not delivered"),
    }
    assert_eq!(reader.phase(), ReadPhase::Header);
}

#[test]
fn connection_drop_mid_frame_leaves_no_state() {
    let mut reader = FrameReader::new();
    let lost = encode_frame(&chunk(0, 8), 5);
    assert!(matches!(reader.on_bytes(&lost[..12]), ReadStep::NeedPayload));
    assert_eq!(reader.phase(), ReadPhase::Payload { payload_len: 32, timestamp_ms: 5 });
    // the payload read came up short: the connection is abandoned
    reader.abandon();
    assert_eq!(reader.phase(), ReadPhase::Header);
    assert_eq!(reader.bytes_needed(), 12);
    // the next connection reads its frames from a clean start
    let next = encode_frame(&chunk(50, 2), 6);
    assert!(matches!(reader.on_bytes(&next[..12]), ReadStep::NeedPayload));
    match reader.on_bytes(&next[12..]) {
        ReadStep::Deliver(f) => {
            assert_eq!(f.timestamp_ms, 6);
            assert_eq!(f.samples, vec![50, 51]);
        }
        _ => panic!("frame not delivered"),
    }
}

#[test]
fn reader_reports_malformed_payload() {
    let mut reader = FrameReader::new();
    let header = [6, 0, 0, 0, 1, 0, 0, 0, 0, 0, 0, 0];
    assert!(matches!(reader.on_bytes(&header), ReadStep::NeedPayload));
    assert_eq!(reader.bytes_needed(), 6);
    assert!(matches!(
        reader.on_bytes(&[0, 0, 0, 0, 0, 0]),
        ReadStep::Malformed(FrameError::MalformedFrame)
    ));
    assert_eq!(reader.phase(), ReadPhase::Header);
}

#[test]
fn latency_is_saturating_difference() {
    assert_eq!(latency_ms(1_000, 400), 600);
    assert_eq!(latency_ms(400, 1_000), 0);
    assert_eq!(latency_ms(500, 500), 0);
    assert_eq!(latency_ms(u64::MAX, 0), u64::MAX);
    assert_eq!(latency_ms(0, u64::MAX), 0);
}

#[test]
fn jitter_buffer_keeps_chunk_order_across_periods() {
    let mut q = HandoffQueue::new(8, DropPolicy::DropNewest);
    q.offer(vec![1, 2, 3]);
    q.offer(vec![4, 5]);
    q.offer(vec![6, 7, 8, 9]);
    let mut jb = JitterBuffer::new();
    jb.refill_from(&mut q);
    assert!(q.is_empty());
    assert_eq!(jb.len(), 9);
    let mut played = Vec::new();
    for n in [2usize, 4, 1, 2] {
        let mut out = vec![0xffff_ffffu32; n];
        jb.fill_output(&mut out);
        played.extend_from_slice(&out);
    }
    assert_eq!(played, vec![1, 2, 3, 4, 5, 6, 7, 8, 9]);
    assert!(jb.is_empty());
}

#[test]
fn jitter_buffer_refills_between_periods() {
    let mut q = HandoffQueue::new(4, DropPolicy::DropNewest);
    let mut jb = JitterBuffer::new();
    q.offer(vec![1, 2]);
    jb.refill_from(&mut q);
    let mut out = vec![9u32; 3];
    jb.fill_output(&mut out);
    assert_eq!(out, vec![1, 2, SILENCE]);
    q.offer(vec![3, 4, 5]);
    jb.refill_from(&mut q);
    let mut out = vec![9u32; 2];
    jb.fill_output(&mut out);
    assert_eq!(out, vec![3, 4]);
    assert_eq!(jb.next_sample(), 5);
    assert_eq!(jb.next_sample(), SILENCE);
}

#[test]
fn underrun_fills_silence() {
    let mut jb = JitterBuffer::new();
    let mut out = bits(&[0.5, 0.25, -1.0, 3.0]);
    jb.fill_output(&mut out);
    assert_eq!(out, vec![SILENCE; 4]);
    assert!(out.iter().all(|b| f32::from_bits(*b) == 0.0));
    assert!(jb.is_empty());
    let mut none: Vec<u32> = Vec::new();
    jb.fill_output(&mut none);
    assert!(none.is_empty());
}

#[test]
fn push_chunk_appends_in_order() {
    let mut jb = JitterBuffer::new();
    jb.push_chunk(&[7, 8]);
    jb.push_chunk(&[]);
    jb.push_chunk(&[9]);
    let mut out = vec![0u32; 3];
    jb.fill_output(&mut out);
    assert_eq!(out, vec![7, 8, 9]);
}

#[test]
fn full_queue_drops_newest_and_keeps_order() {
    let mut q = HandoffQueue::new(3, DropPolicy::DropNewest);
    assert_eq!(q.offer(vec![1]), Offer::Accepted);
    assert_eq!(q.offer(vec![2]), Offer::Accepted);
    assert_eq!(q.offer(vec![3]), Offer::Accepted);
    assert!(q.is_full());
    assert_eq!(q.offer(vec![4]), Offer::DroppedNewest);
    assert_eq!(q.len(), 3);
    assert_eq!(q.take(), Some(vec![1]));
    assert_eq!(q.take(), Some(vec![2]));
    assert_eq!(q.take(), Some(vec![3]));
    assert_eq!(q.take(), None);
}

#[test]
fn full_queue_drops_oldest_when_asked() {
    let mut q = HandoffQueue::new(2, DropPolicy::DropOldest);
    assert_eq!(q.policy(), DropPolicy::DropOldest);
    assert_eq!(q.capacity(), 2);
    q.offer(vec![1]);
    q.offer(vec![2]);
    assert_eq!(q.offer(vec![3]), Offer::DroppedOldest);
    assert_eq!(q.take(), Some(vec![2]));
    assert_eq!(q.take(), Some(vec![3]));
    assert!(q.is_empty());
}

#[test]
fn zero_capacity_queue_drops_everything() {
    let mut q = HandoffQueue::new(0, DropPolicy::DropOldest);
    assert_eq!(q.offer(vec![1]), Offer::DroppedNewest);
    assert_eq!(q.take(), None);
}

#[test]
fn capture_chunk_is_bounded() {
    assert_eq!(FRAME_SIZE, 1024);
    assert_eq!(chunk_len(5000, 2), 2048);
    assert_eq!(chunk_len(100, 2), 100);
    assert_eq!(chunk_len(100, 0), 0);
    let data = chunk(0, 3000);
    let c = capture_chunk(&data, 2);
    assert_eq!(c, chunk(0, 2048));
    let c = capture_chunk(&data[..10], 1);
    assert_eq!(c, chunk(0, 10));
}

#[test]
fn capture_into_never_blocks_when_full() {
    let mut q = HandoffQueue::new(1, DropPolicy::DropNewest);
    assert_eq!(capture_into(&mut q, &[1, 2, 3], 1), Offer::Accepted);
    assert_eq!(capture_into(&mut q, &[4, 5], 1), Offer::DroppedNewest);
    assert_eq!(q.take(), Some(vec![1, 2, 3]));
}

#[test]
fn deliver_measures_latency_and_forwards() {
    let mut q = HandoffQueue::new(1, DropPolicy::DropNewest);
    let wire = encode_frame(&[11, 12], 900);
    let f = match parse_frame(&wire) {
        FrameParse::Complete(f, _) => f,
        _ => panic!("frame not parsed"),
    };
    let d = deliver(&mut q, f, 1_000);
    assert_eq!(d.latency_ms, 100);
    assert!(d.report_latency);
    assert_eq!(d.offer, Offer::Accepted);
    let f = match parse_frame(&encode_frame(&[13], 2_000)) {
        FrameParse::Complete(f, _) => f,
        _ => panic!("frame not parsed"),
    };
    let d = deliver(&mut q, f, 1_000);
    assert_eq!(d.latency_ms, 0);
    assert!(!d.report_latency);
    assert_eq!(d.offer, Offer::DroppedNewest);
    assert_eq!(q.take(), Some(vec![11, 12]));
}

#[test]
fn sender_frames_chunks_in_queue_order() {
    let mut q = HandoffQueue::new(4, DropPolicy::DropNewest);
    assert_eq!(next_frame(&mut q, 5), None);
    q.offer(vec![1]);
    q.offer(vec![2, 3]);
    assert_eq!(next_frame(&mut q, 10), Some(Ok(encode_frame(&[1], 10))));
    assert_eq!(next_frame(&mut q, 11), Some(Ok(encode_frame(&[2, 3], 11))));
    assert_eq!(next_frame(&mut q, 12), None);
}

#[test]
fn backlog_cap_drops_oldest_samples() {
    let mut jb = JitterBuffer::new();
    jb.push_chunk(&[1, 2, 3, 4, 5]);
    assert_eq!(jb.drop_oldest_beyond(8), 0);
    assert_eq!(jb.len(), 5);
    assert_eq!(jb.drop_oldest_beyond(2), 3);
    let mut out = vec![0u32; 3];
    jb.fill_output(&mut out);
    assert_eq!(out, vec![4, 5, SILENCE]);
}
