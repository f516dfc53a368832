use redfoam::er::Er;
use redfoam::frames::{build_frame, Decoder};
use redfoam::tcp::RecordType;

fn sample_stream() -> (Vec<u8>, Vec<Vec<u8>>) {
    let payloads: Vec<Vec<u8>> = vec![
        b"hello world!".to_vec(),
        b"".to_vec(),
        b"a larger payload with some more bytes in it".to_vec(),
        b"x".to_vec(),
    ];
    let mut stream: Vec<u8> = Vec::new();
    let mut seq: u8 = 0;
    for p in &payloads {
        stream.extend_from_slice(&build_frame(seq, 2, p));
        seq = seq.wrapping_add(1);
    }
    (stream, payloads)
}

// A stream of valid frames surfaces each payload exactly once, in order.
#[test]
fn decoder_delivers_payloads_in_order() {
    let (stream, payloads) = sample_stream();
    let mut d = Decoder::new();
    assert_eq!(d.feed(&stream), Ok(()));
    assert_eq!(d.out, payloads);
    assert_eq!(d.failed, None);
}

// Delivering the bytes split at any point gives the same payload sequence as
// delivering the whole stream at once.
#[test]
fn decoder_ignores_split_points() {
    let (stream, payloads) = sample_stream();
    for s in 0..=stream.len() {
        let mut d = Decoder::new();
        assert_eq!(d.feed(&stream[..s]), Ok(()));
        assert_eq!(d.feed(&stream[s..]), Ok(()));
        assert_eq!(d.out, payloads, "split at {} must not change the output", s);
    }
}

// Byte-by-byte delivery behaves like any other chunking.
#[test]
fn decoder_takes_single_bytes() {
    let (stream, payloads) = sample_stream();
    let mut d = Decoder::new();
    for b in &stream {
        assert_eq!(d.feed(std::slice::from_ref(b)), Ok(()));
    }
    assert_eq!(d.out, payloads);
}

// A frame larger than the connection buffer still decodes, surfaced in
// slices across several reads.
#[test]
fn decoder_handles_frames_larger_than_buffer() {
    let big: Vec<u8> = (0..5000u32).map(|i| (i % 251) as u8).collect();
    let mut stream = build_frame(0, 4, &big);
    stream.extend_from_slice(&build_frame(1, 4, b"tail"));
    let mut d = Decoder::new();
    assert_eq!(d.feed(&stream), Ok(()));
    assert_eq!(d.out.len(), 2);
    assert_eq!(d.out[0], big);
    assert_eq!(d.out[1], b"tail".to_vec());
}

// A skipped sequence number stops decoding right there with
// InvalidSequence; the frames before it are still delivered.
#[test]
fn decoder_rejects_skipped_sequence() {
    let mut stream = build_frame(0, 1, b"first");
    stream.extend_from_slice(&build_frame(2, 2, b"second"));
    let mut d = Decoder::new();
    assert_eq!(d.feed(&stream), Err(Er::InvalidSequence));
    assert_eq!(d.out, vec![b"first".to_vec()]);
    let more = build_frame(1, 2, b"late");
    assert_eq!(d.feed(&more), Err(Er::InvalidSequence));
    assert_eq!(d.out, vec![b"first".to_vec()]);
}

// The sequence byte wraps from 255 back to 0.
#[test]
fn decoder_sequence_wraps_at_255() {
    let mut d = Decoder::new();
    let mut seq: u8 = 0;
    for _ in 0..260 {
        let frame = build_frame(seq, 2, b"r");
        assert_eq!(d.feed(&frame), Ok(()));
        seq = seq.wrapping_add(1);
    }
    assert_eq!(d.out.len(), 260);
}

// A frame whose declared size cannot hold its own header is refused.
#[test]
fn decoder_rejects_undersized_frame() {
    let stream: Vec<u8> = vec![5, 0, 0, 0, 0, 2];
    let mut d = Decoder::new();
    assert_eq!(d.feed(&stream), Err(Er::ParseError));
    assert!(d.out.is_empty());
}

// The wire codes of the record types round-trip through the decoder's view.
#[test]
fn record_type_codes() {
    assert!(matches!(RecordType::from(1u8), RecordType::Auth));
    assert!(matches!(RecordType::from(2u8), RecordType::Producer));
    assert!(matches!(RecordType::from(3u8), RecordType::ConsumerFollowTopics));
    assert!(matches!(RecordType::from(4u8), RecordType::DataFeed));
    assert!(matches!(RecordType::from(5u8), RecordType::IndexFeed));
    assert!(matches!(RecordType::from(9u8), RecordType::Undefined));
    assert_eq!(RecordType::Auth.code(), 1);
    assert_eq!(RecordType::Producer.code(), 2);
    assert_eq!(RecordType::ConsumerFollowTopics.code(), 3);
    assert_eq!(RecordType::DataFeed.code(), 4);
    assert_eq!(RecordType::IndexFeed.code(), 5);
    assert_eq!(RecordType::Undefined.code(), 0);
}

// The frame encoder writes size, sequence, type and payload, with the size
// counting all four parts.
#[test]
fn build_frame_layout() {
    let frame = build_frame(7, 4, b"abc");
    assert_eq!(frame, vec![9, 0, 0, 0, 7, 4, b'a', b'b', b'c']);
}

// Every error carries a description.
#[test]
fn error_texts_are_distinct() {
    assert_eq!(
        Er::NotReady.to_text(),
        "Still reading input - not enough data to proceed"
    );
    assert_ne!(Er::BadAuth.to_text(), Er::InvalidSequence.to_text());
    assert_ne!(Er::TopicNotFound.to_text(), Er::BadFileName.to_text());
}
