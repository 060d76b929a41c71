use recmari::codec::{decode_match, encode_match, push_u32, push_u64, read_u32, read_u64};
use recmari::pipeline::{FrameData, Match, PlayerState, Round};
use recmari::ratio::Ratio;

fn fd(frame_number: u32, ts_micros: u64, p1: u32, p2: u32) -> FrameData {
    FrameData {
        frame_number,
        timestamp_micros: ts_micros,
        player1: PlayerState { health_ratio: Ratio::new(p1, 100) },
        player2: PlayerState { health_ratio: Ratio::new(p2, 100) },
    }
}

fn sample_match() -> Match {
    Match {
        source_path: b"test.mp4".to_vec(),
        start_micros: 123_456,
        rounds: vec![
            Round {
                round_index: 0,
                frames: vec![fd(0, 0, 100, 100), fd(1, 500_000, 60, 30), fd(2, 1_000_000, 80, 0)],
            },
            Round {
                round_index: 1,
                frames: vec![fd(3, 1_500_000, 100, 100), fd(4, 2_000_000, 90, 80)],
            },
        ],
    }
}

#[test]
fn u32_little_endian_round_trip() {
    let mut out = Vec::new();
    push_u32(&mut out, 0x0403_0201);
    assert_eq!(out, vec![0x01, 0x02, 0x03, 0x04]);
    let (v, p) = read_u32(&out, 0).expect("four bytes available");
    assert_eq!(v, 0x0403_0201);
    assert_eq!(p, 4);
    assert!(read_u32(&out, 1).is_none());
}

#[test]
fn u64_little_endian_round_trip() {
    let mut out = Vec::new();
    push_u64(&mut out, 0x0807_0605_0403_0201);
    assert_eq!(out, vec![0x01, 0x02, 0x03, 0x04, 0x05, 0x06, 0x07, 0x08]);
    let (v, p) = read_u64(&out, 0).expect("eight bytes available");
    assert_eq!(v, 0x0807_0605_0403_0201);
    assert_eq!(p, 8);
}

#[test]
fn match_encode_decode_round_trip() {
    let m = sample_match();
    let bytes = encode_match(&m);
    let (decoded, end) = decode_match(&bytes, 0).expect("complete encoding");
    assert_eq!(end, bytes.len());
    assert_eq!(decoded, m);
}

#[test]
fn match_decode_ignores_trailing_bytes() {
    let m = sample_match();
    let mut bytes = encode_match(&m);
    let encoded_len = bytes.len();
    bytes.extend_from_slice(&[0xaa, 0xbb, 0xcc]);
    let (decoded, end) = decode_match(&bytes, 0).expect("complete encoding with trailing data");
    assert_eq!(end, encoded_len);
    assert_eq!(decoded, m);
}

#[test]
fn match_decode_of_truncated_bytes_fails() {
    let m = sample_match();
    let bytes = encode_match(&m);
    for cut in [0usize, 1, 4, 10, bytes.len() - 1] {
        let truncated: Vec<u8> = bytes[..cut].to_vec();
        assert!(decode_match(&truncated, 0).is_none(), "cut at {cut}");
    }
}

#[test]
fn empty_match_round_trips() {
    let m = Match { source_path: Vec::new(), start_micros: 0, rounds: Vec::new() };
    let bytes = encode_match(&m);
    let (decoded, end) = decode_match(&bytes, 0).expect("complete encoding");
    assert_eq!(end, bytes.len());
    assert_eq!(decoded, m);
}

#[test]
fn consecutive_matches_decode_in_sequence() {
    let m1 = sample_match();
    let m2 = Match { source_path: b"other.mp4".to_vec(), start_micros: 9, rounds: Vec::new() };
    let mut bytes = encode_match(&m1);
    bytes.extend_from_slice(&encode_match(&m2));
    let (d1, p1) = decode_match(&bytes, 0).expect("first match");
    let (d2, p2) = decode_match(&bytes, p1).expect("second match");
    assert_eq!(d1, m1);
    assert_eq!(d2, m2);
    assert_eq!(p2, bytes.len());
}
