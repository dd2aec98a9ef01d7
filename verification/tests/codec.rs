use paste_core::codec::{compress, decompress, FORMAT_TAG, HEADER_LEN, MAX_LITERAL, MAX_RUN, MIN_RUN};
use paste_core::errors::Error;

fn fault(text: &str) -> Result<Vec<u8>, Error> {
    Err(Error::Compression(String::from(text)))
}

fn round_trip(content: &[u8]) {
    let stream = compress(content).unwrap();
    assert_eq!(decompress(&stream), Ok(content.to_vec()));
}

#[test]
fn constants_of_the_format() {
    assert_eq!(FORMAT_TAG, 0xc1);
    assert_eq!(HEADER_LEN, 5);
    assert_eq!(MAX_LITERAL, 128);
    assert_eq!(MIN_RUN, 3);
    assert_eq!(MAX_RUN, 130);
}

#[test]
fn empty_content_is_header_only() {
    assert_eq!(compress(b""), Ok(vec![0xc1, 0, 0, 0, 0]));
    assert_eq!(decompress(&[0xc1, 0, 0, 0, 0]), Ok(vec![]));
}

#[test]
fn text_without_runs_is_one_literal() {
    let mut expected = vec![0xc1, 11, 0, 0, 0, 10];
    expected.extend_from_slice(b"hello world");
    assert_eq!(compress(b"hello world"), Ok(expected));
}

#[test]
fn two_equal_bytes_are_no_run() {
    assert_eq!(compress(b"aab"), Ok(vec![0xc1, 3, 0, 0, 0, 2, b'a', b'a', b'b']));
}

#[test]
fn three_equal_bytes_are_a_run() {
    assert_eq!(compress(b"aaa"), Ok(vec![0xc1, 3, 0, 0, 0, 128, b'a']));
    assert_eq!(compress(b"aaaa"), Ok(vec![0xc1, 4, 0, 0, 0, 129, b'a']));
}

#[test]
fn literal_stops_where_a_run_begins() {
    assert_eq!(
        compress(b"xyaaaaz"),
        Ok(vec![0xc1, 7, 0, 0, 0, 1, b'x', b'y', 129, b'a', 0, b'z'])
    );
}

#[test]
fn run_of_the_longest_length_is_one_block() {
    let content = vec![7u8; 130];
    assert_eq!(compress(&content), Ok(vec![0xc1, 130, 0, 0, 0, 255, 7]));
    round_trip(&content);
}

#[test]
fn longer_run_is_split() {
    let content = vec![7u8; 131];
    assert_eq!(compress(&content), Ok(vec![0xc1, 131, 0, 0, 0, 255, 7, 0, 7]));
    let content = vec![7u8; 133];
    assert_eq!(compress(&content), Ok(vec![0xc1, 133, 0, 0, 0, 255, 7, 128, 7]));
    round_trip(&content);
}

#[test]
fn literal_of_the_longest_length_is_one_block() {
    let content: Vec<u8> = (0..128u32).map(|i| i as u8).collect();
    let mut expected = vec![0xc1, 128, 0, 0, 0, 127];
    expected.extend_from_slice(&content);
    assert_eq!(compress(&content), Ok(expected));
    round_trip(&content);
}

#[test]
fn longer_literal_is_split() {
    let content: Vec<u8> = (0..129u32).map(|i| i as u8).collect();
    let mut expected = vec![0xc1, 129, 0, 0, 0, 127];
    expected.extend_from_slice(&content[..128]);
    expected.extend_from_slice(&[0, 128]);
    assert_eq!(compress(&content), Ok(expected));
    round_trip(&content);
}

#[test]
fn length_field_is_little_endian() {
    let content = vec![0u8; 0x01_02_03];
    let stream = compress(&content).unwrap();
    assert_eq!(&stream[..5], &[0xc1, 0x03, 0x02, 0x01, 0x00]);
    round_trip(&content);
}

#[test]
fn round_trip_of_mixed_content() {
    round_trip(b"a");
    round_trip(b"ab");
    round_trip(b"aa");
    round_trip(b"aaabbbccc");
    round_trip(b"fn main() {\n        println!(\"hi\");\n}\n");
    round_trip("na\u{ef}ve \u{2603}\u{2603}\u{2603}".as_bytes());
    let mut all = Vec::new();
    for round in 0..4u32 {
        for byte in 0..=255u8 {
            for _ in 0..(round + (byte as u32 % 5)) {
                all.push(byte);
            }
        }
    }
    round_trip(&all);
}

#[test]
fn round_trip_of_every_short_content_over_two_bytes() {
    for len in 0..=9usize {
        for bits in 0..(1u32 << len) {
            let content: Vec<u8> =
                (0..len).map(|i| if bits >> i & 1 == 1 { b'x' } else { b'y' }).collect();
            round_trip(&content);
        }
    }
}

#[test]
fn runs_make_the_stream_shorter() {
    let content = vec![b' '; 4000];
    let stream = compress(&content).unwrap();
    assert!(stream.len() < 100);
    assert_eq!(decompress(&stream), Ok(content));
}

#[test]
fn compression_is_deterministic() {
    let content = b"the same bytes, the same stream    ";
    assert_eq!(compress(content), compress(content));
}

#[test]
fn empty_stream_is_truncated() {
    assert_eq!(decompress(&[]), fault("truncated input"));
}

#[test]
fn other_tag_is_an_unsupported_format() {
    assert_eq!(decompress(&[0x00, 0, 0, 0, 0]), fault("unsupported format"));
    assert_eq!(decompress(&[0x28, 0xb5, 0x2f, 0xfd, 0x20]), fault("unsupported format"));
    assert_eq!(decompress(&[0x00]), fault("unsupported format"));
}

#[test]
fn incomplete_header_is_truncated() {
    assert_eq!(decompress(&[0xc1]), fault("truncated input"));
    assert_eq!(decompress(&[0xc1, 1, 0, 0]), fault("truncated input"));
}

#[test]
fn incomplete_literal_is_truncated() {
    assert_eq!(decompress(&[0xc1, 3, 0, 0, 0, 2, b'a', b'b']), fault("truncated input"));
    assert_eq!(decompress(&[0xc1, 3, 0, 0, 0, 2]), fault("truncated input"));
}

#[test]
fn incomplete_run_is_truncated() {
    assert_eq!(decompress(&[0xc1, 3, 0, 0, 0, 128]), fault("truncated input"));
}

#[test]
fn missing_blocks_are_truncated() {
    assert_eq!(decompress(&[0xc1, 3, 0, 0, 0]), fault("truncated input"));
    assert_eq!(decompress(&[0xc1, 3, 0, 0, 0, 1, b'a', b'b']), fault("truncated input"));
}

#[test]
fn more_content_than_announced_is_corrupt() {
    assert_eq!(decompress(&[0xc1, 0, 0, 0, 0, 0, b'a']), fault("corrupt stream"));
    assert_eq!(decompress(&[0xc1, 2, 0, 0, 0, 128, b'a']), fault("corrupt stream"));
    assert_eq!(decompress(&[0xc1, 3, 0, 0, 0, 128, b'a', 0, b'b']), fault("corrupt stream"));
}

#[test]
fn a_huge_announced_length_is_not_believed() {
    assert_eq!(
        decompress(&[0xc1, 0xff, 0xff, 0xff, 0xff, 0, b'a']),
        fault("truncated input")
    );
}

#[test]
fn cut_stream_never_gives_content() {
    let content = b"some content    with a run and more text after it";
    let stream = compress(content).unwrap();
    for cut in 0..stream.len() {
        assert!(decompress(&stream[..cut]).is_err(), "cut at {}", cut);
    }
}

#[test]
fn decoded_stream_need_not_be_the_encoder_s() {
    // two literals where the encoder writes one
    assert_eq!(decompress(&[0xc1, 2, 0, 0, 0, 0, b'a', 0, b'b']), Ok(b"ab".to_vec()));
}

#[test]
fn stream_is_never_much_longer_than_the_content() {
    let mut state: u32 = 12345;
    for len in [0usize, 1, 2, 3, 127, 128, 129, 255, 256, 257, 1000, 5000] {
        for alphabet in [1u32, 2, 3, 256] {
            let content: Vec<u8> = (0..len)
                .map(|_| {
                    state = state.wrapping_mul(1664525).wrapping_add(1013904223);
                    ((state >> 16) % alphabet) as u8
                })
                .collect();
            let stream = compress(&content).unwrap();
            let bound = if len == 0 { 5 } else { 5 + len + len / 128 + 1 };
            assert!(stream.len() <= bound, "{} bytes for {}", stream.len(), len);
            assert_eq!(decompress(&stream), Ok(content));
        }
    }
}

#[test]
fn worst_case_reaches_the_bound_but_for_one_byte() {
    // 256 bytes without a run: two full literals
    let content: Vec<u8> = (0..=255u8).collect();
    assert_eq!(compress(&content).unwrap().len(), 5 + 256 + 2);
}

#[test]
fn decoded_content_has_the_announced_length() {
    for content in [&b""[..], &b"a"[..], &b"hello world"[..], &[0u8; 300][..]] {
        let stream = compress(content).unwrap();
        let announced = u32::from_le_bytes([stream[1], stream[2], stream[3], stream[4]]);
        assert_eq!(announced as usize, content.len());
        assert_eq!(decompress(&stream).unwrap().len(), content.len());
    }
}
