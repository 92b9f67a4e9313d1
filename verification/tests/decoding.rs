use pty_bridge::decoder::{decode_utf8_stream, StreamDecoder};

fn decode(bytes: &[u8]) -> (String, Vec<u8>) {
    let mut buffer = bytes.to_vec();
    let text = decode_utf8_stream(&mut buffer);
    (text, buffer)
}

/// Bytes at the edges of every range that the well-formedness of UTF-8
/// turns on.
const EDGES: [u8; 28] = [
    0x00, 0x41, 0x7F, 0x80, 0x8F, 0x90, 0x9F, 0xA0, 0xBF, 0xC0, 0xC1, 0xC2, 0xDF, 0xE0, 0xE1,
    0xEC, 0xED, 0xEE, 0xEF, 0xF0, 0xF1, 0xF3, 0xF4, 0xF5, 0xF7, 0xF8, 0xFE, 0xFF,
];

fn edge_sequences(len: usize) -> Vec<Vec<u8>> {
    let mut all: Vec<Vec<u8>> = vec![Vec::new()];
    for _ in 0..len {
        let mut longer = Vec::new();
        for sequence in &all {
            for byte in EDGES {
                let mut next = sequence.clone();
                next.push(byte);
                longer.push(next);
            }
        }
        all = longer;
    }
    all
}

#[test]
fn empty_buffer_yields_nothing() {
    let (text, rest) = decode(b"");
    assert_eq!(text, "");
    assert!(rest.is_empty());
}

#[test]
fn ascii_is_returned_as_it_stands() {
    let (text, rest) = decode(b"ls -la\r\n");
    assert_eq!(text, "ls -la\r\n");
    assert!(rest.is_empty());
}

#[test]
fn well_formed_text_of_every_width_is_returned_whole() {
    let source = "a\u{e9}\u{20ac}\u{1f4a9}z";
    let (text, rest) = decode(source.as_bytes());
    assert_eq!(text, source);
    assert!(rest.is_empty());
}

#[test]
fn euro_sign_delivered_whole() {
    let (text, rest) = decode(&[0xE2, 0x82, 0xAC]);
    assert_eq!(text, "\u{20ac}");
    assert!(rest.is_empty());
}

#[test]
fn euro_sign_split_after_first_byte() {
    let mut buffer = vec![0xE2];
    assert_eq!(decode_utf8_stream(&mut buffer), "");
    assert_eq!(buffer, vec![0xE2]);
    buffer.extend_from_slice(&[0x82, 0xAC]);
    assert_eq!(decode_utf8_stream(&mut buffer), "\u{20ac}");
    assert!(buffer.is_empty());
}

#[test]
fn invalid_byte_is_replaced_in_one_pass() {
    let (text, rest) = decode(&[b'A', b'B', 0xFF, b'C', b'D']);
    assert_eq!(text, "AB\u{FFFD}CD");
    assert!(rest.is_empty());
}

#[test]
fn each_invalid_run_gets_its_own_replacement() {
    let (text, rest) = decode(&[0xFF, b'x', 0xFE, 0x80, b'y']);
    assert_eq!(text, "\u{FFFD}x\u{FFFD}\u{FFFD}y");
    assert!(rest.is_empty());
}

#[test]
fn interrupted_sequence_is_replaced_once() {
    let (text, rest) = decode(&[0xE2, 0x82, b'A']);
    assert_eq!(text, "\u{FFFD}A");
    assert!(rest.is_empty());
    let (text, rest) = decode(&[0xF0, 0x9F, 0x92, b'A']);
    assert_eq!(text, "\u{FFFD}A");
    assert!(rest.is_empty());
    let (text, rest) = decode(&[0xC3, b'A']);
    assert_eq!(text, "\u{FFFD}A");
    assert!(rest.is_empty());
}

#[test]
fn overlong_and_surrogate_forms_are_replaced_byte_by_byte() {
    assert_eq!(decode(&[0xC0, 0x80]).0, "\u{FFFD}\u{FFFD}");
    assert_eq!(decode(&[0xE0, 0x80, 0x80]).0, "\u{FFFD}\u{FFFD}\u{FFFD}");
    assert_eq!(decode(&[0xED, 0xA0, 0x80]).0, "\u{FFFD}\u{FFFD}\u{FFFD}");
    assert_eq!(decode(&[0xF4, 0x90, 0x80, 0x80]).0, "\u{FFFD}\u{FFFD}\u{FFFD}\u{FFFD}");
    assert_eq!(decode(&[0xF5, 0x80]).0, "\u{FFFD}\u{FFFD}");
}

#[test]
fn incomplete_tail_is_held_back_not_replaced() {
    let (text, rest) = decode(&[b'A', 0xF0, 0x9F]);
    assert_eq!(text, "A");
    assert_eq!(rest, vec![0xF0, 0x9F]);
    let (text, rest) = decode(&[0xFF, 0xE2]);
    assert_eq!(text, "\u{FFFD}");
    assert_eq!(rest, vec![0xE2]);
    let (text, rest) = decode(&[0xF4, 0x8F, 0xBF]);
    assert_eq!(text, "");
    assert_eq!(rest, vec![0xF4, 0x8F, 0xBF]);
}

#[test]
fn held_back_bytes_that_turn_out_invalid_are_replaced() {
    let mut decoder = StreamDecoder::new();
    assert_eq!(decoder.feed(&[0xE2]), "");
    assert_eq!(decoder.feed(b"A"), "\u{FFFD}A");
    assert!(decoder.pending().is_empty());
}

#[test]
fn four_byte_scalar_over_four_reads() {
    let mut decoder = StreamDecoder::new();
    assert_eq!(decoder.feed(&[0xF0]), "");
    assert_eq!(decoder.pending(), &[0xF0]);
    assert_eq!(decoder.feed(&[0x9F]), "");
    assert_eq!(decoder.feed(&[0x92]), "");
    assert_eq!(decoder.pending(), &[0xF0, 0x9F, 0x92]);
    assert_eq!(decoder.feed(&[0xA9]), "\u{1f4a9}");
    assert!(decoder.pending().is_empty());
}

#[test]
fn new_decoder_holds_nothing() {
    let decoder = StreamDecoder::new();
    assert!(decoder.pending().is_empty());
}

#[test]
fn empty_read_changes_nothing() {
    let mut decoder = StreamDecoder::new();
    assert_eq!(decoder.feed(&[]), "");
    assert!(decoder.pending().is_empty());
    assert_eq!(decoder.feed(&[b'o', b'k', 0xE2, 0x82]), "ok");
    assert_eq!(decoder.pending(), &[0xE2, 0x82]);
    assert_eq!(decoder.feed(&[]), "");
    assert_eq!(decoder.pending(), &[0xE2, 0x82]);
    assert_eq!(decoder.feed(&[]), "");
    assert_eq!(decoder.pending(), &[0xE2, 0x82]);
    assert_eq!(decoder.feed(&[0xAC]), "\u{20ac}");
}

#[test]
fn valid_text_split_at_every_byte_decodes_to_itself() {
    let source = "pty \u{e9}\u{20ac}\u{1f4a9} \u{10ffff}\u{7ff}\u{800}\u{ffff}\u{10000} end";
    let bytes = source.as_bytes();
    for cut in 0..=bytes.len() {
        let mut decoder = StreamDecoder::new();
        let mut text = decoder.feed(&bytes[..cut]);
        assert!(!text.contains('\u{FFFD}'));
        text.push_str(&decoder.feed(&bytes[cut..]));
        assert_eq!(text, source);
        assert!(decoder.pending().is_empty());
    }
}

#[test]
fn valid_text_fed_byte_by_byte_decodes_to_itself() {
    let source = "\u{1f4a9}a\u{20ac}b\u{e9}c";
    let mut decoder = StreamDecoder::new();
    let mut text = String::new();
    for byte in source.as_bytes() {
        text.push_str(&decoder.feed(&[*byte]));
        assert!(decoder.pending().len() <= 3);
    }
    assert_eq!(text, source);
    assert!(decoder.pending().is_empty());
}

#[test]
fn chunk_boundaries_do_not_change_the_result() {
    for bytes in edge_sequences(3) {
        let (whole_text, whole_rest) = decode(&bytes);
        for cut in 0..=bytes.len() {
            let mut decoder = StreamDecoder::new();
            let mut text = decoder.feed(&bytes[..cut]);
            text.push_str(&decoder.feed(&bytes[cut..]));
            assert_eq!(text, whole_text, "{:?} cut at {}", bytes, cut);
            assert_eq!(decoder.pending(), &whole_rest[..], "{:?} cut at {}", bytes, cut);
        }
    }
}

#[test]
fn agrees_with_lossy_conversion_apart_from_the_held_back_tail() {
    for len in 0..=4 {
        for bytes in edge_sequences(len) {
            let (text, rest) = decode(&bytes);
            let mut expected = text.clone();
            if !rest.is_empty() {
                expected.push('\u{FFFD}');
            }
            assert_eq!(expected, String::from_utf8_lossy(&bytes), "{:?}", bytes);
            assert!(rest.len() <= 3);
            assert!(bytes.ends_with(&rest));
        }
    }
}

#[test]
fn held_back_tail_is_never_well_formed_text() {
    for bytes in edge_sequences(3) {
        let (_, rest) = decode(&bytes);
        if !rest.is_empty() {
            let fault = std::str::from_utf8(&rest).unwrap_err();
            assert_eq!(fault.valid_up_to(), 0);
            assert_eq!(fault.error_len(), None);
        }
    }
}

#[test]
fn decoding_what_was_held_back_changes_nothing() {
    let mut buffer = vec![b'a', 0xF0, 0x9F, 0x92];
    assert_eq!(decode_utf8_stream(&mut buffer), "a");
    assert_eq!(buffer, vec![0xF0, 0x9F, 0x92]);
    assert_eq!(decode_utf8_stream(&mut buffer), "");
    assert_eq!(buffer, vec![0xF0, 0x9F, 0x92]);
}
