use body_text::{decode_events, BodyDecoder, Charset, DecodeError, ReadEvent, Step};

fn chunked(bytes: &[u8], size: usize) -> Vec<ReadEvent> {
    let mut evs: Vec<ReadEvent> = bytes.chunks(size).map(|c| ReadEvent::Bytes(c.to_vec())).collect();
    evs.push(ReadEvent::Bytes(Vec::new()));
    evs
}

fn utf8() -> Charset {
    Charset::utf8()
}

#[test]
fn valid_text_survives_any_chunking() {
    let s = "h\u{e9}llo w\u{f6}rld \u{20ac} \u{1d11e} \u{65e5}\u{672c}";
    for size in 1..=8 {
        assert_eq!(decode_events(&utf8(), &chunked(s.as_bytes(), size)), Ok(s.to_string()), "{}", size);
    }
}

#[test]
fn single_byte_encoding_decodes() {
    let latin = Charset::for_label("iso-8859-1").unwrap();
    let bytes = [0x63u8, 0x61, 0x66, 0xe9, 0x80];
    for size in 1..=3 {
        assert_eq!(decode_events(&latin, &chunked(&bytes, size)), Ok("caf\u{e9}\u{20ac}".to_string()));
    }
}

#[test]
fn utf16_split_across_reads() {
    let enc = Charset::for_label("utf-16le").unwrap();
    let bytes = [0x68u8, 0x00, 0xe9, 0x00, 0x34, 0xd8, 0x1e, 0xdd];
    for size in 1..=3 {
        assert_eq!(decode_events(&enc, &chunked(&bytes, size)), Ok("h\u{e9}\u{1d11e}".to_string()));
    }
}

#[test]
fn truncated_sequence_becomes_replacement() {
    let evs = vec![ReadEvent::Bytes(b"ab".to_vec()), ReadEvent::Bytes(vec![0xe2, 0x82]), ReadEvent::Bytes(Vec::new())];
    assert_eq!(decode_events(&utf8(), &evs), Ok("ab\u{fffd}".to_string()));
    let evs = vec![ReadEvent::Bytes(vec![0x61, 0xc3])];
    assert_eq!(decode_events(&utf8(), &evs), Ok("a\u{fffd}".to_string()));
}

#[test]
fn split_two_byte_character() {
    let bytes = "h\u{e9}llo".as_bytes();
    assert_eq!(bytes[1], 0xc3);
    let evs = vec![
        ReadEvent::Bytes(bytes[..2].to_vec()),
        ReadEvent::Bytes(bytes[2..].to_vec()),
        ReadEvent::Bytes(Vec::new()),
    ];
    assert_eq!(decode_events(&utf8(), &evs), Ok("h\u{e9}llo".to_string()));
}

#[test]
fn interruption_before_first_chunk() {
    let evs = vec![ReadEvent::Interrupted, ReadEvent::Bytes(b"hello".to_vec()), ReadEvent::Bytes(Vec::new())];
    assert_eq!(decode_events(&utf8(), &evs), Ok("hello".to_string()));
    let evs = vec![
        ReadEvent::Bytes(vec![0x68, 0xc3]),
        ReadEvent::Interrupted,
        ReadEvent::Interrupted,
        ReadEvent::Bytes(vec![0xa9]),
        ReadEvent::Bytes(Vec::new()),
    ];
    assert_eq!(decode_events(&utf8(), &evs), Ok("h\u{e9}".to_string()));
}

#[test]
fn empty_body_is_empty_text() {
    assert_eq!(decode_events(&utf8(), &vec![ReadEvent::Bytes(Vec::new())]), Ok(String::new()));
    assert_eq!(decode_events(&utf8(), &Vec::new()), Ok(String::new()));
    let latin = Charset::for_label("windows-1252").unwrap();
    assert_eq!(decode_events(&latin, &vec![ReadEvent::Bytes(Vec::new())]), Ok(String::new()));
}

#[test]
fn failed_read_discards_text() {
    let evs = vec![ReadEvent::Bytes(b"partial".to_vec()), ReadEvent::Failed, ReadEvent::Bytes(Vec::new())];
    assert_eq!(decode_events(&utf8(), &evs), Err(DecodeError::ReadFailed));
    assert_eq!(decode_events(&utf8(), &vec![ReadEvent::Failed]), Err(DecodeError::ReadFailed));
}

#[test]
fn reads_after_the_end_are_ignored() {
    let evs = vec![ReadEvent::Bytes(b"a".to_vec()), ReadEvent::Bytes(Vec::new()), ReadEvent::Bytes(b"b".to_vec())];
    assert_eq!(decode_events(&utf8(), &evs), Ok("a".to_string()));
}

#[test]
fn malformed_bytes_are_replaced() {
    let evs = vec![ReadEvent::Bytes(vec![0x61, 0xff, 0x62])];
    assert_eq!(decode_events(&utf8(), &evs), Ok("a\u{fffd}b".to_string()));
}

#[test]
fn byte_order_mark_is_dropped() {
    let evs = vec![ReadEvent::Bytes(vec![0xef, 0xbb]), ReadEvent::Bytes(vec![0xbf, 0x78])];
    assert_eq!(decode_events(&utf8(), &evs), Ok("x".to_string()));
}

#[test]
fn largest_chunk_decodes() {
    let bytes = vec![b'z'; body_text::CHUNK_SIZE];
    let evs = vec![ReadEvent::Bytes(bytes.clone()), ReadEvent::Bytes(bytes)];
    let text = decode_events(&utf8(), &evs).unwrap();
    assert_eq!(text.len(), 2 * body_text::CHUNK_SIZE);
    assert!(text.chars().all(|c| c == 'z'));
}

#[test]
fn step_by_step_matches_whole_run() {
    let s = "gr\u{fc}\u{df}e \u{2603}";
    let events = chunked(s.as_bytes(), 2);
    let mut dec = BodyDecoder::new(&utf8());
    let mut steps = Vec::new();
    for ev in [ReadEvent::Interrupted].into_iter().chain(chunked(s.as_bytes(), 3)) {
        let step = dec.next_step(&ev);
        steps.push(step);
        if dec.is_finished() {
            break;
        }
    }
    assert_eq!(steps[0], Step::ReadMore);
    assert_eq!(*steps.last().unwrap(), Step::Finished);
    assert_eq!(dec.into_text(), decode_events(&utf8(), &events).unwrap());
}

#[test]
fn next_step_reports_each_outcome() {
    let mut dec = BodyDecoder::new(&utf8());
    assert_eq!(dec.next_step(&ReadEvent::Interrupted), Step::ReadMore);
    assert_eq!(dec.next_step(&ReadEvent::Bytes(b"x".to_vec())), Step::ReadMore);
    assert_eq!(dec.next_step(&ReadEvent::Failed), Step::Failed);
    assert!(!dec.is_finished());
    assert_eq!(dec.next_step(&ReadEvent::Bytes(Vec::new())), Step::Finished);
    assert!(dec.is_finished());
    assert_eq!(dec.into_text(), "x");
}

#[test]
fn many_interruptions_change_nothing() {
    let s = "\u{3b1}\u{3b2}\u{3b3}";
    let plain = chunked(s.as_bytes(), 1);
    let mut noisy = Vec::new();
    for ev in chunked(s.as_bytes(), 1) {
        noisy.push(ReadEvent::Interrupted);
        noisy.push(ev);
        noisy.push(ReadEvent::Interrupted);
    }
    assert_eq!(decode_events(&utf8(), &noisy), decode_events(&utf8(), &plain));
    assert_eq!(decode_events(&utf8(), &noisy), Ok(s.to_string()));
}
