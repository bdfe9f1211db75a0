use spy_cam::{is_success_status, ChunkedTextDecoder, DecodeStep, CAPACITY};

fn feed_all(chunks: &[&[u8]]) -> (Vec<String>, ChunkedTextDecoder) {
    let mut d = ChunkedTextDecoder::new();
    let mut out = Vec::new();
    for c in chunks {
        out.push(d.feed(c));
    }
    (out, d)
}

#[test]
fn round_trip_single_read() {
    let input = "Hello from Esp Spy Cam!";
    let mut d = ChunkedTextDecoder::new();
    let text = d.feed(input.as_bytes());
    assert_eq!(text, input);
    assert_eq!(d.offset(), 0);
    assert_eq!(d.finish(), input.len());
}

#[test]
fn split_two_byte_character() {
    let input = "caf\u{e9} ok";
    let bytes = input.as_bytes();
    // 'é' is 0xC3 0xA9 at bytes 3 and 4: cut between them.
    let (out, d) = feed_all(&[&bytes[..4], &bytes[4..]]);
    assert_eq!(out[0], "caf");
    assert_eq!(d.offset(), 0);
    assert_eq!(out[1], "\u{e9} ok");
    assert_eq!(out.concat(), input);
    assert_eq!(d.total(), bytes.len());
}

#[test]
fn offset_holds_first_byte_between_chunks() {
    let mut d = ChunkedTextDecoder::new();
    let first = d.feed(&[b'a', 0xC3]);
    assert_eq!(first, "a");
    assert_eq!(d.offset(), 1);
    assert_eq!(d.room(), CAPACITY - 1);
    let second = d.feed(&[0xA9]);
    assert_eq!(second, "\u{e9}");
    assert_eq!(d.offset(), 0);
}

#[test]
fn every_cut_of_multibyte_text() {
    let input = "z\u{e9}\u{20ac}\u{1f600}!";
    let bytes = input.as_bytes();
    for cut in 0..=bytes.len() {
        let (out, d) = feed_all(&[&bytes[..cut], &bytes[cut..]]);
        assert_eq!(out.concat(), input);
        assert_eq!(d.offset(), 0);
        assert_eq!(d.finish(), bytes.len());
    }
}

#[test]
fn one_byte_chunks() {
    let input = "\u{20ac}\u{1f600} x";
    let mut d = ChunkedTextDecoder::new();
    let mut out = String::new();
    for b in input.as_bytes() {
        out.push_str(&d.feed(&[*b]));
    }
    assert_eq!(out, input);
    assert_eq!(d.total(), input.len());
}

#[test]
fn trailing_incomplete_byte_is_dropped() {
    let mut d = ChunkedTextDecoder::new();
    let text = d.feed(&[b'h', b'i', 0xC3]);
    assert_eq!(text, "hi");
    assert_eq!(d.offset(), 1);
    // The stream ends here: the held byte is never emitted, yet counted.
    assert_eq!(d.finish(), 3);
}

#[test]
fn invalid_middle_byte_is_held_back() {
    let mut d = ChunkedTextDecoder::new();
    let text = d.feed(&[b'o', b'k', 0xFF, b'x']);
    assert_eq!(text, "ok");
    assert_eq!(d.offset(), 2);
    let again = d.feed(b"yz");
    assert_eq!(again, "");
    assert_eq!(d.offset(), 4);
    assert_eq!(d.total(), 6);
}

#[test]
fn empty_feed_changes_nothing() {
    let mut d = ChunkedTextDecoder::new();
    assert_eq!(d.feed(&[]), "");
    assert_eq!(d.offset(), 0);
    assert_eq!(d.room(), CAPACITY);
    assert_eq!(d.total(), 0);
}

#[test]
fn full_buffer_of_text() {
    let input = vec![b'a'; CAPACITY];
    let mut d = ChunkedTextDecoder::new();
    let text = d.feed(&input);
    assert_eq!(text.len(), CAPACITY);
    assert_eq!(d.room(), CAPACITY);
}

#[test]
fn read_outcomes_drive_the_stream() {
    let mut d = ChunkedTextDecoder::new();
    match d.on_read(Some(&[b'h', 0xC3])) {
        DecodeStep::Emit(t) => assert_eq!(t, "h"),
        _ => panic!("expected text"),
    }
    assert!(matches!(d.on_read(None), DecodeStep::Retry));
    assert_eq!(d.offset(), 1);
    assert_eq!(d.total(), 2);
    match d.on_read(Some(&[0xA9])) {
        DecodeStep::Emit(t) => assert_eq!(t, "\u{e9}"),
        _ => panic!("expected text"),
    }
    assert!(matches!(d.on_read(Some(&[])), DecodeStep::End(3)));
}

#[test]
fn end_with_held_byte_reports_raw_count() {
    let mut d = ChunkedTextDecoder::new();
    assert!(matches!(d.on_read(Some(&[b'a', 0xE2])), DecodeStep::Emit(_)));
    assert_eq!(d.offset(), 1);
    assert!(matches!(d.on_read(Some(&[])), DecodeStep::End(2)));
}

#[test]
fn success_status_range() {
    assert!(is_success_status(200));
    assert!(is_success_status(204));
    assert!(is_success_status(299));
    assert!(!is_success_status(199));
    assert!(!is_success_status(300));
    assert!(!is_success_status(404));
    assert!(!is_success_status(500));
}
