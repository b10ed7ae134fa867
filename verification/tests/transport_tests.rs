use chat_app::transport::{decode_line, frame_line, Line, LineBuffer, CARRIAGE_RETURN, LINE_FEED};

fn lines_of(buffer: &mut LineBuffer) -> Vec<Vec<u8>> {
    let mut lines = Vec::new();
    while let Some(line) = buffer.next_line() {
        lines.push(line);
    }
    lines
}

#[test]
fn the_line_ending_bytes() {
    assert_eq!(LINE_FEED, b'\n');
    assert_eq!(CARRIAGE_RETURN, b'\r');
}

#[test]
fn an_empty_buffer_holds_no_line() {
    let mut buffer = LineBuffer::new();
    assert_eq!(buffer.next_line(), None);
    assert_eq!(buffer.next_text(), None);
    assert!(!buffer.has_ended());
}

#[test]
fn lines_are_cut_at_line_feeds() {
    let mut buffer = LineBuffer::new();
    buffer.push(b"one\ntwo\nthree");
    assert_eq!(buffer.next_line(), Some(b"one".to_vec()));
    assert_eq!(buffer.next_line(), Some(b"two".to_vec()));
    assert_eq!(buffer.next_line(), None);
    buffer.push(b"\n");
    assert_eq!(buffer.next_line(), Some(b"three".to_vec()));
    assert_eq!(buffer.next_line(), None);
}

#[test]
fn a_line_may_arrive_in_pieces() {
    let mut buffer = LineBuffer::new();
    for piece in [&b"he"[..], b"l", b"", b"lo", b" wor", b"ld\nne", b"xt\n"] {
        buffer.push(piece);
    }
    assert_eq!(lines_of(&mut buffer), vec![b"hello world".to_vec(), b"next".to_vec()]);
}

#[test]
fn the_cut_of_the_chunks_does_not_matter() {
    let stream = b"alpha\r\nbeta\n\ngamma\r\r\ndelta";
    let mut whole = LineBuffer::new();
    whole.push(stream);
    let expected = lines_of(&mut whole);
    assert_eq!(
        expected,
        vec![b"alpha".to_vec(), b"beta".to_vec(), b"".to_vec(), b"gamma\r".to_vec()]
    );
    for cut in 0..=stream.len() {
        let mut buffer = LineBuffer::new();
        buffer.push(&stream[..cut]);
        let mut lines = lines_of(&mut buffer);
        buffer.push(&stream[cut..]);
        lines.extend(lines_of(&mut buffer));
        assert_eq!(lines, expected);
    }
    let mut bytewise = LineBuffer::new();
    let mut lines = Vec::new();
    for byte in stream.iter() {
        bytewise.push(&[*byte]);
        lines.extend(lines_of(&mut bytewise));
    }
    assert_eq!(lines, expected);
}

#[test]
fn one_carriage_return_belongs_to_the_line_ending() {
    let mut buffer = LineBuffer::new();
    buffer.push(b"dos\r\nunix\nodd\r\r\n\r\nmid\rdle\n");
    assert_eq!(
        lines_of(&mut buffer),
        vec![
            b"dos".to_vec(),
            b"unix".to_vec(),
            b"odd\r".to_vec(),
            b"".to_vec(),
            b"mid\rdle".to_vec()
        ]
    );
}

#[test]
fn an_empty_line_is_a_line() {
    let mut buffer = LineBuffer::new();
    buffer.push(b"\n\n");
    assert_eq!(lines_of(&mut buffer), vec![Vec::<u8>::new(), Vec::<u8>::new()]);
}

#[test]
fn what_is_left_at_the_end_of_the_stream_is_a_line() {
    let mut buffer = LineBuffer::new();
    buffer.push(b"first\nunfinished\r");
    assert_eq!(buffer.next_line(), Some(b"first".to_vec()));
    assert_eq!(buffer.next_line(), None);
    buffer.end();
    assert!(buffer.has_ended());
    assert_eq!(buffer.next_line(), Some(b"unfinished".to_vec()));
    assert_eq!(buffer.next_line(), None);
    assert_eq!(buffer.next_line(), None);
}

#[test]
fn a_stream_that_ends_after_a_line_feed_leaves_nothing() {
    let mut buffer = LineBuffer::new();
    buffer.push(b"only\n");
    buffer.end();
    assert_eq!(buffer.next_line(), Some(b"only".to_vec()));
    assert_eq!(buffer.next_line(), None);
}

#[test]
fn a_stream_that_ends_at_once_holds_no_line() {
    let mut buffer = LineBuffer::new();
    buffer.end();
    assert_eq!(buffer.next_line(), None);
}

#[test]
fn a_long_line_is_kept_whole() {
    let mut buffer = LineBuffer::new();
    let long = vec![b'x'; 100_000];
    for chunk in long.chunks(4096) {
        buffer.push(chunk);
        assert_eq!(buffer.next_line(), None);
    }
    buffer.push(b"\n");
    assert_eq!(buffer.next_line(), Some(long));
}

#[test]
fn text_is_decoded_as_utf8() {
    assert_eq!(decode_line(b"plain".to_vec()), Line::Text("plain".to_string()));
    assert_eq!(decode_line(Vec::new()), Line::Text(String::new()));
    assert_eq!(
        decode_line("gr\u{fc}\u{df}e \u{4e16}\u{754c} \u{1f980}".as_bytes().to_vec()),
        Line::Text("gr\u{fc}\u{df}e \u{4e16}\u{754c} \u{1f980}".to_string())
    );
}

#[test]
fn bytes_that_are_no_utf8_are_malformed() {
    assert_eq!(decode_line(vec![0xff]), Line::Malformed);
    assert_eq!(decode_line(vec![b'a', 0xc3]), Line::Malformed);
    assert_eq!(decode_line(vec![0xc0, 0x80]), Line::Malformed);
    assert_eq!(decode_line(vec![0xed, 0xa0, 0x80]), Line::Malformed);
    assert_eq!(decode_line(vec![0xf4, 0x90, 0x80, 0x80]), Line::Malformed);
}

#[test]
fn a_character_may_be_split_between_chunks() {
    let mut buffer = LineBuffer::new();
    let bytes = "h\u{e9}llo \u{1f980}\n".as_bytes();
    for byte in bytes {
        buffer.push(&[*byte]);
    }
    assert_eq!(buffer.next_text(), Some(Line::Text("h\u{e9}llo \u{1f980}".to_string())));
    assert_eq!(buffer.next_text(), None);
}

#[test]
fn next_text_reports_malformed_lines_and_goes_on() {
    let mut buffer = LineBuffer::new();
    buffer.push(&[b'o', b'k', b'\n', 0x80, b'\n', b'f', b'i', b'n', b'e', b'\r', b'\n']);
    assert_eq!(buffer.next_text(), Some(Line::Text("ok".to_string())));
    assert_eq!(buffer.next_text(), Some(Line::Malformed));
    assert_eq!(buffer.next_text(), Some(Line::Text("fine".to_string())));
    assert_eq!(buffer.next_text(), None);
}

#[test]
fn a_framed_line_ends_with_one_line_feed() {
    assert_eq!(frame_line("hello"), b"hello\n".to_vec());
    assert_eq!(frame_line(""), b"\n".to_vec());
    assert_eq!(frame_line("gr\u{fc}n"), vec![b'g', b'r', 0xc3, 0xbc, b'n', b'\n']);
}

#[test]
fn framed_lines_never_merge() {
    let mut wire = Vec::new();
    for text in ["alice: hello", "", "bob: hi @alice", "System: User 'bob' left the chat"] {
        wire.extend(frame_line(text));
    }
    let mut buffer = LineBuffer::new();
    buffer.push(&wire);
    let mut texts = Vec::new();
    while let Some(line) = buffer.next_text() {
        texts.push(line);
    }
    assert_eq!(
        texts,
        vec![
            Line::Text("alice: hello".to_string()),
            Line::Text(String::new()),
            Line::Text("bob: hi @alice".to_string()),
            Line::Text("System: User 'bob' left the chat".to_string()),
        ]
    );
}

#[test]
fn a_framed_line_reads_back_unchanged() {
    for text in [
        "hello",
        "  spaces kept  ",
        "tab\tand \u{1f980} and \u{e9}",
        "carriage\rreturn inside",
        "",
    ] {
        let mut buffer = LineBuffer::new();
        buffer.push(&frame_line(text));
        assert_eq!(buffer.next_text(), Some(Line::Text(text.to_string())));
        assert_eq!(buffer.next_text(), None);
    }
}

#[test]
fn a_carriage_return_at_the_end_of_a_text_does_not_read_back() {
    let mut buffer = LineBuffer::new();
    buffer.push(&frame_line("hi\r"));
    assert_eq!(buffer.next_text(), Some(Line::Text("hi".to_string())));
}
