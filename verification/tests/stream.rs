//! The lines that are relayed of a process's output.

use elevated_exec::stream::{decode_line, relay, strip_line, LineBuffer};

fn strings(lines: &[&str]) -> Vec<String> {
    lines.iter().map(|l| l.to_string()).collect()
}

#[test]
fn lines_come_in_order_without_their_newlines() {
    assert_eq!(relay(b"one\ntwo\nthree\n"), strings(&["one", "two", "three"]));
}

#[test]
fn an_unterminated_last_line_is_relayed() {
    assert_eq!(relay(b"one\ntwo"), strings(&["one", "two"]));
    assert_eq!(relay(b"one"), strings(&["one"]));
}

#[test]
fn empty_output_has_no_lines() {
    assert_eq!(relay(b""), Vec::<String>::new());
}

#[test]
fn empty_lines_are_lines() {
    assert_eq!(relay(b"\n"), strings(&[""]));
    assert_eq!(relay(b"a\n\n\nb\n"), strings(&["a", "", "", "b"]));
}

#[test]
fn a_carriage_return_before_the_newline_goes_with_it() {
    assert_eq!(relay(b"one\r\ntwo\r\n"), strings(&["one", "two"]));
    assert_eq!(relay(b"\r\n"), strings(&[""]));
}

#[test]
fn only_one_carriage_return_is_taken_and_only_before_a_newline() {
    assert_eq!(relay(b"one\r\r\n"), strings(&["one\r"]));
    assert_eq!(relay(b"one\rtwo\n"), strings(&["one\rtwo"]));
    assert_eq!(relay(b"one\r"), strings(&["one\r"]));
}

#[test]
fn a_malformed_line_is_left_out_and_the_stream_goes_on() {
    assert_eq!(relay(b"before\n\xff\xfe\nafter\n"), strings(&["before", "after"]));
    assert_eq!(relay(b"\xffbad\ngood\n"), strings(&["good"]));
    assert_eq!(relay(b"good\nbad\xc3\n"), strings(&["good"]));
    assert_eq!(relay(b"good\nbad\xc3"), strings(&["good"]));
    assert_eq!(relay(b"a\n\x80\nb\n\xc0\xaf\nc\n"), strings(&["a", "b", "c"]));
}

#[test]
fn surrogates_and_overlong_forms_are_malformed() {
    assert_eq!(relay(b"\xed\xa0\x80\nok\n"), strings(&["ok"]));
    assert_eq!(relay(b"\xe0\x80\x80\nok\n"), strings(&["ok"]));
    assert_eq!(relay(b"\xf4\x90\x80\x80\nok\n"), strings(&["ok"]));
}

#[test]
fn text_beyond_ascii_is_decoded() {
    assert_eq!(
        relay("h\u{e9}llo\n\u{65e5}\u{672c}\n\u{1f600}\n".as_bytes()),
        strings(&["h\u{e9}llo", "\u{65e5}\u{672c}", "\u{1f600}"])
    );
}

#[test]
fn relay_agrees_with_the_standard_line_reader_on_text() {
    let text = "alpha\nbeta\r\n\ngamma delta\n  indented\ttabbed\nlast";
    let expected: Vec<String> = text.lines().map(|l| l.to_string()).collect();
    assert_eq!(relay(text.as_bytes()), expected);
}

#[test]
fn the_terminator_is_stripped() {
    assert_eq!(strip_line(b"abc\n".to_vec()), b"abc".to_vec());
    assert_eq!(strip_line(b"abc\r\n".to_vec()), b"abc".to_vec());
    assert_eq!(strip_line(b"abc".to_vec()), b"abc".to_vec());
    assert_eq!(strip_line(b"abc\r".to_vec()), b"abc\r".to_vec());
    assert_eq!(strip_line(b"\n".to_vec()), b"".to_vec());
    assert_eq!(strip_line(b"\r\n".to_vec()), b"".to_vec());
    assert_eq!(strip_line(b"".to_vec()), b"".to_vec());
    assert_eq!(strip_line(b"abc\n\n".to_vec()), b"abc\n".to_vec());
}

#[test]
fn one_line_is_decoded_or_dropped() {
    assert_eq!(decode_line(b"hello\n".to_vec()), Some("hello".to_string()));
    assert_eq!(decode_line(b"h\xc3\xa9\r\n".to_vec()), Some("h\u{e9}".to_string()));
    assert_eq!(decode_line(b"".to_vec()), Some(String::new()));
    assert_eq!(decode_line(b"\xc3\n".to_vec()), None);
    assert_eq!(decode_line(b"\xa9\n".to_vec()), None);
}

#[test]
fn chunks_do_not_matter() {
    let output: &[u8] = b"first\nsec\xffond\nth\xc3\xa9ird\r\n\nfifth";
    let whole = relay(output);
    assert_eq!(whole, strings(&["first", "th\u{e9}ird", "", "fifth"]));
    for size in 1..=output.len() {
        let mut buffer = LineBuffer::new();
        let mut lines: Vec<String> = Vec::new();
        for chunk in output.chunks(size) {
            lines.extend(buffer.feed(chunk));
        }
        lines.extend(buffer.finish());
        assert_eq!(lines, whole);
    }
}

#[test]
fn a_chunk_relays_the_lines_it_completes_and_keeps_the_rest() {
    let mut buffer = LineBuffer::new();
    assert_eq!(buffer.pending_len(), 0);
    assert_eq!(buffer.feed(b"par"), Vec::<String>::new());
    assert_eq!(buffer.pending_len(), 3);
    assert_eq!(buffer.feed(b"tial\nnext\nre"), strings(&["partial", "next"]));
    assert_eq!(buffer.pending_len(), 2);
    assert_eq!(buffer.feed(b""), Vec::<String>::new());
    assert_eq!(buffer.feed(b"st\n"), strings(&["rest"]));
    assert_eq!(buffer.pending_len(), 0);
    assert_eq!(buffer.finish(), None);
}

#[test]
fn a_character_split_over_two_chunks_is_whole_again() {
    let mut buffer = LineBuffer::new();
    assert_eq!(buffer.feed(b"caf\xc3"), Vec::<String>::new());
    assert_eq!(buffer.feed(b"\xa9\n"), strings(&["caf\u{e9}"]));
    assert_eq!(buffer.finish(), None);
}

#[test]
fn finishing_relays_what_was_kept() {
    let mut buffer = LineBuffer::new();
    assert_eq!(buffer.feed(b"done\nnot done"), strings(&["done"]));
    assert_eq!(buffer.finish(), Some("not done".to_string()));
    let mut bad = LineBuffer::new();
    assert_eq!(bad.feed(b"ok\n\xff"), strings(&["ok"]));
    assert_eq!(bad.finish(), None);
}
