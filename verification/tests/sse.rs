use noetive::semantik::limits::MAX_SSE_FRAME_BYTES;
use noetive::semantik::sse::{Frame, ScanError, Scanner};

fn collect(chunks: &[&[u8]]) -> Vec<Frame> {
    let mut s = Scanner::new();
    let mut out = Vec::new();
    for c in chunks {
        out.extend(s.feed(c).unwrap());
    }
    if let Some(f) = s.close().unwrap() {
        out.push(f);
    }
    out
}

fn frame(event: &str, data: &str) -> Frame {
    Frame {
        event: event.into(),
        data: data.into(),
    }
}

#[test]
fn single_frame_lf() {
    let frames = collect(&[b"event: match\ndata: hello\n\n"]);
    assert_eq!(frames, vec![frame("match", "hello")]);
}

#[test]
fn crlf_line_endings() {
    let frames = collect(&[b"event: match\r\ndata: hello\r\n\r\n"]);
    assert_eq!(frames, vec![frame("match", "hello")]);
}

#[test]
fn bare_cr_line_endings() {
    let frames = collect(&[b"event: match\rdata: hello\r\r"]);
    assert_eq!(frames, vec![frame("match", "hello")]);
}

#[test]
fn multi_line_data_joined_with_newline() {
    let frames = collect(&[b"event: match\ndata: a\ndata: b\ndata: c\n\n"]);
    assert_eq!(frames, vec![frame("match", "a\nb\nc")]);
}

#[test]
fn comment_lines_ignored() {
    let frames = collect(&[b":this is a comment\nevent: match\ndata: x\n\n"]);
    assert_eq!(frames, vec![frame("match", "x")]);
}

#[test]
fn unknown_fields_ignored() {
    let frames = collect(&[b"event: match\nid: 42\nretry: 1000\ndata: x\n\n"]);
    assert_eq!(frames, vec![frame("match", "x")]);
}

#[test]
fn multiple_frames() {
    let frames = collect(&[b"event: subscribed\ndata: {\"id\":1}\n\nevent: match\ndata: a\n\n"]);
    assert_eq!(
        frames,
        vec![frame("subscribed", "{\"id\":1}"), frame("match", "a")]
    );
}

#[test]
fn chunked_byte_at_a_time() {
    let input = b"event: match\ndata: hi\n\n";
    let mut s = Scanner::new();
    let mut out = Vec::new();
    for b in input {
        out.extend(s.feed(&[*b]).unwrap());
    }
    out.extend(s.close().unwrap());
    assert_eq!(out, vec![frame("match", "hi")]);
}

#[test]
fn split_at_crlf_boundary() {
    let mut s = Scanner::new();
    let mut out = Vec::new();
    // Feed \r alone, then \n on next chunk. Should not produce a
    // spurious empty line.
    out.extend(s.feed(b"event: match\r").unwrap());
    out.extend(s.feed(b"\ndata: ok\n\n").unwrap());
    out.extend(s.close().unwrap());
    assert_eq!(out, vec![frame("match", "ok")]);
}

#[test]
fn unterminated_frame_flushed_on_close() {
    let frames = collect(&[b"event: match\ndata: hi"]);
    assert_eq!(frames, vec![frame("match", "hi")]);
}

#[test]
fn empty_lines_between_empty_frames_skipped() {
    let frames = collect(&[b"\n\n\nevent: match\ndata: x\n\n"]);
    assert_eq!(frames, vec![frame("match", "x")]);
}

#[test]
fn extra_space_after_colon_preserved() {
    // One space after ':' is stripped; additional spaces stay.
    let frames = collect(&[b"data:  two leading spaces\n\n"]);
    assert_eq!(frames, vec![frame("", " two leading spaces")]);
}

#[test]
fn frame_too_large_caps() {
    let mut huge = b"event: match\ndata: ".to_vec();
    huge.extend(std::iter::repeat(b'a').take(MAX_SSE_FRAME_BYTES + 100));
    huge.extend_from_slice(b"\n\n");
    let mut s = Scanner::new();
    let err = s.feed(&huge).unwrap_err();
    assert!(matches!(err, ScanError::FrameTooLarge(_)));
}

#[test]
fn arbitrary_input_never_panics() {
    // Light property-style smoke test. Feed pseudo-random bytes
    // and ensure the scanner never panics.
    let mut s = Scanner::new();
    let mut seed: u64 = 0x9E3779B97F4A7C15;
    for _ in 0..200 {
        seed = seed
            .wrapping_mul(6364136223846793005)
            .wrapping_add(1442695040888963407);
        let len = (seed >> 32) as usize % 64;
        let bytes: Vec<u8> = (0..len)
            .map(|i| ((seed >> (i % 56)) & 0xFF) as u8)
            .collect();
        let _ = s.feed(&bytes);
    }
    let _ = s.close();
}

#[test]
fn every_cut_into_two_chunks_reads_the_same() {
    let input: &[u8] = b"event: a\r\ndata: 1\rdata: 2\n\r\n: note\ndata: x\r\r\nevent: b\n";
    let whole = collect(&[input]);
    assert_eq!(
        whole,
        vec![frame("a", "1\n2"), frame("", "x"), frame("b", "")]
    );
    for cut in 0..=input.len() {
        assert_eq!(collect(&[&input[..cut], &input[cut..]]), whole, "cut at {cut}");
    }
}

#[test]
fn leading_empty_data_line_keeps_its_newline() {
    assert_eq!(collect(&[b"data:\ndata: x\n\n"]), vec![frame("", "\nx")]);
    assert_eq!(collect(&[b"data: x\ndata:\n\n"]), vec![frame("", "x\n")]);
    assert_eq!(collect(&[b"data\ndata\n\n"]), vec![frame("", "\n")]);
}

#[test]
fn frames_that_say_nothing_are_left_out() {
    assert_eq!(collect(&[b"data:\n\nevent:\n\nid: 7\n\n"]), vec![]);
}

#[test]
fn a_frame_at_the_cap_passes_and_one_byte_more_fails() {
    // "data: " counts with the value.
    let line = |n: usize| {
        let mut v = b"data: ".to_vec();
        v.extend(std::iter::repeat(b'a').take(n));
        v.extend_from_slice(b"\n\n");
        v
    };
    let mut s = Scanner::new();
    let frames = s.feed(&line(MAX_SSE_FRAME_BYTES - 6)).unwrap();
    assert_eq!(frames.len(), 1);
    assert_eq!(frames[0].data.len(), MAX_SSE_FRAME_BYTES - 6);
    let mut s = Scanner::new();
    let err = s.feed(&line(MAX_SSE_FRAME_BYTES - 5)).unwrap_err();
    assert!(matches!(err, ScanError::FrameTooLarge(n) if n == MAX_SSE_FRAME_BYTES));
    assert_eq!(err.text(), "sse: frame exceeds maximum size 65536 bytes");
}

#[test]
fn the_size_of_one_frame_does_not_count_for_the_next() {
    let mut big = b"id: ".to_vec();
    big.extend(std::iter::repeat(b'a').take(MAX_SSE_FRAME_BYTES - 10));
    big.extend_from_slice(b"\n\n");
    let mut s = Scanner::new();
    assert!(s.feed(&big).unwrap().is_empty());
    assert!(s.feed(&big).unwrap().is_empty());
    assert_eq!(s.feed(b"data: x\n\n").unwrap(), vec![frame("", "x")]);
}

#[test]
fn a_line_over_the_cap_fails_before_it_ends() {
    let mut s = Scanner::new();
    let err = s.feed(&vec![b'a'; MAX_SSE_FRAME_BYTES + 1]).unwrap_err();
    assert!(matches!(err, ScanError::FrameTooLarge(n) if n == MAX_SSE_FRAME_BYTES));

    let mut s = Scanner::new();
    assert!(s.feed(b"event: x\ndata: ").unwrap().is_empty());
    let room = MAX_SSE_FRAME_BYTES - 14;
    assert!(s.feed(&vec![b'a'; room]).unwrap().is_empty());
    assert!(s.feed(b"\r").unwrap().is_empty());
    let frames = s.feed(b"\n\n").unwrap();
    assert_eq!(frames.len(), 1);
    assert_eq!(frames[0].data.len(), room);

    let mut s = Scanner::new();
    assert!(s.feed(b"event: x\ndata: ").unwrap().is_empty());
    assert!(s.feed(&vec![b'a'; room + 1]).is_err());
    // The rest of the line, and of the frame, stays over the cap.
    assert!(s.feed(b"a").is_err());
    assert!(s.feed(b"\n").is_err());
    assert_eq!(s.feed(b"\ndata: y\n\n").unwrap(), vec![frame("x", ""), frame("", "y")]);
}

#[test]
fn frames_before_an_overlong_line_are_yielded_first() {
    for end in ["", "\n", "\n\n", "\n\ndata: z\n\n"] {
        let mut chunk = b"data: x\n\ndata: y\n\n".to_vec();
        chunk.extend(vec![b'a'; MAX_SSE_FRAME_BYTES + 1]);
        chunk.extend(end.as_bytes());
        let mut s = Scanner::new();
        assert_eq!(s.feed(&chunk).unwrap(), vec![frame("", "x"), frame("", "y")]);
        assert!(s.has_failed());
        assert!(matches!(s.feed(b""), Err(ScanError::FrameTooLarge(_))));

        let mut s = Scanner::new();
        assert_eq!(s.feed(&chunk).unwrap().len(), 2);
        assert!(matches!(s.close(), Err(ScanError::FrameTooLarge(_))));
        assert!(matches!(s.close(), Ok(None)));

        // Cut at any place, the same frames come out before the error.
        for cut in [1, 8, 9, 10, 18, 19, 1000, chunk.len() - 1] {
            let mut s = Scanner::new();
            let mut out = s.feed(&chunk[..cut]).unwrap();
            let mut failed = false;
            for part in [&chunk[cut..], &b""[..]] {
                match s.feed(part) {
                    Ok(frames) => out.extend(frames),
                    Err(_) => {
                        failed = true;
                        break;
                    }
                }
            }
            assert!(failed, "cut at {cut}");
            assert_eq!(out, vec![frame("", "x"), frame("", "y")], "cut at {cut}");
        }
    }
}

#[test]
fn an_oversized_line_fails_on_close_too() {
    let mut s = Scanner::new();
    assert!(s.feed(&vec![b'a'; MAX_SSE_FRAME_BYTES + 1]).is_err());
    assert!(matches!(s.close(), Err(ScanError::FrameTooLarge(_))));
    assert!(matches!(s.close(), Ok(None)));
}

#[test]
fn a_comment_of_any_length_is_ignored() {
    let mut s = Scanner::new();
    assert!(s.feed(b":").unwrap().is_empty());
    for _ in 0..5 {
        assert!(s.feed(&vec![b'a'; MAX_SSE_FRAME_BYTES]).unwrap().is_empty());
    }
    assert!(s.feed(b"\r").unwrap().is_empty());
    assert_eq!(s.feed(b"\ndata: x\n\n").unwrap(), vec![frame("", "x")]);
    // The end of a stream ends a comment as well.
    assert!(s.feed(b"data: y\n: note").unwrap().is_empty());
    assert_eq!(s.close().unwrap(), Some(frame("", "y")));
}

#[test]
fn a_frame_with_an_event_alone_is_read_back() {
    assert_eq!(collect(&[b"event: ping\n\n"]), vec![frame("ping", "")]);
}

#[test]
fn invalid_utf8_is_replaced() {
    let frames = collect(&[b"data: a\xffb\n\n"]);
    assert_eq!(frames, vec![frame("", "a\u{fffd}b")]);
}

#[test]
fn a_field_without_a_colon_has_no_value() {
    assert_eq!(collect(&[b"event\ndata: x\n\n"]), vec![frame("", "x")]);
    assert_eq!(collect(&[b"data:x:y\n\n"]), vec![frame("", "x:y")]);
}

#[test]
fn the_last_event_line_wins() {
    assert_eq!(
        collect(&[b"event: a\nevent: b\ndata: x\n\n"]),
        vec![frame("b", "x")]
    );
}
