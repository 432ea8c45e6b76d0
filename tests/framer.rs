use aunisoma::line_breaker::LineBreaker;

fn run(capacity: usize, chunks: &[&[u8]]) -> Vec<Vec<u8>> {
    let mut framer = LineBreaker::new(capacity);
    let mut lines = Vec::new();
    for chunk in chunks {
        if let Some(line) = framer.process(chunk) {
            lines.push(line.to_vec());
        }
        while let Some(line) = framer.next_line() {
            lines.push(line.to_vec());
        }
    }
    lines
}

#[test]
fn whole_buffer_gives_both_lines() {
    assert_eq!(run(64, &[b"AB\nCD\n"]), vec![b"AB".to_vec(), b"CD".to_vec()]);
}

#[test]
fn byte_by_byte_gives_both_lines() {
    let chunks: Vec<&[u8]> = vec![b"A", b"B", b"\n", b"C", b"D", b"\n"];
    assert_eq!(run(64, &chunks), vec![b"AB".to_vec(), b"CD".to_vec()]);
}

#[test]
fn uneven_chunks_give_both_lines() {
    let chunks: Vec<&[u8]> = vec![b"A", b"B\nC", b"D\n"];
    assert_eq!(run(6, &chunks), vec![b"AB".to_vec(), b"CD".to_vec()]);
}

#[test]
fn process_returns_first_line_and_keeps_rest() {
    let mut framer = LineBreaker::new(16);
    assert_eq!(framer.process(b"AB\nCD\n"), Some(&b"AB"[..]));
    assert_eq!(framer.next_line(), Some(&b"CD"[..]));
    assert_eq!(framer.next_line(), None);
}

#[test]
fn empty_chunk_gives_none() {
    let mut framer = LineBreaker::new(16);
    assert_eq!(framer.process(b""), None);
    assert_eq!(framer.process(b"AB"), None);
    assert_eq!(framer.process(b""), None);
    assert_eq!(framer.process(b"\n"), Some(&b"AB"[..]));
}

#[test]
fn overlong_line_is_dropped_and_next_survives() {
    let mut framer = LineBreaker::new(8);
    assert_eq!(framer.process(b"0123456789ABCDEF\nV\n"), Some(&b"V"[..]));
}

#[test]
fn overlong_line_in_pieces_is_dropped() {
    let chunks: Vec<&[u8]> = vec![b"0123", b"4567", b"89", b"\nE", b"\n"];
    assert_eq!(run(8, &chunks), vec![b"E".to_vec()]);
}

#[test]
fn line_filling_capacity_is_dropped() {
    let chunks: Vec<&[u8]> = vec![b"1234", b"\nok\n"];
    assert_eq!(run(4, &chunks), vec![b"ok".to_vec()]);
}

#[test]
fn empty_line_is_a_line() {
    assert_eq!(run(8, &[b"\n"]), vec![Vec::<u8>::new()]);
}

#[test]
fn reset_forgets_partial_line() {
    let mut framer = LineBreaker::new(16);
    assert_eq!(framer.process(b"junk"), None);
    framer.reset();
    assert_eq!(framer.process(b"V\n"), Some(&b"V"[..]));
}
