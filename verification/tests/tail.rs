use ylurm::tail::{tail_bytes, tail_text, ReadRequest, TailReader, CHUNK_SIZE};

/// What reading the whole file and keeping its last lines gives.
fn expected_tail(file: &[u8], tail_lines: usize) -> String {
    let text = String::from_utf8_lossy(file);
    let lines: Vec<&str> = text.lines().collect();
    let start = lines.len().saturating_sub(tail_lines);
    lines[start..].join("\n")
}

/// Reads `file` through a reader, chunk by chunk, and counts the chunks.
fn read_through(file: &[u8], tail_lines: usize) -> (String, usize) {
    let mut reader = TailReader::new(file.len() as u64, tail_lines);
    let mut chunks = 0;
    while let Some(ReadRequest { offset, len }) = reader.next_read() {
        let from = offset as usize;
        assert!(reader.accept(&file[from..from + len]));
        chunks += 1;
    }
    (reader.finish(), chunks)
}

fn numbered(n: usize) -> Vec<u8> {
    let mut file = Vec::new();
    for i in 1..=n {
        file.extend_from_slice(format!("line {}\n", i).as_bytes());
    }
    file
}

#[test]
fn tail_gives_last_lines() {
    assert_eq!(tail_text(b"a\nb\nc\nd\n", 2), "c\nd");
    assert_eq!(tail_text(b"a\nb\nc\nd", 2), "c\nd");
    assert_eq!(tail_text(b"a\nb\nc\nd\n", 1), "d");
    assert_eq!(tail_bytes(b"a\nb\nc\nd\n", 3), b"b\nc\nd".to_vec());
}

#[test]
fn tail_of_short_file_is_all_lines() {
    assert_eq!(tail_text(b"a\nb\n", 2), "a\nb");
    assert_eq!(tail_text(b"a\nb\n", 3), "a\nb");
    assert_eq!(tail_text(b"a\nb", 500), "a\nb");
    assert_eq!(tail_text(b"only", usize::MAX), "only");
}

#[test]
fn tail_of_empty_file_is_empty() {
    assert_eq!(tail_text(b"", 0), "");
    assert_eq!(tail_text(b"", 500), "");
    assert_eq!(tail_bytes(b"", 5), Vec::<u8>::new());
    let (text, chunks) = read_through(b"", 500);
    assert_eq!(text, "");
    assert_eq!(chunks, 0);
}

#[test]
fn tail_of_no_lines_is_empty() {
    assert_eq!(tail_text(b"a\nb\nc\n", 0), "");
    assert_eq!(tail_text(b"abc", 0), "");
}

#[test]
fn tail_drops_line_endings() {
    assert_eq!(tail_text(b"a\r\nb\r\nc\r\n", 2), "b\nc");
    assert_eq!(tail_text(b"a\n\n\n", 2), "\n");
    assert_eq!(tail_text(b"a\rb\nc\r", 2), "a\rb\nc\r");
    assert_eq!(tail_text(b"\n", 1), "");
    assert_eq!(tail_text(b"\n\n", 5), "\n");
}

#[test]
fn tail_replaces_invalid_bytes() {
    assert_eq!(tail_text(b"ok\n\xff\xfe\n", 1), "\u{fffd}\u{fffd}");
    assert_eq!(tail_text(b"a\xe2\x82\nb", 2), "a\u{fffd}\nb");
    assert_eq!(tail_text("gr\u{fc}n\nbl\u{e4}u\n".as_bytes(), 2), "gr\u{fc}n\nbl\u{e4}u");
}

#[test]
fn tail_is_what_reading_the_whole_file_gives() {
    let files: Vec<Vec<u8>> = vec![
        b"".to_vec(),
        b"\n".to_vec(),
        b"a".to_vec(),
        b"a\n".to_vec(),
        b"a\r\nb\r\n\r\nc".to_vec(),
        b"\xf0\x9f\x98\nx\n\x80\x80y\r\n".to_vec(),
        numbered(7),
        numbered(1000),
        numbered(3000),
    ];
    for file in &files {
        for k in [0usize, 1, 2, 3, 6, 7, 8, 500, 999, 1000, 1001, 5000] {
            let expected = expected_tail(file, k);
            assert_eq!(tail_text(file, k), expected);
            assert_eq!(read_through(file, k).0, expected);
            assert_eq!(String::from_utf8_lossy(&tail_bytes(file, k)), expected);
        }
    }
}

#[test]
fn tail_of_long_lines_crosses_chunks() {
    let mut file = Vec::new();
    for i in 0..10 {
        file.extend_from_slice(format!("{}:", i).as_bytes());
        file.extend(std::iter::repeat(b'x').take(5000));
        file.push(b'\n');
    }
    for k in [1usize, 2, 3, 9, 10, 11] {
        assert_eq!(tail_text(&file, k), expected_tail(&file, k));
    }
}

#[test]
fn tail_keeps_characters_that_chunks_cut() {
    // A three-byte character on each side of every chunk border.
    let mut file = Vec::new();
    while file.len() < 3 * CHUNK_SIZE as usize {
        file.extend_from_slice("\u{20ac}\u{20ac}\u{20ac}\u{20ac}\u{20ac}\n".as_bytes());
        file.push(b'a');
    }
    for k in [1usize, 10, 100, 1000, 5000] {
        assert_eq!(tail_text(&file, k), expected_tail(&file, k));
    }
}

#[test]
fn reader_reads_backwards_in_chunks() {
    let file = numbered(3000);
    let size = file.len() as u64;
    let mut reader = TailReader::new(size, 5);
    let first = reader.next_read().unwrap();
    assert_eq!(first, ReadRequest { offset: size - CHUNK_SIZE, len: CHUNK_SIZE as usize });
    let from = first.offset as usize;
    assert!(reader.accept(&file[from..from + first.len]));
    assert_eq!(reader.next_read(), None);
    assert_eq!(reader.finish(), "line 2996\nline 2997\nline 2998\nline 2999\nline 3000");
}

#[test]
fn reader_stops_only_behind_more_newlines_than_lines() {
    // Exactly as many newlines as lines wanted are not enough: the line
    // before them may begin in an earlier chunk.
    let mut file = vec![b'x'; CHUNK_SIZE as usize];
    file.extend_from_slice(b"tail of first line\n");
    file.extend(std::iter::repeat(b'y').take(CHUNK_SIZE as usize - 1));
    file.push(b'\n');
    let (text, chunks) = read_through(&file, 2);
    assert_eq!(text, expected_tail(&file, 2));
    assert_eq!(chunks, 3);
    let (text, chunks) = read_through(&file, 1);
    assert_eq!(text, expected_tail(&file, 1));
    assert_eq!(chunks, 2);
}

#[test]
fn reader_reads_small_file_at_once() {
    let file = b"a\nb\nc\n";
    let mut reader = TailReader::new(file.len() as u64, 500);
    assert_eq!(reader.next_read(), Some(ReadRequest { offset: 0, len: 6 }));
    assert!(reader.accept(file));
    assert_eq!(reader.next_read(), None);
    assert_eq!(reader.finish(), "a\nb\nc");
}

#[test]
fn reader_reads_to_start_when_lines_are_few() {
    let file = numbered(3000);
    let (text, chunks) = read_through(&file, 5000);
    assert_eq!(text, expected_tail(&file, 5000));
    assert_eq!(chunks, (file.len() + CHUNK_SIZE as usize - 1) / CHUNK_SIZE as usize);
}

#[test]
fn reader_refuses_what_it_did_not_ask_for() {
    let file = b"a\nb\nc\n";
    let mut reader = TailReader::new(file.len() as u64, 1);
    assert!(!reader.accept(b"a\nb"));
    assert!(!reader.accept(b""));
    assert_eq!(reader.next_read(), Some(ReadRequest { offset: 0, len: 6 }));
    assert!(reader.accept(file));
    assert!(!reader.accept(file));
    assert!(!reader.accept(b""));
    assert_eq!(reader.finish(), "c");
    let mut empty = TailReader::new(0, 1);
    assert!(!empty.accept(b""));
    assert!(!empty.accept(b"x"));
    assert_eq!(empty.finish(), "");
}

#[test]
fn scenario_thousand_lines_tail_five_hundred() {
    let file = numbered(1000);
    let text = tail_text(&file, 500);
    assert_eq!(text.lines().count(), 500);
    assert!(text.starts_with("line 501\n"));
    assert!(text.ends_with("\nline 1000"));
    let mut longer = file.clone();
    longer.extend_from_slice(b"line 1001\n");
    let text = tail_text(&longer, 500);
    assert_eq!(text.lines().count(), 500);
    assert!(text.starts_with("line 502\n"));
    assert!(text.ends_with("\nline 1001"));
}

/// A sequence of numbers that looks random and is the same in every run.
fn next_number(state: &mut u64) -> u64 {
    *state = state.wrapping_mul(6364136223846793005).wrapping_add(1442695040888963407);
    *state >> 33
}

fn mixed_bytes(state: &mut u64, len: usize) -> Vec<u8> {
    const ALPHABET: [u8; 12] =
        [b'a', b'b', b'\n', b'\n', b'\r', b' ', 0xe2, 0x82, 0xac, 0xc3, 0xa9, 0xff];
    (0..len).map(|_| ALPHABET[next_number(state) as usize % ALPHABET.len()]).collect()
}

#[test]
fn tail_of_mixed_bytes_is_what_reading_the_whole_file_gives() {
    let mut state = 7;
    for _ in 0..3000 {
        let len = next_number(&mut state) as usize % 40;
        let file = mixed_bytes(&mut state, len);
        for k in 0..6 {
            let expected = expected_tail(&file, k);
            assert_eq!(tail_text(&file, k), expected, "{:?} {}", file, k);
        }
    }
}

#[test]
fn tail_of_long_mixed_bytes_is_what_reading_the_whole_file_gives() {
    let mut state = 11;
    for round in 0..12 {
        let len = 3 * CHUNK_SIZE as usize + next_number(&mut state) as usize % 5000;
        let mut file = mixed_bytes(&mut state, len);
        if round % 2 == 0 {
            // Few line endings, so that lines cross chunks.
            for b in file.iter_mut() {
                if *b == b'\n' && next_number(&mut state) % 500 != 0 {
                    *b = b'x';
                }
            }
        }
        for k in [0usize, 1, 2, 5, 50, 2000, 100000] {
            let expected = expected_tail(&file, k);
            assert_eq!(tail_text(&file, k), expected);
            assert_eq!(read_through(&file, k).0, expected);
        }
    }
}
