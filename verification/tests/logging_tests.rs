use benchhub::logging::{clean_terminal_chunk, trim_terminal_buffer, TerminalRingBuffer};

#[test]
fn test_ring_buffer_basic() {
    let mut buf = TerminalRingBuffer::new(3);
    buf.push_str("line 1\n");
    buf.push_str("line 2\n");
    buf.push_str("line 3\n");
    assert_eq!(buf.len(), 3);
    assert_eq!(buf.to_string(), "line 1\nline 2\nline 3\n");

    buf.push_str("line 4\n");
    assert_eq!(buf.len(), 3);
    assert_eq!(buf.to_string(), "line 2\nline 3\nline 4\n");
}

#[test]
fn test_ring_buffer_partial_lines() {
    let mut buf = TerminalRingBuffer::new(3);
    buf.push_str("part1 ");
    buf.push_str("part2\n");
    assert_eq!(buf.to_string(), "part1 part2\n");

    buf.push_str("another partial");
    assert_eq!(buf.to_string(), "part1 part2\nanother partial");

    buf.push_str(" completed\n");
    assert_eq!(buf.to_string(), "part1 part2\nanother partial completed\n");
}

#[test]
fn test_ring_buffer_resize() {
    let mut buf = TerminalRingBuffer::new(5);
    for i in 1..=5 {
        buf.push_str(&format!("line {}\n", i));
    }
    assert_eq!(buf.len(), 5);

    buf.set_max_lines(2);
    assert_eq!(buf.len(), 2);
    assert_eq!(buf.to_string(), "line 4\nline 5\n");
}

#[test]
fn test_ring_buffer_clear() {
    let mut buf = TerminalRingBuffer::new(5);
    buf.push_str("some lines\nhere\n");
    assert!(!buf.is_empty());
    buf.clear();
    assert!(buf.is_empty());
    assert_eq!(buf.to_string(), "");
}

#[test]
fn test_trim_terminal_buffer() {
    let mut buf = String::new();
    for i in 1..=500 {
        buf.push_str(&format!("Line number {}\n", i));
    }

    trim_terminal_buffer(&mut buf, 50, 2000);
    assert!(buf.lines().count() <= 50);
    assert!(buf.len() <= 2000);
    assert!(buf.ends_with("Line number 500\n"));
}

#[test]
fn ring_buffer_capacity_is_at_least_one() {
    let mut buf = TerminalRingBuffer::new(0);
    assert_eq!(buf.max_lines(), 1);
    buf.push_str("a\nb\nc");
    assert_eq!(buf.len(), 1);
    assert_eq!(buf.to_string(), "c");
    buf.push_str("d\n");
    assert_eq!(buf.to_string(), "cd\n");
}

#[test]
fn ring_buffer_cleans_and_joins_chunks() {
    let mut whole = TerminalRingBuffer::new(10);
    whole.push_str("alpha\tbeta\r\ngamma\rdelta\x1b[32m ok\x1b[0m\n");
    assert_eq!(whole.to_string(), "alpha    beta\ngamma\ndelta ok\n");
    assert_eq!(whole.len(), 3);

    let mut split = TerminalRingBuffer::new(10);
    split.push_str("alpha    be");
    split.push_str("ta\ngam");
    split.push_str("ma\ndelta ok\n");
    assert_eq!(split.to_string(), whole.to_string());
    assert_eq!(split.len(), whole.len());
}

#[test]
fn clean_chunk_normalises_whitespace_and_colors() {
    assert_eq!(clean_terminal_chunk("a\tb"), "a    b");
    assert_eq!(clean_terminal_chunk("x\r\ny\rz"), "x\ny\nz");
    assert_eq!(clean_terminal_chunk("\x1b[1;31mred\x1b[K"), "red");
    assert_eq!(clean_terminal_chunk(""), "");
}

#[test]
fn trim_keeps_recent_lines_only() {
    let mut buf = String::from("one\ntwo\nthree\nfour\n");
    trim_terminal_buffer(&mut buf, 2, 1000);
    assert_eq!(buf, "three\nfour\n");

    let mut partial = String::from("one\ntwo\nthree");
    trim_terminal_buffer(&mut partial, 1, 1000);
    assert_eq!(partial, "two\nthree");

    let mut empty = String::new();
    trim_terminal_buffer(&mut empty, 0, 0);
    assert_eq!(empty, "");
}

#[test]
fn trim_by_bytes_cuts_at_line_starts_and_char_boundaries() {
    let mut buf = String::from("ééééé\nabc\n");
    trim_terminal_buffer(&mut buf, 100, 6);
    assert_eq!(buf, "abc\n");

    let mut long_last = String::from("short\nthis line is far too long\n");
    trim_terminal_buffer(&mut long_last, 100, 5);
    assert_eq!(long_last, "");
}

#[test]
fn buffer_keeps_the_last_lines_of_its_text() {
    let mut b = TerminalRingBuffer::new(2);
    b.push_str("one\ntw");
    b.push_str("o\nthree\nfour");
    let text = b.to_string();
    assert_eq!(text, "three\nfour");
    assert_eq!(b.len(), 2);
    assert_eq!(b.max_lines(), 2);
    let mut c = TerminalRingBuffer::new(1);
    c.push_str("a\r\nb\n");
    assert_eq!(c.to_string(), "b\n");
    assert_eq!(c.len(), 1);
}
