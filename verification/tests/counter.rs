use logcat_parser::counter::{count_lines, LineCounter};

#[test]
fn terminated_lines_and_a_trailing_one() {
    assert_eq!(count_lines(b"a\nb\nc"), 3);
    assert_eq!(count_lines(b"a\nb\nc\n"), 3);
    assert_eq!(count_lines(b"one\ntwo\nthree\nfour\nfive"), 5);
}

#[test]
fn edge_contents() {
    assert_eq!(count_lines(b""), 0);
    assert_eq!(count_lines(b"\n"), 1);
    assert_eq!(count_lines(b"\n\n\n"), 3);
    assert_eq!(count_lines(b"x"), 1);
    assert_eq!(count_lines(b"a\r\nb\r\n"), 2);
    assert_eq!(count_lines(b"\nx"), 2);
}

#[test]
fn bytes_that_are_no_text_still_count() {
    assert_eq!(count_lines(&[0xff, 0xfe, 0x0a, 0x80]), 2);
}

#[test]
fn blocks_add_up() {
    let content = b"alpha\nbeta\n\ngamma\ndelta";
    for cut in 0..=content.len() {
        let mut counter = LineCounter::new();
        counter.feed(&content[..cut]);
        counter.feed(&content[cut..]);
        assert_eq!(counter.total(), 5);
    }
    let mut counter = LineCounter::new();
    assert_eq!(counter.total(), 0);
    for byte in content.iter() {
        counter.feed(&[*byte]);
    }
    assert_eq!(counter.total(), count_lines(content));
}

#[test]
fn running_total() {
    let mut counter = LineCounter::new();
    counter.feed(b"a");
    assert_eq!(counter.total(), 1);
    counter.feed(b"b\n");
    assert_eq!(counter.total(), 1);
    counter.feed(b"");
    assert_eq!(counter.total(), 1);
    counter.feed(b"\n");
    assert_eq!(counter.total(), 2);
}
