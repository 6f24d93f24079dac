use logcat_parser::pattern::PatternTable;
use logcat_parser::stream::{Batch, ConsumerOutcome, Phase, StreamProcessor};

fn table() -> PatternTable {
    PatternTable::new().expect("the standard patterns compile")
}

fn log_line(n: usize) -> String {
    format!("01-15 10:23:45.{:03} {} - - Tag{}: message {}", n, 1000 + n, n, n)
}

fn log_of(count: usize) -> Vec<Option<String>> {
    (1..=count).map(|n| Some(log_line(n))).collect()
}

fn bytes_of(lines: &[Option<String>]) -> Vec<u8> {
    let mut bytes = Vec::new();
    for line in lines {
        match line {
            Some(text) => bytes.extend_from_slice(text.as_bytes()),
            None => bytes.extend_from_slice(&[0xff, 0xfe]),
        }
        bytes.push(b'\n');
    }
    bytes
}

/// Drives a processor over a log held in memory. A `None` among the lines
/// stands for a line that could not be read. The consumer is called with
/// every batch that the processor hands out.
fn stream(
    lines: &[Option<String>],
    chunk_size: usize,
    consumer: &mut dyn FnMut(&Batch) -> ConsumerOutcome,
) -> (usize, Phase) {
    let t = table();
    let mut p = StreamProcessor::new(chunk_size);
    assert_eq!(p.phase(), Phase::Counting);
    for block in bytes_of(lines).chunks(7) {
        p.count_block(block);
    }
    p.begin_scan();
    assert_eq!(p.phase(), Phase::Scanning);
    assert_eq!(p.total_lines(), lines.len());
    for line in lines {
        match line {
            Some(text) => {
                if let Some(batch) = p.on_line(&t, text) {
                    let outcome = consumer(&batch);
                    p.on_reply(outcome);
                    if p.is_finished() {
                        return (p.delivered(), p.phase());
                    }
                }
            }
            None => p.on_read_error(),
        }
    }
    if let Some(batch) = p.finish(&t) {
        assert_eq!(p.phase(), Phase::Flushing);
        let outcome = consumer(&batch);
        p.on_reply(outcome);
    }
    assert!(p.is_finished());
    (p.delivered(), p.phase())
}

#[test]
fn five_lines_in_chunks_of_two() {
    let mut seen: Vec<(usize, usize, usize)> = Vec::new();
    let (total, phase) = stream(&log_of(5), 2, &mut |b: &Batch| {
        seen.push((b.records.len(), b.lines_processed, b.total_lines));
        ConsumerOutcome::Returned(true)
    });
    assert_eq!(total, 5);
    assert_eq!(phase, Phase::Done);
    assert_eq!(seen, vec![(2, 2, 5), (2, 4, 5), (1, 5, 5)]);
}

#[test]
fn batches_hold_the_records_in_order() {
    let mut messages: Vec<String> = Vec::new();
    stream(&log_of(5), 2, &mut |b: &Batch| {
        messages.extend(b.records.iter().map(|r| r.message.clone()));
        ConsumerOutcome::Returned(true)
    });
    assert_eq!(messages, vec!["message 1", "message 2", "message 3", "message 4", "message 5"]);
}

#[test]
fn stop_after_first_batch() {
    let mut calls = 0;
    let (total, phase) = stream(&log_of(5), 2, &mut |_b: &Batch| {
        calls += 1;
        ConsumerOutcome::Returned(false)
    });
    assert_eq!(calls, 1);
    assert_eq!(total, 2);
    assert_eq!(phase, Phase::Aborted);
}

#[test]
fn failing_consumer_stops_the_scan() {
    let mut calls = 0;
    let (total, phase) = stream(&log_of(6), 3, &mut |_b: &Batch| {
        calls += 1;
        if calls == 2 {
            ConsumerOutcome::Failed
        } else {
            ConsumerOutcome::Returned(true)
        }
    });
    assert_eq!(calls, 2);
    assert_eq!(total, 6);
    assert_eq!(phase, Phase::Aborted);
}

#[test]
fn answer_that_is_no_boolean_goes_on() {
    let mut calls = 0;
    let (total, phase) = stream(&log_of(4), 1, &mut |_b: &Batch| {
        calls += 1;
        ConsumerOutcome::NotBoolean
    });
    assert_eq!(calls, 4);
    assert_eq!(total, 4);
    assert_eq!(phase, Phase::Done);
}

#[test]
fn last_batch_ignores_the_answer() {
    let mut sizes: Vec<usize> = Vec::new();
    let (total, phase) = stream(&log_of(3), 5, &mut |b: &Batch| {
        sizes.push(b.records.len());
        ConsumerOutcome::Returned(false)
    });
    assert_eq!(sizes, vec![3]);
    assert_eq!(total, 3);
    assert_eq!(phase, Phase::Done);
}

#[test]
fn exact_multiple_has_no_last_batch() {
    let mut sizes: Vec<usize> = Vec::new();
    let (total, phase) = stream(&log_of(4), 2, &mut |b: &Batch| {
        sizes.push(b.records.len());
        ConsumerOutcome::Returned(true)
    });
    assert_eq!(sizes, vec![2, 2]);
    assert_eq!(total, 4);
    assert_eq!(phase, Phase::Done);
}

#[test]
fn empty_log_never_calls_the_consumer() {
    let mut calls = 0;
    let (total, phase) = stream(&[], 2, &mut |_b: &Batch| {
        calls += 1;
        ConsumerOutcome::Returned(true)
    });
    assert_eq!((calls, total, phase), (0, 0, Phase::Done));
}

#[test]
fn blank_and_unreadable_lines_count_as_processed_only() {
    let lines = vec![
        Some(log_line(1)),
        Some(String::new()),
        None,
        Some("   ".to_string()),
        Some(log_line(2)),
        Some("no timestamp".to_string()),
        None,
        Some(log_line(3)),
    ];
    let mut seen: Vec<(usize, usize, usize)> = Vec::new();
    let (total, phase) = stream(&lines, 2, &mut |b: &Batch| {
        seen.push((b.records.len(), b.lines_processed, b.total_lines));
        ConsumerOutcome::Returned(true)
    });
    assert_eq!(seen, vec![(2, 5, 8), (1, 8, 8)]);
    assert_eq!(total, 3);
    assert_eq!(phase, Phase::Done);
}

#[test]
fn chunk_size_zero_hands_out_after_every_line() {
    let lines = vec![Some(log_line(1)), Some(String::new()), Some(log_line(2))];
    let mut seen: Vec<(usize, usize)> = Vec::new();
    let (total, phase) = stream(&lines, 0, &mut |b: &Batch| {
        seen.push((b.records.len(), b.lines_processed));
        ConsumerOutcome::Returned(true)
    });
    assert_eq!(seen, vec![(1, 1), (0, 2), (1, 3)]);
    assert_eq!(total, 2);
    assert_eq!(phase, Phase::Done);
}

#[test]
fn processor_steps() {
    let t = table();
    let mut p = StreamProcessor::new(2);
    assert_eq!(p.chunk_size(), 2);
    assert_eq!(p.on_line(&t, &log_line(1)), None);
    assert_eq!(p.lines_processed(), 0);
    p.count_block(b"a\nb\n");
    assert_eq!(p.counted_lines(), 2);
    p.count_block(b"c");
    assert_eq!(p.counted_lines(), 3);
    assert_eq!(p.total_lines(), 0);
    p.begin_scan();
    assert_eq!(p.total_lines(), 3);
    p.count_block(b"more\nbytes\n");
    assert_eq!(p.counted_lines(), 3);
    assert_eq!(p.on_line(&t, &log_line(1)), None);
    assert_eq!(p.buffered(), 1);
    p.on_read_error();
    assert_eq!(p.lines_processed(), 2);
    let batch = p.on_line(&t, "  junk  ").expect("the chunk is full");
    assert_eq!(batch.records.len(), 1);
    assert_eq!(batch.lines_processed, 3);
    assert_eq!(batch.total_lines, 3);
    assert_eq!(p.buffered(), 0);
    assert_eq!(p.delivered(), 1);
    p.on_reply(ConsumerOutcome::Returned(true));
    assert_eq!(p.phase(), Phase::Scanning);
    p.on_reply(ConsumerOutcome::Failed);
    assert_eq!(p.phase(), Phase::Aborted);
    assert_eq!(p.on_line(&t, &log_line(2)), None);
    p.on_read_error();
    assert_eq!(p.finish(&t), None);
    p.on_reply(ConsumerOutcome::Returned(true));
    assert_eq!(p.phase(), Phase::Aborted);
    assert_eq!(p.lines_processed(), 3);
    assert_eq!(p.delivered(), 1);
}

#[test]
fn outcomes() {
    assert!(ConsumerOutcome::Returned(true).continues());
    assert!(!ConsumerOutcome::Returned(false).continues());
    assert!(ConsumerOutcome::NotBoolean.continues());
    assert!(!ConsumerOutcome::Failed.continues());
}
