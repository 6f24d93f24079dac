//! The chunked, cancellable processing of a log as a state machine.
//!
//! The processor never reads a file and never calls a consumer. Its caller
//! reads the log twice: first as blocks of bytes, which the processor counts
//! lines in; then line by line, which the processor trims, buffers and parses
//! chunk by chunk. Each batch that comes back is handed to the consumer by the
//! caller, and the consumer's answer is reported to the processor, which
//! decides whether the scan goes on.

use crate::counter::{line_count, LineCounter};
use crate::parser::{lemma_batch_len, parse_log_batch, parsed_batch};
use crate::pattern::PatternTable;
use crate::record::LogRecord;
use crate::text::trimmed;
use vstd::prelude::*;

verus! {

/// Where a run stands.
#[derive(Clone, Copy, Debug, PartialEq, Eq, Structural)]
pub enum Phase {
    /// The lines of the log are being counted.
    Counting,
    /// The log is being read line by line.
    Scanning,
    /// The log is exhausted and the last batch is with the consumer.
    Flushing,
    /// The run ended with the log.
    Done,
    /// The consumer stopped the run.
    Aborted,
}

/// How a call of the consumer ended.
#[derive(Clone, Copy, Debug, PartialEq, Eq, Structural)]
pub enum ConsumerOutcome {
    /// The consumer answered with a boolean: `true` to go on, `false` to stop.
    Returned(bool),
    /// The consumer answered with something that is no boolean.
    NotBoolean,
    /// The call itself failed.
    Failed,
}

impl ConsumerOutcome {
    /// Whether the scan goes on after this outcome: on `true`, and on an
    /// answer that is no boolean; not on `false`, and not on a failure.
    pub open spec fn keeps_going(self) -> bool {
        match self {
            ConsumerOutcome::Returned(answer) => answer,
            ConsumerOutcome::NotBoolean => true,
            ConsumerOutcome::Failed => false,
        }
    }

    /// Whether the scan goes on after this outcome.
    pub fn continues(self) -> (r: bool)
        ensures
            r == self.keeps_going(),
    {
        match self {
            ConsumerOutcome::Returned(answer) => answer,
            ConsumerOutcome::NotBoolean => true,
            ConsumerOutcome::Failed => false,
        }
    }
}

/// What the consumer is handed: the records of one chunk and the progress of
/// the scan.
#[derive(Clone, Debug, PartialEq, Eq)]
pub struct Batch {
    /// The records of the chunk's lines that parse, in order.
    pub records: Vec<LogRecord>,
    /// How many lines of the log have been read so far.
    pub lines_processed: usize,
    /// How many lines the log was counted to have.
    pub total_lines: usize,
}

/// A batch as the state machine decides it: the buffered lines it is made
/// from, and the progress counters.
pub struct Delivery {
    pub lines: Seq<Seq<char>>,
    pub lines_processed: nat,
    pub total_lines: nat,
}

impl Batch {
    /// Whether this batch is what `delivery` asks for: the records of its
    /// lines, with its counters.
    pub open spec fn carries(&self, table: PatternTable, delivery: Delivery) -> bool {
        &&& self.records.deep_view() == parsed_batch(table, delivery.lines)
        &&& self.lines_processed == delivery.lines_processed
        &&& self.total_lines == delivery.total_lines
    }
}

/// Whether `batch` is the executable form of `delivery`, both present or both
/// absent.
pub open spec fn hands_out(table: PatternTable, batch: Option<Batch>, delivery: Option<Delivery>)
    -> bool {
    match (batch, delivery) {
        (Some(batch), Some(delivery)) => batch.carries(table, delivery),
        (None, None) => true,
        _ => false,
    }
}

/// The mathematical state of a run.
pub struct StreamView {
    pub phase: Phase,
    /// How many buffered lines make a chunk.
    pub chunk_size: nat,
    /// The line count of the log, known once counting is over.
    pub total_lines: nat,
    /// How many lines have been read during the scan.
    pub lines_processed: nat,
    /// How many records have been handed out so far.
    pub delivered: nat,
    /// The trimmed, non-blank lines waiting for their chunk to fill.
    pub buffer: Seq<Seq<char>>,
    /// The bytes counted so far.
    pub counted: Seq<u8>,
}

impl StreamView {
    /// A run that has not seen anything of the log yet.
    pub open spec fn initial(chunk_size: nat) -> StreamView {
        StreamView {
            phase: Phase::Counting,
            chunk_size,
            total_lines: 0,
            lines_processed: 0,
            delivered: 0,
            buffer: Seq::empty(),
            counted: Seq::empty(),
        }
    }

    /// The state after a block of the log was counted.
    pub open spec fn after_block(self, block: Seq<u8>) -> StreamView {
        if self.phase == Phase::Counting {
            StreamView { counted: self.counted + block, ..self }
        } else {
            self
        }
    }

    /// The state after counting ended: the total is fixed and the scan begins.
    pub open spec fn after_count(self) -> StreamView {
        if self.phase == Phase::Counting {
            StreamView { phase: Phase::Scanning, total_lines: line_count(self.counted), ..self }
        } else {
            self
        }
    }

    /// The buffer with `line` taken in: trimmed, and left out if blank.
    pub open spec fn buffer_with(self, line: Seq<char>) -> Seq<Seq<char>> {
        if trimmed(line).len() == 0 {
            self.buffer
        } else {
            self.buffer.push(trimmed(line))
        }
    }

    /// The batch that reading `line` completes, if it completes one: the
    /// buffer with the line taken in, once it holds a chunk.
    pub open spec fn delivery_on_line(self, line: Seq<char>) -> Option<Delivery> {
        if self.phase == Phase::Scanning && self.buffer_with(line).len() >= self.chunk_size {
            Some(
                Delivery {
                    lines: self.buffer_with(line),
                    lines_processed: self.lines_processed + 1,
                    total_lines: self.total_lines,
                },
            )
        } else {
            None
        }
    }

    /// The state after `line` was read.
    pub open spec fn after_line(self, table: PatternTable, line: Seq<char>) -> StreamView {
        if self.phase != Phase::Scanning {
            self
        } else if self.buffer_with(line).len() >= self.chunk_size {
            StreamView {
                lines_processed: self.lines_processed + 1,
                delivered: self.delivered + parsed_batch(table, self.buffer_with(line)).len(),
                buffer: Seq::empty(),
                ..self
            }
        } else {
            StreamView {
                lines_processed: self.lines_processed + 1,
                buffer: self.buffer_with(line),
                ..self
            }
        }
    }

    /// The state after a line could not be read: the line counts as
    /// processed and is otherwise skipped.
    pub open spec fn after_fault(self) -> StreamView {
        if self.phase == Phase::Scanning {
            StreamView { lines_processed: self.lines_processed + 1, ..self }
        } else {
            self
        }
    }

    /// The state after the consumer dealt with a batch. During the scan an
    /// outcome that does not keep going aborts the run; after the last batch
    /// the run is done whatever the outcome.
    pub open spec fn after_reply(self, outcome: ConsumerOutcome) -> StreamView {
        if self.phase == Phase::Scanning && !outcome.keeps_going() {
            StreamView { phase: Phase::Aborted, ..self }
        } else if self.phase == Phase::Flushing {
            StreamView { phase: Phase::Done, ..self }
        } else {
            self
        }
    }

    /// The last batch, which the end of the log releases if lines are still
    /// buffered.
    pub open spec fn delivery_at_end(self) -> Option<Delivery> {
        if self.phase == Phase::Scanning && self.buffer.len() > 0 {
            Some(
                Delivery {
                    lines: self.buffer,
                    lines_processed: self.lines_processed,
                    total_lines: self.total_lines,
                },
            )
        } else {
            None
        }
    }

    /// The state after the log ended.
    pub open spec fn after_end(self, table: PatternTable) -> StreamView {
        if self.phase != Phase::Scanning {
            self
        } else if self.buffer.len() > 0 {
            StreamView {
                phase: Phase::Flushing,
                delivered: self.delivered + parsed_batch(table, self.buffer).len(),
                buffer: Seq::empty(),
                ..self
            }
        } else {
            StreamView { phase: Phase::Done, ..self }
        }
    }

    /// Whether the run is over.
    pub open spec fn is_finished(self) -> bool {
        self.phase == Phase::Done || self.phase == Phase::Aborted
    }
}

/// The state machine of one run over one log.
pub struct StreamProcessor {
    phase: Phase,
    chunk_size: usize,
    total_lines: usize,
    lines_processed: usize,
    delivered: usize,
    buffer: Vec<String>,
    counter: LineCounter,
}

impl View for StreamProcessor {
    type V = StreamView;

    closed spec fn view(&self) -> StreamView {
        StreamView {
            phase: self.phase,
            chunk_size: self.chunk_size as nat,
            total_lines: self.total_lines as nat,
            lines_processed: self.lines_processed as nat,
            delivered: self.delivered as nat,
            buffer: self.buffer.deep_view(),
            counted: self.counter.content(),
        }
    }
}

impl StreamProcessor {
    #[verifier::type_invariant]
    closed spec fn inv(&self) -> bool {
        &&& self.delivered + self.buffer@.len() <= self.lines_processed
        &&& self.buffer@.len() == 0 || self.buffer@.len() < self.chunk_size
    }

    /// A processor for a run with the given chunk size, ready to count.
    pub fn new(chunk_size: usize) -> (r: StreamProcessor)
        ensures
            r@ == StreamView::initial(chunk_size as nat),
    {
        let r = StreamProcessor {
            phase: Phase::Counting,
            chunk_size,
            total_lines: 0,
            lines_processed: 0,
            delivered: 0,
            buffer: Vec::new(),
            counter: LineCounter::new(),
        };
        assert(r.buffer.deep_view() =~= Seq::<Seq<char>>::empty());
        r
    }

    /// Where the run stands.
    pub fn phase(&self) -> (r: Phase)
        ensures
            r == self@.phase,
    {
        self.phase
    }

    /// Whether the run is over, by the end of the log or by the consumer.
    pub fn is_finished(&self) -> (r: bool)
        ensures
            r == self@.is_finished(),
    {
        match self.phase {
            Phase::Done => true,
            Phase::Aborted => true,
            _ => false,
        }
    }

    /// How many buffered lines make a chunk.
    pub fn chunk_size(&self) -> (r: usize)
        ensures
            r == self@.chunk_size,
    {
        self.chunk_size
    }

    /// The line count of the log; the lines counted so far while counting.
    pub fn total_lines(&self) -> (r: usize)
        ensures
            r == self@.total_lines,
    {
        self.total_lines
    }

    /// How many lines of the log the scan has read.
    pub fn lines_processed(&self) -> (r: usize)
        ensures
            r == self@.lines_processed,
    {
        self.lines_processed
    }

    /// How many records have been handed out so far: what the run returns
    /// once it is over.
    pub fn delivered(&self) -> (r: usize)
        ensures
            r == self@.delivered,
    {
        self.delivered
    }

    /// How many lines are waiting in the buffer.
    pub fn buffered(&self) -> (r: usize)
        ensures
            r == self@.buffer.len(),
    {
        self.buffer.len()
    }

    /// The number of lines in the bytes counted so far.
    pub fn counted_lines(&self) -> (r: usize)
        ensures
            r == line_count(self@.counted),
    {
        self.counter.total()
    }

    /// Moves the buffered lines out and leaves the buffer empty.
    fn take_buffer(&mut self) -> (lines: Vec<String>)
        ensures
            lines == old(self).buffer,
            final(self).buffer@.len() == 0,
            final(self).phase == old(self).phase,
            final(self).chunk_size == old(self).chunk_size,
            final(self).total_lines == old(self).total_lines,
            final(self).lines_processed == old(self).lines_processed,
            final(self).delivered == old(self).delivered,
            final(self).counter == old(self).counter,
    {
        proof {
            use_type_invariant(&*self);
        }
        let mut lines: Vec<String> = Vec::new();
        core::mem::swap(&mut self.buffer, &mut lines);
        lines
    }

    /// Counts the lines of the next block of the log. The count has to stay
    /// within `usize`; a block adds at most one line for each of its bytes.
    pub fn count_block(&mut self, block: &[u8])
        requires
            old(self)@.phase == Phase::Counting ==> line_count(old(self)@.counted) + block.len()
                <= usize::MAX,
        ensures
            final(self)@ == old(self)@.after_block(block@),
    {
        proof {
            use_type_invariant(&*self);
        }
        match self.phase {
            Phase::Counting => {
                let mut counter = LineCounter::new();
                core::mem::swap(&mut self.counter, &mut counter);
                counter.feed(block);
                self.counter = counter;
            },
            _ => {},
        }
    }

    /// Ends counting: fixes the total and begins the scan.
    pub fn begin_scan(&mut self)
        ensures
            final(self)@ == old(self)@.after_count(),
    {
        proof {
            use_type_invariant(&*self);
        }
        match self.phase {
            Phase::Counting => {
                self.total_lines = self.counter.total();
                self.phase = Phase::Scanning;
            },
            _ => {},
        }
    }

    /// Takes in the next line of the log. The line counts as processed; its
    /// trimmed text is buffered unless it is blank. When the buffer then
    /// holds a chunk, the chunk is parsed, the buffer emptied, and the batch
    /// returned for the consumer. A batch made with a chunk size above zero
    /// comes from exactly that many lines. Outside the scan nothing happens.
    /// The count of processed lines has to stay within `usize`.
    pub fn on_line(&mut self, table: &PatternTable, line: &str) -> (r: Option<Batch>)
        requires
            old(self)@.phase == Phase::Scanning ==> old(self)@.lines_processed < usize::MAX,
        ensures
            final(self)@ == old(self)@.after_line(*table, line@),
            hands_out(*table, r, old(self)@.delivery_on_line(line@)),
            r is Some && old(self)@.chunk_size > 0 ==> old(self)@.buffer_with(line@).len() == old(
                self,
            )@.chunk_size,
    {
        proof {
            use_type_invariant(&*self);
        }
        match self.phase {
            Phase::Scanning => {},
            _ => {
                return None;
            },
        }
        let ghost before = self.buffer.deep_view();
        let text = line.trim();
        let keep = !text.is_empty();
        let filled = if keep {
            self.buffer.len() + 1
        } else {
            self.buffer.len()
        };
        self.lines_processed += 1;
        if filled >= self.chunk_size {
            let mut lines = self.take_buffer();
            if keep {
                lines.push(text.to_owned());
            }
            proof {
                assert(lines.deep_view() =~= old(self)@.buffer_with(line@));
                assert(self.buffer.deep_view() =~= Seq::<Seq<char>>::empty());
                lemma_batch_len(*table, lines.deep_view());
            }
            let records = parse_log_batch(table, lines);
            self.delivered += records.len();
            Some(
                Batch {
                    records,
                    lines_processed: self.lines_processed,
                    total_lines: self.total_lines,
                },
            )
        } else {
            if keep {
                let mut lines = self.take_buffer();
                lines.push(text.to_owned());
                proof {
                    assert(lines.deep_view() =~= before.push(text@));
                }
                self.buffer = lines;
            }
            None
        }
    }

    /// Takes note of a line that could not be read: it counts as processed
    /// and is otherwise skipped. Outside the scan nothing happens. The count
    /// of processed lines has to stay within `usize`.
    pub fn on_read_error(&mut self)
        requires
            old(self)@.phase == Phase::Scanning ==> old(self)@.lines_processed < usize::MAX,
        ensures
            final(self)@ == old(self)@.after_fault(),
    {
        proof {
            use_type_invariant(&*self);
        }
        match self.phase {
            Phase::Scanning => {
                self.lines_processed += 1;
            },
            _ => {},
        }
    }

    /// Takes the outcome of handing a batch to the consumer. During the scan
    /// an outcome that does not keep going aborts the run; after the last
    /// batch the run is done whatever the outcome.
    pub fn on_reply(&mut self, outcome: ConsumerOutcome)
        ensures
            final(self)@ == old(self)@.after_reply(outcome),
    {
        proof {
            use_type_invariant(&*self);
        }
        match self.phase {
            Phase::Scanning => {
                if !outcome.continues() {
                    self.phase = Phase::Aborted;
                }
            },
            Phase::Flushing => {
                self.phase = Phase::Done;
            },
            _ => {},
        }
    }

    /// Takes the end of the log. Lines still buffered are parsed and
    /// returned as the last batch, which is never empty and never larger
    /// than a chunk; with none buffered the run is done. Outside the scan
    /// nothing happens.
    pub fn finish(&mut self, table: &PatternTable) -> (r: Option<Batch>)
        ensures
            final(self)@ == old(self)@.after_end(*table),
            hands_out(*table, r, old(self)@.delivery_at_end()),
            r is Some ==> 0 < old(self)@.buffer.len() <= old(self)@.chunk_size,
    {
        proof {
            use_type_invariant(&*self);
        }
        match self.phase {
            Phase::Scanning => {},
            _ => {
                return None;
            },
        }
        if self.buffer.len() == 0 {
            self.phase = Phase::Done;
            return None;
        }
        let lines = self.take_buffer();
        proof {
            assert(self.buffer.deep_view() =~= Seq::<Seq<char>>::empty());
            lemma_batch_len(*table, lines.deep_view());
        }
        let records = parse_log_batch(table, lines);
        self.delivered += records.len();
        self.phase = Phase::Flushing;
        Some(
            Batch { records, lines_processed: self.lines_processed, total_lines: self.total_lines },
        )
    }
}

/// What the scan meets where it expects a line.
pub enum LineEvent {
    /// A line that was read.
    Line(Seq<char>),
    /// A line that could not be read.
    Fault,
}

impl StreamView {
    /// The state in which the scan of a log begins, after `counted` was
    /// counted as the log's content.
    pub open spec fn scan_of(chunk_size: nat, counted: Seq<u8>) -> StreamView {
        StreamView::initial(chunk_size).after_block(counted).after_count()
    }
}

/// The scan of `events` from the state `start`: the state it ends in and the
/// batches it hands out, in order. The consumer's outcome for the batch
/// number `k`, counted from zero, is `outcomes(k)`.
pub open spec fn scanned(
    table: PatternTable,
    start: StreamView,
    events: Seq<LineEvent>,
    outcomes: spec_fn(int) -> ConsumerOutcome,
) -> (StreamView, Seq<Delivery>)
    decreases events.len(),
{
    if events.len() == 0 {
        (start, Seq::empty())
    } else {
        let (state, trace) = scanned(table, start, events.drop_last(), outcomes);
        match events.last() {
            LineEvent::Fault => (state.after_fault(), trace),
            LineEvent::Line(line) => match state.delivery_on_line(line) {
                Some(delivery) => (
                    state.after_line(table, line).after_reply(outcomes(trace.len() as int)),
                    trace.push(delivery),
                ),
                None => (state.after_line(table, line), trace),
            },
        }
    }
}

/// A whole run over a log whose lines are `events`, from the state `start`
/// to the end of the log: the state it ends in and all the batches it hands
/// out, in order.
pub open spec fn streamed(
    table: PatternTable,
    start: StreamView,
    events: Seq<LineEvent>,
    outcomes: spec_fn(int) -> ConsumerOutcome,
) -> (StreamView, Seq<Delivery>) {
    let (state, trace) = scanned(table, start, events, outcomes);
    match state.delivery_at_end() {
        Some(delivery) => (
            state.after_end(table).after_reply(outcomes(trace.len() as int)),
            trace.push(delivery),
        ),
        None => (state.after_end(table), trace),
    }
}

/// The number of records in the batches of `trace`.
pub open spec fn records_in(table: PatternTable, trace: Seq<Delivery>) -> nat
    decreases trace.len(),
{
    if trace.len() == 0 {
        0
    } else {
        records_in(table, trace.drop_last()) + parsed_batch(table, trace.last().lines).len()
    }
}

/// What holds of a run while it scans, and after it was aborted.
spec fn scan_holds(
    table: PatternTable,
    start: StreamView,
    state: StreamView,
    trace: Seq<Delivery>,
    outcomes: spec_fn(int) -> ConsumerOutcome,
) -> bool {
    &&& state.chunk_size == start.chunk_size
    &&& state.total_lines == start.total_lines
    &&& state.phase == Phase::Scanning || state.phase == Phase::Aborted
    &&& state.buffer.len() == 0 || state.buffer.len() < state.chunk_size
    &&& state.delivered == records_in(table, trace)
    &&& forall|k: int|
        0 <= k < trace.len() ==> {
            &&& (#[trigger] trace[k]).total_lines == start.total_lines
            &&& 0 < trace[k].lines_processed <= state.lines_processed
            &&& trace[k].lines.len() >= start.chunk_size
            &&& start.chunk_size > 0 ==> trace[k].lines.len() == start.chunk_size
        }
    &&& forall|j: int, k: int|
        0 <= j < k < trace.len() ==> (#[trigger] trace[j]).lines_processed < (
        #[trigger] trace[k]).lines_processed
    &&& state.buffer.len() > 0 && trace.len() > 0 ==> trace.last().lines_processed
        < state.lines_processed
    &&& forall|k: int| 0 <= k < trace.len() - 1 ==> (#[trigger] outcomes(k)).keeps_going()
    &&& trace.len() > 0 ==> (state.phase == Phase::Scanning <==> outcomes(
        trace.len() - 1,
    ).keeps_going())
    &&& trace.len() == 0 ==> state.phase == Phase::Scanning
}

proof fn lemma_scan_holds(
    table: PatternTable,
    start: StreamView,
    events: Seq<LineEvent>,
    outcomes: spec_fn(int) -> ConsumerOutcome,
)
    requires
        start.phase == Phase::Scanning,
        start.buffer.len() == 0,
        start.delivered == 0,
        start.lines_processed == 0,
    ensures
        scan_holds(
            table,
            start,
            scanned(table, start, events, outcomes).0,
            scanned(table, start, events, outcomes).1,
            outcomes,
        ),
        scanned(table, start, events, outcomes).0.lines_processed <= events.len(),
    decreases events.len(),
{
    if events.len() > 0 {
        lemma_scan_holds(table, start, events.drop_last(), outcomes);
        let trace = scanned(table, start, events.drop_last(), outcomes).1;
        let longer = scanned(table, start, events, outcomes).1;
        if longer.len() > trace.len() {
            assert(longer.drop_last() =~= trace);
        }
    }
}

/// Every batch of a run with a chunk size above zero comes from at least one
/// and at most `chunk_size` buffered lines, and every batch but the last from
/// exactly `chunk_size`.
pub proof fn lemma_batches_are_chunks(
    table: PatternTable,
    chunk_size: nat,
    counted: Seq<u8>,
    events: Seq<LineEvent>,
    outcomes: spec_fn(int) -> ConsumerOutcome,
)
    requires
        chunk_size > 0,
    ensures
        forall|k: int|
            #![trigger streamed(table, StreamView::scan_of(chunk_size, counted), events, outcomes).1[k]]
            0 <= k < streamed(
                table,
                StreamView::scan_of(chunk_size, counted),
                events,
                outcomes,
            ).1.len() ==> {
                let trace = streamed(
                    table,
                    StreamView::scan_of(chunk_size, counted),
                    events,
                    outcomes,
                ).1;
                &&& 0 < trace[k].lines.len() <= chunk_size
                &&& k + 1 < trace.len() ==> trace[k].lines.len() == chunk_size
            },
{
    lemma_scan_holds(table, StreamView::scan_of(chunk_size, counted), events, outcomes);
}

/// When the consumer's outcome for the first batch does not keep going, no
/// second batch is handed out, and the run delivers the records of that one
/// batch.
pub proof fn lemma_stop_after_first_batch(
    table: PatternTable,
    chunk_size: nat,
    counted: Seq<u8>,
    events: Seq<LineEvent>,
    outcomes: spec_fn(int) -> ConsumerOutcome,
)
    requires
        !outcomes(0).keeps_going(),
    ensures
        ({
            let (end, trace) = streamed(
                table,
                StreamView::scan_of(chunk_size, counted),
                events,
                outcomes,
            );
            &&& trace.len() <= 1
            &&& end.is_finished()
            &&& trace.len() == 1 ==> end.delivered == parsed_batch(table, trace[0].lines).len()
            &&& trace.len() == 0 ==> end.delivered == 0
        }),
{
    let start = StreamView::scan_of(chunk_size, counted);
    lemma_scan_holds(table, start, events, outcomes);
    lemma_delivered_is_sum_of_batches(table, chunk_size, counted, events, outcomes);
    let trace = streamed(table, start, events, outcomes).1;
    if trace.len() == 1 {
        assert(records_in(table, trace.drop_last()) == 0);
    }
}

/// A run that has ended is finished, and what it delivered is the number of
/// records in all the batches it handed out.
pub proof fn lemma_delivered_is_sum_of_batches(
    table: PatternTable,
    chunk_size: nat,
    counted: Seq<u8>,
    events: Seq<LineEvent>,
    outcomes: spec_fn(int) -> ConsumerOutcome,
)
    ensures
        ({
            let (end, trace) = streamed(
                table,
                StreamView::scan_of(chunk_size, counted),
                events,
                outcomes,
            );
            &&& end.is_finished()
            &&& end.delivered == records_in(table, trace)
            &&& end.total_lines == line_count(counted)
            &&& end.lines_processed <= events.len()
        }),
{
    let start = StreamView::scan_of(chunk_size, counted);
    lemma_scan_holds(table, start, events, outcomes);
    let (state, scan_trace) = scanned(table, start, events, outcomes);
    let trace = streamed(table, start, events, outcomes).1;
    if state.delivery_at_end() is Some {
        assert(trace.drop_last() =~= scan_trace);
    }
}

/// The batches of a run report progress that grows from batch to batch, never
/// beyond the lines read, always against the same total.
pub proof fn lemma_progress_increases(
    table: PatternTable,
    chunk_size: nat,
    counted: Seq<u8>,
    events: Seq<LineEvent>,
    outcomes: spec_fn(int) -> ConsumerOutcome,
)
    ensures
        ({
            let trace = streamed(
                table,
                StreamView::scan_of(chunk_size, counted),
                events,
                outcomes,
            ).1;
            &&& forall|k: int|
                0 <= k < trace.len() ==> {
                    &&& 0 < (#[trigger] trace[k]).lines_processed <= events.len()
                    &&& trace[k].total_lines == line_count(counted)
                }
            &&& forall|j: int, k: int|
                0 <= j < k < trace.len() ==> (#[trigger] trace[j]).lines_processed < (
                #[trigger] trace[k]).lines_processed
        }),
{
    lemma_scan_holds(table, StreamView::scan_of(chunk_size, counted), events, outcomes);
}

} // verus!
