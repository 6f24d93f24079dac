//! The line parser and the batch parser.
//!
//! A line is trimmed, its timestamp token is located, and what follows the
//! token is tried against three shapes in a fixed order: thread-time without a
//! level, thread-time with a level, and bracketed. The first shape that
//! matches decides the record; a line that matches none is dropped.

use crate::display::{classified, classify_display, group, group_text};
use crate::pattern::{capture_groups, find_first, regex_captures, regex_find, PatternTable};
use crate::record::{record_of, FieldsView, LineFields, LogRecord, RecordView};
use crate::text::{lemma_trimmed_idempotent, split_words, trimmed, words};
use vstd::prelude::*;

verus! {

/// The placeholder that stands for a field the line does not carry.
pub open spec fn placeholder() -> Seq<char> {
    "-"@
}

/// The fields of a line that matched the thread-time shape without a level:
/// groups 1 to 3 are the process id, the tag and the message.
pub open spec fn fields_simple(timestamp: Seq<char>, groups: Seq<Option<Seq<char>>>) -> Option<
    FieldsView,
> {
    match (group_text(groups, 1), group_text(groups, 2), group_text(groups, 3)) {
        (Some(pid), Some(tag), Some(message)) => Some(
            FieldsView {
                timestamp,
                level: placeholder(),
                pid,
                tid: placeholder(),
                tag: trimmed(tag),
                message: trimmed(message),
            },
        ),
        _ => None,
    }
}

/// The fields of a line that matched the thread-time shape with a level:
/// groups 2 to 6 are the process id, the thread id, the level, the tag and
/// the message. The level that leads the line, group 1, is not used.
pub open spec fn fields_complex(timestamp: Seq<char>, groups: Seq<Option<Seq<char>>>) -> Option<
    FieldsView,
> {
    match (
        group_text(groups, 4),
        group_text(groups, 2),
        group_text(groups, 3),
        group_text(groups, 5),
        group_text(groups, 6),
    ) {
        (Some(level), Some(pid), Some(tid), Some(tag), Some(message)) => Some(
            FieldsView {
                timestamp,
                level,
                pid,
                tid,
                tag: trimmed(tag),
                message: trimmed(message),
            },
        ),
        _ => None,
    }
}

/// The word at `index` of the parenthesized ids, or the placeholder where
/// there are fewer words.
pub open spec fn id_word(ids: Seq<Seq<char>>, index: int) -> Seq<char> {
    if 0 <= index < ids.len() {
        ids[index]
    } else {
        placeholder()
    }
}

/// The fields of a line that matched the bracketed shape: groups 1 to 4 are
/// the level, the tag, the content of the parentheses and the message. The
/// first two words in the parentheses are the process id and the thread id.
pub open spec fn fields_bracketed(timestamp: Seq<char>, groups: Seq<Option<Seq<char>>>) -> Option<
    FieldsView,
> {
    match (
        group_text(groups, 1),
        group_text(groups, 2),
        group_text(groups, 3),
        group_text(groups, 4),
    ) {
        (Some(level), Some(tag), Some(ids), Some(message)) => Some(
            FieldsView {
                timestamp,
                level,
                pid: id_word(words(trimmed(ids)), 0),
                tid: id_word(words(trimmed(ids)), 1),
                tag: trimmed(tag),
                message: trimmed(message),
            },
        ),
        _ => None,
    }
}

/// The fields of `remainder`, the text that follows the timestamp, under the
/// first shape that matches it.
pub open spec fn shaped(table: PatternTable, timestamp: Seq<char>, remainder: Seq<char>) -> Option<
    FieldsView,
> {
    match regex_captures(table.simple, remainder) {
        Some(groups) => fields_simple(timestamp, groups),
        None => match regex_captures(table.complex, remainder) {
            Some(groups) => fields_complex(timestamp, groups),
            None => match regex_captures(table.bracketed, remainder) {
                Some(groups) => fields_bracketed(timestamp, groups),
                None => None,
            },
        },
    }
}

/// The record that a line parses into, if it does.
pub open spec fn parsed(table: PatternTable, line: Seq<char>) -> Option<RecordView> {
    let text = trimmed(line);
    if text.len() == 0 {
        None
    } else {
        match regex_find(table.timestamp, text) {
            None => None,
            Some((start, end)) => {
                match shaped(table, text.subrange(start, end), trimmed(text.skip(end))) {
                    Some(fields) => Some(
                        record_of(fields, classified(table, fields.tag, fields.message)),
                    ),
                    None => None,
                }
            },
        }
    }
}

/// The records of the lines that parse, in the order of the lines.
pub open spec fn parsed_batch(table: PatternTable, lines: Seq<Seq<char>>) -> Seq<RecordView>
    decreases lines.len(),
{
    if lines.len() == 0 {
        Seq::empty()
    } else {
        let earlier = parsed_batch(table, lines.drop_last());
        match parsed(table, lines.last()) {
            Some(record) => earlier.push(record),
            None => earlier,
        }
    }
}

/// Reads the fields off the groups of a thread-time match without a level.
pub fn fields_from_simple(timestamp: &str, groups: &Vec<Option<String>>) -> (r: Option<LineFields>)
    ensures
        r.deep_view() == fields_simple(timestamp@, groups.deep_view()),
{
    let pid = match group(groups, 1) {
        Some(text) => text,
        None => return None,
    };
    let tag = match group(groups, 2) {
        Some(text) => text.trim(),
        None => return None,
    };
    let message = match group(groups, 3) {
        Some(text) => text.trim(),
        None => return None,
    };
    Some(
        LineFields {
            timestamp: timestamp.to_owned(),
            level: "-".to_owned(),
            pid: pid.to_owned(),
            tid: "-".to_owned(),
            tag: tag.to_owned(),
            message: message.to_owned(),
        },
    )
}

/// Reads the fields off the groups of a thread-time match with a level.
pub fn fields_from_complex(timestamp: &str, groups: &Vec<Option<String>>) -> (r: Option<
    LineFields,
>)
    ensures
        r.deep_view() == fields_complex(timestamp@, groups.deep_view()),
{
    let level = match group(groups, 4) {
        Some(text) => text,
        None => return None,
    };
    let pid = match group(groups, 2) {
        Some(text) => text,
        None => return None,
    };
    let tid = match group(groups, 3) {
        Some(text) => text,
        None => return None,
    };
    let tag = match group(groups, 5) {
        Some(text) => text.trim(),
        None => return None,
    };
    let message = match group(groups, 6) {
        Some(text) => text.trim(),
        None => return None,
    };
    Some(
        LineFields {
            timestamp: timestamp.to_owned(),
            level: level.to_owned(),
            pid: pid.to_owned(),
            tid: tid.to_owned(),
            tag: tag.to_owned(),
            message: message.to_owned(),
        },
    )
}

/// Reads the fields off the groups of a bracketed match.
pub fn fields_from_bracketed(timestamp: &str, groups: &Vec<Option<String>>) -> (r: Option<
    LineFields,
>)
    ensures
        r.deep_view() == fields_bracketed(timestamp@, groups.deep_view()),
{
    let level = match group(groups, 1) {
        Some(text) => text,
        None => return None,
    };
    let tag = match group(groups, 2) {
        Some(text) => text.trim(),
        None => return None,
    };
    let ids = match group(groups, 3) {
        Some(text) => split_words(text.trim()),
        None => return None,
    };
    let message = match group(groups, 4) {
        Some(text) => text.trim(),
        None => return None,
    };
    let pid = if ids.len() > 0 {
        ids[0].clone()
    } else {
        "-".to_owned()
    };
    let tid = if ids.len() > 1 {
        ids[1].clone()
    } else {
        "-".to_owned()
    };
    Some(
        LineFields {
            timestamp: timestamp.to_owned(),
            level: level.to_owned(),
            pid,
            tid,
            tag: tag.to_owned(),
            message: message.to_owned(),
        },
    )
}

/// Tries the three shapes on `remainder` in their fixed order and reads the
/// fields off the first that matches.
pub fn match_shape(table: &PatternTable, timestamp: &str, remainder: &str) -> (r: Option<
    LineFields,
>)
    ensures
        r.deep_view() == shaped(*table, timestamp@, remainder@),
{
    if let Some(groups) = capture_groups(&table.simple, remainder) {
        return fields_from_simple(timestamp, &groups);
    }
    if let Some(groups) = capture_groups(&table.complex, remainder) {
        return fields_from_complex(timestamp, &groups);
    }
    if let Some(groups) = capture_groups(&table.bracketed, remainder) {
        return fields_from_bracketed(timestamp, &groups);
    }
    None
}

/// Parses one line into a record. A line that is blank, that holds no
/// timestamp token, or whose text after the token matches none of the three
/// shapes gives `None`.
pub fn parse_log_line(table: &PatternTable, line: &str) -> (r: Option<LogRecord>)
    ensures
        r.deep_view() == parsed(*table, line@),
{
    let text = line.trim();
    if text.is_empty() {
        return None;
    }
    let (timestamp, rest) = match find_first(&table.timestamp, text) {
        Some(found) => found,
        None => return None,
    };
    let remainder = rest.trim();
    match match_shape(table, timestamp, remainder) {
        Some(fields) => {
            let display = classify_display(table, fields.tag.as_str(), fields.message.as_str());
            Some(LogRecord::from_fields(fields, display))
        },
        None => None,
    }
}

/// Parses `lines[from..to]` and appends the records to `out`, in order.
pub fn append_parsed(
    table: &PatternTable,
    lines: &Vec<String>,
    from: usize,
    to: usize,
    out: &mut Vec<LogRecord>,
)
    requires
        from <= to <= lines.len(),
    ensures
        final(out).deep_view() == old(out).deep_view() + parsed_batch(
            *table,
            lines.deep_view().subrange(from as int, to as int),
        ),
{
    let ghost all = lines.deep_view();
    let mut i: usize = from;
    while i < to
        invariant
            from <= i <= to <= lines.len(),
            all == lines.deep_view(),
            out.deep_view() == old(out).deep_view() + parsed_batch(
                *table,
                all.subrange(from as int, i as int),
            ),
        decreases to - i,
    {
        let ghost before = out.deep_view();
        let ghost done = all.subrange(from as int, i as int);
        let ghost next = all.subrange(from as int, i + 1);
        proof {
            assert(next.drop_last() =~= done);
        }
        match parse_log_line(table, lines[i].as_str()) {
            Some(record) => {
                let ghost view = record@;
                out.push(record);
                proof {
                    assert(before.push(view) =~= old(out).deep_view() + parsed_batch(
                        *table,
                        done,
                    ).push(view));
                }
            },
            None => {},
        }
        i += 1;
    }
}

/// Parses every line and keeps the records of those that parse, in the order
/// of the lines.
pub fn parse_log_batch(table: &PatternTable, lines: Vec<String>) -> (r: Vec<LogRecord>)
    ensures
        r.deep_view() == parsed_batch(*table, lines.deep_view()),
{
    let mut out: Vec<LogRecord> = Vec::new();
    proof {
        let all = lines.deep_view();
        assert(all.subrange(0, all.len() as int) =~= all);
    }
    append_parsed(table, &lines, 0, lines.len(), &mut out);
    out
}

/// The lines as they are kept for parsing: each trimmed, the blank ones
/// dropped.
pub open spec fn content_lines(lines: Seq<Seq<char>>) -> Seq<Seq<char>>
    decreases lines.len(),
{
    if lines.len() == 0 {
        Seq::empty()
    } else {
        let earlier = content_lines(lines.drop_last());
        let text = trimmed(lines.last());
        if text.len() == 0 {
            earlier
        } else {
            earlier.push(text)
        }
    }
}

/// Trims every line and drops those that are blank.
pub fn keep_content(lines: &Vec<String>) -> (r: Vec<String>)
    ensures
        r.deep_view() == content_lines(lines.deep_view()),
{
    let ghost all = lines.deep_view();
    let mut kept: Vec<String> = Vec::new();
    let mut i: usize = 0;
    while i < lines.len()
        invariant
            i <= lines.len(),
            all == lines.deep_view(),
            kept.deep_view() == content_lines(all.take(i as int)),
        decreases lines.len() - i,
    {
        proof {
            assert(all.take(i + 1).drop_last() =~= all.take(i as int));
        }
        let text = lines[i].as_str().trim();
        if !text.is_empty() {
            kept.push(text.to_owned());
        }
        i += 1;
    }
    proof {
        assert(all.take(lines.len() as int) =~= all);
    }
    kept
}

/// Parses the lines of a log in chunks of `batch_size`: the lines are trimmed,
/// the blank ones dropped, and the rest parsed chunk after chunk. The records
/// are those of the lines that parse, in the order of the lines; the chunk
/// size bounds the work done at a time and does not change the result.
pub fn parse_log_chunks(table: &PatternTable, lines: Vec<String>, batch_size: usize) -> (r: Vec<
    LogRecord,
>)
    requires
        batch_size > 0,
    ensures
        r.deep_view() == parsed_batch(*table, lines.deep_view()),
{
    let kept = keep_content(&lines);
    let ghost content = kept.deep_view();
    let mut out: Vec<LogRecord> = Vec::new();
    let mut start: usize = 0;
    while start < kept.len()
        invariant
            batch_size > 0,
            start <= kept.len(),
            content == kept.deep_view(),
            out.deep_view() == parsed_batch(*table, content.take(start as int)),
        decreases kept.len() - start,
    {
        let end = if kept.len() - start > batch_size {
            start + batch_size
        } else {
            kept.len()
        };
        proof {
            lemma_batch_concat(
                *table,
                content.take(start as int),
                content.subrange(start as int, end as int),
            );
            assert(content.take(start as int) + content.subrange(start as int, end as int)
                =~= content.take(end as int));
        }
        append_parsed(table, &kept, start, end, &mut out);
        start = end;
    }
    proof {
        assert(content.take(kept.len() as int) =~= content);
        lemma_content_parses_alike(*table, lines.deep_view());
    }
    out
}

/// A line whose trimmed text is empty gives no record.
pub proof fn lemma_blank_line_no_record(table: PatternTable, line: Seq<char>)
    requires
        trimmed(line).len() == 0,
    ensures
        parsed(table, line) is None,
{
}

/// A line in whose trimmed text the timestamp matcher finds nothing gives no
/// record.
pub proof fn lemma_no_timestamp_no_record(table: PatternTable, line: Seq<char>)
    requires
        regex_find(table.timestamp, trimmed(line)) is None,
    ensures
        parsed(table, line) is None,
{
}

/// Parsing is a function of the table and the line: two results that both
/// answer to the contract of `parse_log_line` on the same line are the same.
pub proof fn lemma_parse_deterministic(
    table: PatternTable,
    line: Seq<char>,
    first: Option<RecordView>,
    second: Option<RecordView>,
)
    requires
        first == parsed(table, line),
        second == parsed(table, line),
    ensures
        first == second,
{
}

/// Whitespace around a line does not change what it parses into.
pub proof fn lemma_parse_ignores_outer_whitespace(table: PatternTable, line: Seq<char>)
    ensures
        parsed(table, trimmed(line)) == parsed(table, line),
{
    lemma_trimmed_idempotent(line);
}

/// The tag and the message of every record are trimmed.
pub proof fn lemma_record_fields_trimmed(table: PatternTable, line: Seq<char>)
    requires
        parsed(table, line) is Some,
    ensures
        trimmed(parsed(table, line)->0.tag) == parsed(table, line)->0.tag,
        trimmed(parsed(table, line)->0.message) == parsed(table, line)->0.message,
{
    let text = trimmed(line);
    let (start, end) = regex_find(table.timestamp, text)->0;
    let remainder = trimmed(text.skip(end));
    let groups = if regex_captures(table.simple, remainder) is Some {
        regex_captures(table.simple, remainder)->0
    } else if regex_captures(table.complex, remainder) is Some {
        regex_captures(table.complex, remainder)->0
    } else {
        regex_captures(table.bracketed, remainder)->0
    };
    assert forall|i: int| 0 <= i < groups.len() && groups[i] is Some implies trimmed(
        trimmed(#[trigger] groups[i]->0),
    ) == trimmed(groups[i]->0) by {
        lemma_trimmed_idempotent(groups[i]->0);
    }
}

/// A batch holds at most one record for each line.
pub proof fn lemma_batch_len(table: PatternTable, lines: Seq<Seq<char>>)
    ensures
        parsed_batch(table, lines).len() <= lines.len(),
    decreases lines.len(),
{
    if lines.len() > 0 {
        lemma_batch_len(table, lines.drop_last());
    }
}

/// Parsing two runs of lines one after the other gives the records of the
/// first followed by those of the second.
pub proof fn lemma_batch_concat(table: PatternTable, first: Seq<Seq<char>>, second: Seq<Seq<char>>)
    ensures
        parsed_batch(table, first + second) == parsed_batch(table, first) + parsed_batch(
            table,
            second,
        ),
    decreases second.len(),
{
    if second.len() > 0 {
        lemma_batch_concat(table, first, second.drop_last());
        assert((first + second).drop_last() =~= first + second.drop_last());
    }
}

/// Trimming the lines and dropping the blank ones beforehand does not change
/// the batch they parse into.
pub proof fn lemma_content_parses_alike(table: PatternTable, lines: Seq<Seq<char>>)
    ensures
        parsed_batch(table, content_lines(lines)) == parsed_batch(table, lines),
    decreases lines.len(),
{
    if lines.len() > 0 {
        lemma_content_parses_alike(table, lines.drop_last());
        lemma_parse_ignores_outer_whitespace(table, lines.last());
        let earlier = content_lines(lines.drop_last());
        let text = trimmed(lines.last());
        if text.len() > 0 {
            assert(earlier.push(text).drop_last() =~= earlier);
        }
    }
}

/// For each record of a batch, in order, the position of the line it came
/// from.
pub open spec fn origins(table: PatternTable, lines: Seq<Seq<char>>) -> Seq<int>
    decreases lines.len(),
{
    if lines.len() == 0 {
        Seq::empty()
    } else {
        let earlier = origins(table, lines.drop_last());
        if parsed(table, lines.last()) is Some {
            earlier.push(lines.len() - 1)
        } else {
            earlier
        }
    }
}

/// A batch keeps the order of the lines and holds each surviving line once:
/// the records come from strictly increasing positions, each is what its line
/// parses into, and every line that parses is among them.
pub proof fn lemma_batch_preserves_order(table: PatternTable, lines: Seq<Seq<char>>)
    ensures
        origins(table, lines).len() == parsed_batch(table, lines).len(),
        forall|k: int|
            0 <= k < origins(table, lines).len() ==> {
                &&& 0 <= #[trigger] origins(table, lines)[k] < lines.len()
                &&& parsed(table, lines[origins(table, lines)[k]]) == Some(
                    parsed_batch(table, lines)[k],
                )
            },
        forall|j: int, k: int|
            0 <= j < k < origins(table, lines).len() ==> origins(table, lines)[j] < origins(
                table,
                lines,
            )[k],
        forall|i: int|
            0 <= i < lines.len() && parsed(table, #[trigger] lines[i]) is Some ==> origins(
                table,
                lines,
            ).contains(i),
    decreases lines.len(),
{
    if lines.len() > 0 {
        let shorter = lines.drop_last();
        lemma_batch_preserves_order(table, shorter);
        let earlier = origins(table, shorter);
        let last = lines.len() - 1;
        assert forall|i: int|
            0 <= i < lines.len() && parsed(table, #[trigger] lines[i]) is Some implies origins(
            table,
            lines,
        ).contains(i) by {
            if i < last {
                assert(shorter[i] == lines[i]);
                let k = choose|k: int| 0 <= k < earlier.len() && earlier[k] == i;
                assert(origins(table, lines)[k] == i);
            } else {
                assert(origins(table, lines)[earlier.len() as int] == i);
            }
        }
    }
}

} // verus!
