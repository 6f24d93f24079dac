//! The structured record that a log line is parsed into.

use crate::display::DisplayCategory;
use vstd::prelude::*;

verus! {

/// The text fields of a matched line, before the line is classified.
#[derive(Clone, Debug, PartialEq, Eq)]
pub struct LineFields {
    pub timestamp: String,
    pub level: String,
    pub pid: String,
    pub tid: String,
    pub tag: String,
    pub message: String,
}

/// The mathematical value of a `LineFields`.
pub struct FieldsView {
    pub timestamp: Seq<char>,
    pub level: Seq<char>,
    pub pid: Seq<char>,
    pub tid: Seq<char>,
    pub tag: Seq<char>,
    pub message: Seq<char>,
}

impl View for LineFields {
    type V = FieldsView;

    open spec fn view(&self) -> FieldsView {
        FieldsView {
            timestamp: self.timestamp@,
            level: self.level@,
            pid: self.pid@,
            tid: self.tid@,
            tag: self.tag@,
            message: self.message@,
        }
    }
}

impl DeepView for LineFields {
    type V = FieldsView;

    open spec fn deep_view(&self) -> FieldsView {
        self@
    }
}

/// One parsed log line. Every field is always present: a level, process id or
/// thread id that the line does not carry is the placeholder `-`.
#[derive(Clone, Debug, PartialEq, Eq)]
pub struct LogRecord {
    /// The timestamp token as it stood in the line, `MM-DD HH:MM:SS.mmm`.
    pub timestamp: String,
    /// The severity letter, or `-`.
    pub level: String,
    /// The process id token, or `-`.
    pub pid: String,
    /// The thread id token, or `-`.
    pub tid: String,
    /// The tag, trimmed.
    pub tag: String,
    /// The rest of the line, trimmed.
    pub message: String,
    /// The display surface the line is attributed to.
    pub display: DisplayCategory,
}

/// The mathematical value of a `LogRecord`.
pub struct RecordView {
    pub timestamp: Seq<char>,
    pub level: Seq<char>,
    pub pid: Seq<char>,
    pub tid: Seq<char>,
    pub tag: Seq<char>,
    pub message: Seq<char>,
    pub display: DisplayCategory,
}

impl View for LogRecord {
    type V = RecordView;

    open spec fn view(&self) -> RecordView {
        RecordView {
            timestamp: self.timestamp@,
            level: self.level@,
            pid: self.pid@,
            tid: self.tid@,
            tag: self.tag@,
            message: self.message@,
            display: self.display,
        }
    }
}

impl DeepView for LogRecord {
    type V = RecordView;

    open spec fn deep_view(&self) -> RecordView {
        self@
    }
}

/// The record made of the given fields and display category.
pub open spec fn record_of(fields: FieldsView, display: DisplayCategory) -> RecordView {
    RecordView {
        timestamp: fields.timestamp,
        level: fields.level,
        pid: fields.pid,
        tid: fields.tid,
        tag: fields.tag,
        message: fields.message,
        display,
    }
}

impl LogRecord {
    /// Completes the fields of a matched line with its display category.
    pub fn from_fields(fields: LineFields, display: DisplayCategory) -> (r: LogRecord)
        ensures
            r@ == record_of(fields@, display),
    {
        LogRecord {
            timestamp: fields.timestamp,
            level: fields.level,
            pid: fields.pid,
            tid: fields.tid,
            tag: fields.tag,
            message: fields.message,
            display,
        }
    }
}

} // verus!
