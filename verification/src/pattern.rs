//! The table of compiled patterns, and the contracts under which the parser
//! calls the `regex` crate.
//!
//! A compiled `Regex` is opaque to the verifier. What a search returns is a
//! function of the regex and of the text searched, so the contracts here give
//! those results names; the parser's own contracts are stated over them.

use regex::Regex;
use vstd::prelude::*;

verus! {

/// The `regex` crate's compiled regular expression, carried as an opaque
/// value.
#[verifier::external_type_specification]
#[verifier::external_body]
pub struct ExRegex(regex::Regex);

/// The `regex` crate's compilation error, carried as an opaque value.
#[verifier::external_type_specification]
#[verifier::external_body]
pub struct ExRegexError(regex::Error);

/// The pattern text that a compiled regex was built from: what
/// `Regex::as_str` returns.
pub uninterp spec fn regex_source(re: Regex) -> Seq<char>;

/// The leftmost match of `re` in `haystack`, as what `Regex::find` returns:
/// the positions, counted in characters, at which the match starts and ends.
pub uninterp spec fn regex_find(re: Regex, haystack: Seq<char>) -> Option<(int, int)>;

/// The capture groups of the leftmost match of `re` in `haystack`, as what
/// `Regex::captures` returns: for each group, in the order of the opening
/// parentheses and with the whole match as group 0, the text it matched, or
/// `None` for a group that took no part in the match.
pub uninterp spec fn regex_captures(re: Regex, haystack: Seq<char>) -> Option<
    Seq<Option<Seq<char>>>,
>;

/// `Regex::new` compiles `pattern` under the default configuration. Whether it
/// succeeds is left open; a regex that comes back keeps the text it was
/// compiled from.
pub assume_specification[ Regex::new ](pattern: &str) -> (r: Result<Regex, regex::Error>)
    ensures
        r matches Ok(re) ==> regex_source(re) == pattern@,
;

/// `Regex::find` on `haystack`: the text of the leftmost match, read with
/// `Match::as_str`, and the text that follows it, cut at `Match::end`; both
/// are slices of `haystack`. The match offsets lie on character boundaries,
/// in order and within the haystack.
#[verifier::external_body]
pub(crate) fn find_first<'h>(re: &Regex, haystack: &'h str) -> (r: Option<(&'h str, &'h str)>)
    ensures
        match (r, regex_find(*re, haystack@)) {
            (None, None) => true,
            (Some((hit, rest)), Some((start, end))) => {
                &&& 0 <= start <= end <= haystack@.len()
                &&& hit@ == haystack@.subrange(start, end)
                &&& rest@ == haystack@.skip(end)
            },
            _ => false,
        },
{
    re.find(haystack).map(|m| (m.as_str(), &haystack[m.end()..]))
}

/// `Regex::captures` on `haystack`: the text of every capture group of the
/// leftmost match, walked with `Captures::iter` and copied out in group
/// order.
#[verifier::external_body]
pub(crate) fn capture_groups(re: &Regex, haystack: &str) -> (r: Option<Vec<Option<String>>>)
    ensures
        r.deep_view() == regex_captures(*re, haystack@),
{
    re.captures(haystack).map(
        |caps| caps.iter().map(|g| g.map(|m| m.as_str().to_string())).collect(),
    )
}

/// Locates a timestamp token `MM-DD HH:MM:SS.mmm` anywhere in a line.
pub const TIMESTAMP_PATTERN: &'static str = r"(\d{2}-\d{2}\s+\d{2}:\d{2}:\d{2}\.\d{3})";

/// Thread-time line without a level: `PID - - TAG: MESSAGE`.
pub const SIMPLE_PATTERN: &'static str = r"^(\d+)\s+-\s+-\s+([^:]+):\s+(.*)$";

/// Thread-time line with a level: `LEVEL - - PID TID LEVEL TAG: MESSAGE`.
pub const COMPLEX_PATTERN: &'static str =
    r"^([VDIWEAF])\s+-\s+-\s+(\d+)\s+(\d+)\s+([VDIWEAF])\s+([^:]+):\s*(.*)$";

/// Bracketed line: `LEVEL/TAG( PID TID ) MESSAGE`.
pub const BRACKETED_PATTERN: &'static str = r"^([DIWEFV])/([^(]+)\(\s*([^)]*?)\s*\)\s+(.*)$";

/// Display id in the explicit form `displayId: <n>`.
pub const DISPLAY_ID_PATTERN: &'static str = r"(?i)displayId[:\s]+(\d+)";

/// Display id in the generic form `display: <n>`.
pub const DISPLAY_PATTERN: &'static str = r"(?i)display[:\s]+(\d+)";

/// Display id in the capitalized form `Display <n>`.
pub const DISPLAY_WORD_PATTERN: &'static str = r"(?i)Display\s+(\d+)";

/// Names the pattern that failed to compile.
#[derive(Clone, Copy, Debug, PartialEq, Eq)]
pub enum PatternError {
    Timestamp,
    Simple,
    Complex,
    Bracketed,
    DisplayId,
    Display,
    DisplayWord,
}

/// The compiled patterns the parser and the classifier search with. A table
/// is built once and only read afterwards.
pub struct PatternTable {
    /// Finds the timestamp token.
    pub timestamp: Regex,
    /// Matches the thread-time shape without a level.
    pub simple: Regex,
    /// Matches the thread-time shape with a level.
    pub complex: Regex,
    /// Matches the bracketed shape.
    pub bracketed: Regex,
    /// The display-id matchers, in the order in which they are tried.
    pub display_ids: Vec<Regex>,
}

impl PatternTable {
    /// The table holds exactly the library's patterns, the display-id
    /// matchers in the order explicit, generic, capitalized.
    pub open spec fn is_standard(&self) -> bool {
        &&& regex_source(self.timestamp) == TIMESTAMP_PATTERN@
        &&& regex_source(self.simple) == SIMPLE_PATTERN@
        &&& regex_source(self.complex) == COMPLEX_PATTERN@
        &&& regex_source(self.bracketed) == BRACKETED_PATTERN@
        &&& self.display_ids@.len() == 3
        &&& regex_source(self.display_ids@[0]) == DISPLAY_ID_PATTERN@
        &&& regex_source(self.display_ids@[1]) == DISPLAY_PATTERN@
        &&& regex_source(self.display_ids@[2]) == DISPLAY_WORD_PATTERN@
    }

    /// Compiles the library's patterns into a table. Compilation is the
    /// `regex` crate's; a table that comes back is the standard one.
    pub fn new() -> (r: Result<PatternTable, PatternError>)
        ensures
            r matches Ok(table) ==> table.is_standard(),
    {
        PatternTable::assemble(
            Regex::new(TIMESTAMP_PATTERN),
            Regex::new(SIMPLE_PATTERN),
            Regex::new(COMPLEX_PATTERN),
            Regex::new(BRACKETED_PATTERN),
            Regex::new(DISPLAY_ID_PATTERN),
            Regex::new(DISPLAY_PATTERN),
            Regex::new(DISPLAY_WORD_PATTERN),
        )
    }

    /// Builds a table from seven compilation results. The first failure, in
    /// the order of the parameters, decides the error; with none, the table
    /// holds the seven regexes in that order.
    pub fn assemble(
        timestamp: Result<Regex, regex::Error>,
        simple: Result<Regex, regex::Error>,
        complex: Result<Regex, regex::Error>,
        bracketed: Result<Regex, regex::Error>,
        display_id: Result<Regex, regex::Error>,
        display: Result<Regex, regex::Error>,
        display_word: Result<Regex, regex::Error>,
    ) -> (r: Result<PatternTable, PatternError>)
        ensures
            match r {
                Ok(table) => {
                    &&& timestamp == Ok::<Regex, regex::Error>(table.timestamp)
                    &&& simple == Ok::<Regex, regex::Error>(table.simple)
                    &&& complex == Ok::<Regex, regex::Error>(table.complex)
                    &&& bracketed == Ok::<Regex, regex::Error>(table.bracketed)
                    &&& table.display_ids@.len() == 3
                    &&& display_id == Ok::<Regex, regex::Error>(table.display_ids@[0])
                    &&& display == Ok::<Regex, regex::Error>(table.display_ids@[1])
                    &&& display_word == Ok::<Regex, regex::Error>(table.display_ids@[2])
                },
                Err(PatternError::Timestamp) => timestamp is Err,
                Err(PatternError::Simple) => timestamp is Ok && simple is Err,
                Err(PatternError::Complex) => timestamp is Ok && simple is Ok && complex is Err,
                Err(PatternError::Bracketed) => {
                    timestamp is Ok && simple is Ok && complex is Ok && bracketed is Err
                },
                Err(PatternError::DisplayId) => {
                    &&& timestamp is Ok && simple is Ok && complex is Ok && bracketed is Ok
                    &&& display_id is Err
                },
                Err(PatternError::Display) => {
                    &&& timestamp is Ok && simple is Ok && complex is Ok && bracketed is Ok
                    &&& display_id is Ok && display is Err
                },
                Err(PatternError::DisplayWord) => {
                    &&& timestamp is Ok && simple is Ok && complex is Ok && bracketed is Ok
                    &&& display_id is Ok && display is Ok && display_word is Err
                },
            },
    {
        let timestamp = match timestamp {
            Ok(re) => re,
            Err(_) => return Err(PatternError::Timestamp),
        };
        let simple = match simple {
            Ok(re) => re,
            Err(_) => return Err(PatternError::Simple),
        };
        let complex = match complex {
            Ok(re) => re,
            Err(_) => return Err(PatternError::Complex),
        };
        let bracketed = match bracketed {
            Ok(re) => re,
            Err(_) => return Err(PatternError::Bracketed),
        };
        let display_id = match display_id {
            Ok(re) => re,
            Err(_) => return Err(PatternError::DisplayId),
        };
        let display = match display {
            Ok(re) => re,
            Err(_) => return Err(PatternError::Display),
        };
        let display_word = match display_word {
            Ok(re) => re,
            Err(_) => return Err(PatternError::DisplayWord),
        };
        let mut display_ids: Vec<Regex> = Vec::new();
        display_ids.push(display_id);
        display_ids.push(display);
        display_ids.push(display_word);
        Ok(PatternTable { timestamp, simple, complex, bracketed, display_ids })
    }
}

} // verus!
