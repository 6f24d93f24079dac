//! Classification of a log line by the display surface it came from.
//!
//! A display id found in the message decides first; failing that, the tag is
//! searched for the name of a surface; failing that, the line belongs to the
//! main display.

use crate::pattern::{capture_groups, regex_captures, PatternTable};
use crate::text::{contains_text, has_substring, lowercase_of};
use regex::Regex;
use vstd::prelude::*;

verus! {

/// The display surface a log line is attributed to.
#[derive(Clone, Copy, Debug, PartialEq, Eq, Structural)]
pub enum DisplayCategory {
    Main,
    Cluster,
    Ivi,
    Passenger,
    Display,
}

impl DisplayCategory {
    /// The category's name as text.
    pub open spec fn label_text(self) -> Seq<char> {
        match self {
            DisplayCategory::Main => "Main"@,
            DisplayCategory::Cluster => "Cluster"@,
            DisplayCategory::Ivi => "IVI"@,
            DisplayCategory::Passenger => "Passenger"@,
            DisplayCategory::Display => "Display"@,
        }
    }

    /// The category's name: `Main`, `Cluster`, `IVI`, `Passenger` or
    /// `Display`.
    pub fn label(self) -> (r: &'static str)
        ensures
            r@ == self.label_text(),
    {
        match self {
            DisplayCategory::Main => "Main",
            DisplayCategory::Cluster => "Cluster",
            DisplayCategory::Ivi => "IVI",
            DisplayCategory::Passenger => "Passenger",
            DisplayCategory::Display => "Display",
        }
    }
}

/// The text of capture group `index`, where the group exists and took part in
/// the match.
pub open spec fn group_text(groups: Seq<Option<Seq<char>>>, index: int) -> Option<Seq<char>> {
    if 0 <= index < groups.len() {
        groups[index]
    } else {
        None
    }
}

/// The category that a captured display id stands for: `0` is the main
/// display, `1` the cluster, `2` the infotainment unit, anything else a
/// display without a name.
pub open spec fn category_of_id(id: Seq<char>) -> DisplayCategory {
    if id == seq!['0'] {
        DisplayCategory::Main
    } else if id == seq!['1'] {
        DisplayCategory::Cluster
    } else if id == seq!['2'] {
        DisplayCategory::Ivi
    } else {
        DisplayCategory::Display
    }
}

/// The category that a lowercased tag points to, by the surface names it
/// contains.
pub open spec fn category_of_tag(lowered: Seq<char>) -> DisplayCategory {
    if has_substring(lowered, "cluster"@) {
        DisplayCategory::Cluster
    } else if has_substring(lowered, "ivi"@) || has_substring(lowered, "infotainment"@) {
        DisplayCategory::Ivi
    } else if has_substring(lowered, "passenger"@) {
        DisplayCategory::Passenger
    } else {
        DisplayCategory::Main
    }
}

/// The display id that `matcher` captures in `message`: group 1 of its
/// leftmost match.
pub open spec fn display_id_by(matcher: Regex, message: Seq<char>) -> Option<Seq<char>> {
    match regex_captures(matcher, message) {
        Some(groups) => group_text(groups, 1),
        None => None,
    }
}

/// The display id captured by the first of `matchers[from..]` that captures
/// one in `message`.
pub open spec fn first_display_id(matchers: Seq<Regex>, message: Seq<char>, from: int) -> Option<
    Seq<char>,
>
    decreases matchers.len() - from,
{
    if from < 0 || from >= matchers.len() {
        None
    } else {
        match display_id_by(matchers[from], message) {
            Some(id) => Some(id),
            None => first_display_id(matchers, message, from + 1),
        }
    }
}

/// The display category of a line with the given tag and message.
pub open spec fn classified(table: PatternTable, tag: Seq<char>, message: Seq<char>)
    -> DisplayCategory {
    match first_display_id(table.display_ids@, message, 0) {
        Some(id) => category_of_id(id),
        None => category_of_tag(lowercase_of(tag)),
    }
}

/// The text of capture group `index` of a match, if that group exists and
/// took part in it.
pub fn group<'a>(groups: &'a Vec<Option<String>>, index: usize) -> (r: Option<&'a str>)
    ensures
        r.deep_view() == group_text(groups.deep_view(), index as int),
{
    if index < groups.len() {
        match &groups[index] {
            Some(text) => Some(text.as_str()),
            None => None,
        }
    } else {
        None
    }
}

/// Maps a captured display id to its category.
pub fn category_for_id(id: &str) -> (r: DisplayCategory)
    ensures
        r == category_of_id(id@),
{
    if id.unicode_len() != 1 {
        return DisplayCategory::Display;
    }
    let digit = id.get_char(0);
    assert(id@ =~= seq![digit]);
    if digit == '0' {
        DisplayCategory::Main
    } else if digit == '1' {
        DisplayCategory::Cluster
    } else if digit == '2' {
        DisplayCategory::Ivi
    } else {
        DisplayCategory::Display
    }
}

/// Maps a tag, already lowercased, to the category whose name it contains.
pub fn category_for_tag(lowered: &str) -> (r: DisplayCategory)
    ensures
        r == category_of_tag(lowered@),
{
    if contains_text(lowered, "cluster") {
        DisplayCategory::Cluster
    } else if contains_text(lowered, "ivi") || contains_text(lowered, "infotainment") {
        DisplayCategory::Ivi
    } else if contains_text(lowered, "passenger") {
        DisplayCategory::Passenger
    } else {
        DisplayCategory::Main
    }
}

/// Classifies a line by its tag and message. The display-id matchers of
/// `table` are tried on the message in order; the first id captured decides.
/// With none, the lowercased tag decides.
pub fn classify_display(table: &PatternTable, tag: &str, message: &str) -> (r: DisplayCategory)
    ensures
        r == classified(*table, tag@, message@),
{
    let mut i: usize = 0;
    while i < table.display_ids.len()
        invariant
            0 <= i <= table.display_ids@.len(),
            first_display_id(table.display_ids@, message@, 0) == first_display_id(
                table.display_ids@,
                message@,
                i as int,
            ),
        decreases table.display_ids@.len() - i,
    {
        match capture_groups(&table.display_ids[i], message) {
            Some(groups) => {
                match group(&groups, 1) {
                    Some(id) => {
                        return category_for_id(id);
                    },
                    None => {},
                }
            },
            None => {},
        }
        i += 1;
    }
    let lowered = tag.to_lowercase();
    category_for_tag(lowered.as_str())
}

/// A display id captured in the message decides the category whatever the
/// tag is.
pub proof fn lemma_display_id_overrides_tag(
    table: PatternTable,
    tag: Seq<char>,
    other_tag: Seq<char>,
    message: Seq<char>,
)
    requires
        first_display_id(table.display_ids@, message, 0) is Some,
    ensures
        classified(table, tag, message) == classified(table, other_tag, message),
{
}

/// When the first display-id matcher captures the id `1` in the message, the
/// line belongs to the cluster, whatever the tag is.
pub proof fn lemma_display_id_one_is_cluster(
    table: PatternTable,
    tag: Seq<char>,
    message: Seq<char>,
)
    requires
        table.display_ids@.len() > 0,
        display_id_by(table.display_ids@[0], message) == Some(seq!['1']),
    ensures
        classified(table, tag, message) == DisplayCategory::Cluster,
{
    assert(seq!['1'][0] != seq!['0'][0]);
}

/// When no display-id matcher captures an id in the message, a tag whose
/// lowercase form contains `cluster` puts the line on the cluster.
pub proof fn lemma_cluster_tag_is_cluster(table: PatternTable, tag: Seq<char>, message: Seq<char>)
    requires
        first_display_id(table.display_ids@, message, 0) is None,
        has_substring(lowercase_of(tag), "cluster"@),
    ensures
        classified(table, tag, message) == DisplayCategory::Cluster,
{
}

/// Classification is a function of the table, the tag and the message: two
/// categories that both answer to the contract of `classify_display` on the
/// same arguments are the same.
pub proof fn lemma_classification_deterministic(
    table: PatternTable,
    tag: Seq<char>,
    message: Seq<char>,
    first: DisplayCategory,
    second: DisplayCategory,
)
    requires
        first == classified(table, tag, message),
        second == classified(table, tag, message),
    ensures
        first == second,
{
}

} // verus!
