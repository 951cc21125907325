//! Timelines: the lines of a description that give a time and say what
//! begins there, such as `01:23 - Opening`, and times written as a clock
//! shows them.

use vstd::prelude::*;
use vstd::string::*;
use crate::decimal::{push_zero_padded, zero_padded};
use crate::pattern::{first_match, group, group_text, match_view, pattern_compiles, search};
use crate::text::{
    chars_of,
    lines_of,
    parse_decimal,
    parse_number,
    split_lines,
    text_of,
    trim,
    trimmed,
};

verus! {

/// One entry of a timeline: the time at which something begins, in seconds,
/// and the entry as it is shown.
#[derive(Clone, Debug, PartialEq, Eq)]
pub struct TimelineEntry {
    pub timestamp: u128,
    pub content: String,
}

/// An entry of a timeline, over unbounded integers and sequences.
pub struct TimelineModel {
    pub timestamp: int,
    pub content: Seq<char>,
}

impl View for TimelineEntry {
    type V = TimelineModel;

    open spec fn view(&self) -> TimelineModel {
        TimelineModel { timestamp: self.timestamp as int, content: self.content@ }
    }
}

/// The pattern of a timeline's line: minutes, a colon, two digits of
/// seconds, then white space, with or without a dash in front of it, and
/// what the line says.
pub const TIMELINE_PATTERN: &'static str = r"(\d+):(\d{2})(?:\s*[—-])?\s+(.+)";

/// The number that a group of digits states, or zero where it states none
/// that is a `u64`.
pub open spec fn number_or_zero(digits: Seq<char>) -> int {
    match parse_decimal(digits, u64::MAX as int) {
        Some(number) => number,
        None => 0,
    }
}

/// An entry as it is shown: the time in brackets with what the line says,
/// `[01:23 - Opening] `, and a line feed.
pub open spec fn entry_text(minutes: int, seconds: int, description: Seq<char>) -> Seq<char> {
    seq!['['] + zero_padded(minutes as nat, 2) + seq![':'] + zero_padded(seconds as nat, 2) + seq![
        ' ',
        '-',
        ' ',
    ] + description + seq![']', ' ', '\n']
}

/// The entry that a match of [`TIMELINE_PATTERN`] gives: the first group
/// holds the minutes, the second the seconds, the third what the line says.
/// There is none where one of the three is missing.
pub open spec fn entry_of_match(found: Option<Seq<Option<Seq<char>>>>) -> Option<TimelineModel> {
    match (group_text(found, 1), group_text(found, 2), group_text(found, 3)) {
        (Some(first), Some(second), Some(third)) => {
            let minutes = number_or_zero(first);
            let seconds = number_or_zero(second);
            Some(
                TimelineModel {
                    timestamp: minutes * 60 + seconds,
                    content: entry_text(minutes, seconds, third),
                },
            )
        },
        _ => None,
    }
}

/// The entry that a line gives, if it gives one: the line is searched for
/// [`TIMELINE_PATTERN`] without the white space around it.
pub open spec fn entry_of_line(line: Seq<char>) -> Option<TimelineModel> {
    if pattern_compiles(TIMELINE_PATTERN@) {
        entry_of_match(first_match(TIMELINE_PATTERN@, trimmed(line)))
    } else {
        None
    }
}

/// The entries that some lines give, in the order of the lines.
pub open spec fn entries_of(lines: Seq<Seq<char>>) -> Seq<TimelineModel>
    decreases lines.len(),
{
    if lines.len() == 0 {
        Seq::empty()
    } else {
        match entry_of_line(lines.last()) {
            Some(entry) => entries_of(lines.drop_last()).push(entry),
            None => entries_of(lines.drop_last()),
        }
    }
}

/// The entries of a list, as models.
pub open spec fn models_of(entries: Seq<TimelineEntry>) -> Seq<TimelineModel> {
    entries.map_values(|entry: TimelineEntry| entry@)
}

fn number_in(digits: &String) -> (number: u64)
    ensures
        number == number_or_zero(digits@),
{
    let chars: Vec<char> = chars_of(digits.as_str());
    match parse_number(&chars, u64::MAX) {
        Some(number) => number,
        None => 0,
    }
}

/// Makes the entry of a match of [`TIMELINE_PATTERN`].
pub fn entry_from_match(found: &Option<Vec<Option<String>>>) -> (entry: Option<TimelineEntry>)
    ensures
        entry is Some <==> entry_of_match(match_view(*found)) is Some,
        entry matches Some(made) ==> entry_of_match(match_view(*found)) == Some(made@),
{
    let first: &String = match group(found, 1) {
        Some(part) => part,
        None => {
            return None;
        },
    };
    let second: &String = match group(found, 2) {
        Some(part) => part,
        None => {
            return None;
        },
    };
    let third: &String = match group(found, 3) {
        Some(part) => part,
        None => {
            return None;
        },
    };
    let minutes: u64 = number_in(first);
    let seconds: u64 = number_in(second);
    proof {
        reveal_strlit("[");
        reveal_strlit(":");
        reveal_strlit(" - ");
        reveal_strlit("] \n");
    }
    let mut content: String = String::from_str("[");
    push_zero_padded(&mut content, minutes, 2);
    content.append(":");
    push_zero_padded(&mut content, seconds, 2);
    content.append(" - ");
    content.append(third.as_str());
    content.append("] \n");
    assert(content@ =~= entry_text(minutes as int, seconds as int, third@));
    let timestamp: u128 = (minutes as u128) * 60 + (seconds as u128);
    Some(TimelineEntry { timestamp, content })
}

/// The entry that a line gives, if it gives one.
pub fn parse_line(line: &Vec<char>) -> (entry: Option<TimelineEntry>)
    ensures
        entry is Some <==> entry_of_line(line@) is Some,
        entry matches Some(made) ==> entry_of_line(line@) == Some(made@),
{
    let kept: Vec<char> = trim(line);
    let text: String = text_of(&kept);
    match search(TIMELINE_PATTERN, text.as_str()) {
        Ok(found) => entry_from_match(&found),
        Err(_) => None,
    }
}

/// The timeline in a description: the entries that its lines give, in the
/// order of the lines. Lines that give none are passed over.
pub fn parse_timeline(content: &str) -> (entries: Vec<TimelineEntry>)
    ensures
        models_of(entries@) == entries_of(lines_of(content@)),
{
    let chars: Vec<char> = chars_of(content);
    let lines: Vec<Vec<char>> = split_lines(&chars);
    let ghost all = lines_of(content@);
    let mut entries: Vec<TimelineEntry> = Vec::new();
    let mut at: usize = 0;
    while at < lines.len()
        invariant
            at <= lines.len() == all.len(),
            forall|i: int| 0 <= i < lines.len() ==> (#[trigger] lines[i])@ == all[i],
            models_of(entries@) == entries_of(all.take(at as int)),
        decreases lines.len() - at,
    {
        proof {
            assert(all.take(at + 1).drop_last() =~= all.take(at as int));
            assert(all.take(at + 1).last() == all[at as int]);
        }
        match parse_line(&lines[at]) {
            Some(entry) => {
                entries.push(entry);
                assert(models_of(entries@) =~= entries_of(all.take(at + 1)));
            },
            None => {},
        }
        at = at + 1;
    }
    proof {
        assert(all.take(at as int) =~= all);
    }
    entries
}

/// A time as a clock shows it: minutes and seconds in two digits or more
/// each, with a colon between them.
pub open spec fn clock_text(minutes: int, seconds: int) -> Seq<char> {
    zero_padded(minutes as nat, 2) + seq![':'] + zero_padded(seconds as nat, 2)
}

/// A time of so many thousandths of a second as a clock shows it. What is
/// less than a second is left out.
pub fn convert_microseconds_to_time(microseconds: u64) -> (clock: String)
    ensures
        clock@ == clock_text(
            (microseconds as int) / 1000 / 60,
            (microseconds as int) / 1000 % 60,
        ),
{
    let total_seconds: u64 = microseconds / 1_000;
    let minutes: u64 = total_seconds / 60;
    let seconds: u64 = total_seconds % 60;
    proof {
        reveal_strlit(":");
    }
    let mut clock: String = String::new();
    push_zero_padded(&mut clock, minutes, 2);
    clock.append(":");
    push_zero_padded(&mut clock, seconds, 2);
    assert(clock@ =~= clock_text(minutes as int, seconds as int));
    clock
}

} // verus!
