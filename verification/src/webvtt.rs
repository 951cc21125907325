//! Captions in the WebVTT format: the times of its cues, the cutting of a
//! file's text into chunks of some minutes each, and the listing of the
//! languages in which a video has captions.

use vstd::prelude::*;
use vstd::string::*;
use crate::text::{
    begins_with,
    chars_of,
    contains,
    contains_text,
    join,
    joined,
    lines_of,
    parse_decimal,
    parse_number,
    slice_of,
    split_at_first,
    split_lines,
    split_once,
    starts_with,
    text_of,
    views_of,
};

verus! {

/// Whether a character parts the fields of a time: a colon or a dot.
pub open spec fn is_mark(c: char) -> bool {
    c == ':' || c == '.'
}

/// The position of the first colon or dot at or after `from`, or the length
/// of the text if there is none.
pub open spec fn field_end(text: Seq<char>, from: int) -> int
    decreases text.len() - from,
{
    if 0 <= from < text.len() && !is_mark(text[from]) {
        field_end(text, from + 1)
    } else {
        from
    }
}

/// The fields of a text from `from` on.
pub open spec fn fields_from(text: Seq<char>, from: int) -> Seq<Seq<char>>
    decreases text.len() - from,
    via fields_from_ends
{
    if from < 0 || from > text.len() {
        Seq::empty()
    } else if field_end(text, from) >= text.len() {
        seq![text.subrange(from, text.len() as int)]
    } else {
        seq![text.subrange(from, field_end(text, from))] + fields_from(
            text,
            field_end(text, from) + 1,
        )
    }
}

#[via_fn]
proof fn fields_from_ends(text: Seq<char>, from: int) {
    if 0 <= from <= text.len() {
        lemma_field_end_bounds(text, from);
    }
}

/// The fields of a text: what stands between its colons and dots. A text
/// with `n` colons and dots has `n + 1` fields, some of which may be empty.
pub open spec fn fields_of(text: Seq<char>) -> Seq<Seq<char>> {
    fields_from(text, 0)
}

/// A field ends at or behind its start, and no later than the text.
pub proof fn lemma_field_end_bounds(text: Seq<char>, from: int)
    requires
        0 <= from <= text.len(),
    ensures
        from <= field_end(text, from) <= text.len(),
    decreases text.len() - from,
{
    if from < text.len() && !is_mark(text[from]) {
        lemma_field_end_bounds(text, from + 1);
    }
}

/// The number that a field states, if it states one that is a `u64`.
pub open spec fn field_number(field: Seq<char>) -> Option<int> {
    parse_decimal(field, u64::MAX as int)
}

/// The time that a text states, in thousandths of a second. The first three
/// fields are hours, minutes and seconds; each must be a number. The fifth
/// field, where there is one and it is a number, is thousandths of a second.
pub open spec fn clock_millis(text: Seq<char>) -> Option<int> {
    let fields = fields_of(text);
    if fields.len() < 3 {
        None
    } else {
        match (field_number(fields[0]), field_number(fields[1]), field_number(fields[2])) {
            (Some(hours), Some(minutes), Some(seconds)) => {
                let millis = if fields.len() > 4 {
                    match field_number(fields[4]) {
                        Some(number) => number,
                        None => 0,
                    }
                } else {
                    0
                };
                Some((hours * 3600 + minutes * 60 + seconds) * 1000 + millis)
            },
            _ => None,
        }
    }
}

/// The fields of a text.
pub fn split_fields(chars: &Vec<char>) -> (fields: Vec<Vec<char>>)
    ensures
        views_of(fields@) == fields_of(chars@),
{
    let len: usize = chars.len();
    let mut fields: Vec<Vec<char>> = Vec::new();
    let mut from: usize = 0;
    loop
        invariant
            from <= len == chars.len(),
            fields_of(chars@) == views_of(fields@) + fields_from(chars@, from as int),
        decreases len - from,
    {
        let mut end: usize = from;
        while end < len && chars[end] != ':' && chars[end] != '.'
            invariant
                from <= end <= len == chars.len(),
                field_end(chars@, from as int) == field_end(chars@, end as int),
            decreases len - end,
        {
            end = end + 1;
        }
        let field: Vec<char> = slice_of(chars, from, end);
        let ghost before = views_of(fields@);
        fields.push(field);
        proof {
            assert(views_of(fields@) =~= before.push(field@));
        }
        if end >= len {
            proof {
                assert(fields_from(chars@, from as int) =~= seq![field@]);
                assert(before + seq![field@] =~= before.push(field@));
            }
            return fields;
        }
        proof {
            let rest = fields_from(chars@, end + 1);
            assert(fields_from(chars@, from as int) == seq![field@] + rest);
            assert(before + (seq![field@] + rest) =~= before.push(field@) + rest);
        }
        from = end + 1;
    }
}

/// Reads the time that a text states, in thousandths of a second.
pub fn parse_timestamp(timestamp: &str) -> (time: Option<u128>)
    ensures
        time is Some <==> clock_millis(timestamp@) is Some,
        time matches Some(millis) ==> clock_millis(timestamp@) == Some(millis as int),
{
    let chars: Vec<char> = chars_of(timestamp);
    parse_clock(&chars)
}

/// Reads the time that some characters state, in thousandths of a second.
pub fn parse_clock(chars: &Vec<char>) -> (time: Option<u128>)
    ensures
        time is Some <==> clock_millis(chars@) is Some,
        time matches Some(millis) ==> clock_millis(chars@) == Some(millis as int),
{
    let parts: Vec<Vec<char>> = split_fields(chars);
    let ghost fields = fields_of(chars@);
    assert(parts.len() == fields.len());
    assert(forall|i: int| 0 <= i < parts.len() ==> (#[trigger] parts[i])@ == fields[i]);
    if parts.len() < 3 {
        return None;
    }
    let hours: u64 = match parse_number(&parts[0], u64::MAX) {
        Some(number) => number,
        None => {
            return None;
        },
    };
    let minutes: u64 = match parse_number(&parts[1], u64::MAX) {
        Some(number) => number,
        None => {
            return None;
        },
    };
    let seconds: u64 = match parse_number(&parts[2], u64::MAX) {
        Some(number) => number,
        None => {
            return None;
        },
    };
    let millis: u64 = if parts.len() > 4 {
        match parse_number(&parts[4], u64::MAX) {
            Some(number) => number,
            None => 0,
        }
    } else {
        0
    };
    let whole: u128 = (hours as u128) * 3600 + (minutes as u128) * 60 + (seconds as u128);
    assert(whole * 1000 + millis <= u128::MAX) by (nonlinear_arith)
        requires
            whole <= 0xffff_ffff_ffff_ffff * 3661,
            millis <= 0xffff_ffff_ffff_ffff,
    ;
    Some(whole * 1000 + (millis as u128))
}

/// How much later than the last cut a cue must begin for the text to be cut
/// in front of it: five hundred seconds, in thousandths of a second.
pub const CHUNK_INTERVAL: u128 = 500_000;

/// How far the cutting of a caption file has come.
pub struct ChunkingModel {
    /// The time of the cue in front of which the text was cut last.
    pub last_split: int,
    /// The chunks that are complete.
    pub chunks: Seq<Seq<char>>,
    /// The lines of text since the last cut.
    pub pending: Seq<Seq<char>>,
    /// Whether the lines that follow belong to a cue.
    pub in_block: bool,
}

/// The state in front of a file's first line.
pub open spec fn chunking_start() -> ChunkingModel {
    ChunkingModel { last_split: 0, chunks: Seq::empty(), pending: Seq::empty(), in_block: false }
}

/// The state after one more line.
///
/// A line with an arrow in it is the time line of a cue. If the arrow stands
/// between blanks, a cue begins; and if the time in front of the arrow is at
/// least the interval later than the last cut, the text is cut here: the
/// lines since the last cut, joined by blanks, make a chunk. Another line
/// that is not empty is text if a cue has begun. An empty line ends the cue.
pub open spec fn chunking_step(state: ChunkingModel, line: Seq<char>) -> ChunkingModel {
    if contains_text(line, "-->"@) {
        match split_at_first(line, " --> "@) {
            Some((start, rest)) => {
                match clock_millis(start) {
                    Some(time) => if time >= state.last_split + CHUNK_INTERVAL {
                        ChunkingModel {
                            last_split: time,
                            chunks: state.chunks.push(joined(state.pending, " "@)),
                            pending: Seq::empty(),
                            in_block: true,
                        }
                    } else {
                        ChunkingModel { in_block: true, ..state }
                    },
                    None => ChunkingModel { in_block: true, ..state },
                }
            },
            None => state,
        }
    } else if line.len() > 0 && state.in_block {
        ChunkingModel { pending: state.pending.push(line), ..state }
    } else if line.len() == 0 {
        ChunkingModel { in_block: false, ..state }
    } else {
        state
    }
}

/// The state after the first `count` lines.
pub open spec fn chunking_after(lines: Seq<Seq<char>>, count: nat) -> ChunkingModel
    decreases count,
{
    if count == 0 {
        chunking_start()
    } else {
        chunking_step(chunking_after(lines, (count - 1) as nat), lines[count - 1])
    }
}

/// The chunks of a file, given its lines: those that were cut, and one more
/// of the lines since the last cut, if there are any.
pub open spec fn chunks_of(lines: Seq<Seq<char>>) -> Seq<Seq<char>> {
    let end = chunking_after(lines, lines.len());
    if end.pending.len() > 0 {
        end.chunks.push(joined(end.pending, " "@))
    } else {
        end.chunks
    }
}

/// The lines of a file as sequences of characters.
pub open spec fn line_views(lines: Seq<String>) -> Seq<Seq<char>> {
    lines.map_values(|line: String| line@)
}

/// The chunks as sequences of characters.
pub open spec fn chunk_views(chunks: Seq<String>) -> Seq<Seq<char>> {
    chunks.map_values(|chunk: String| chunk@)
}

/// Cuts the text of a caption file into chunks, given the file's lines.
pub fn chunk_lines(lines: &Vec<String>) -> (chunks: Vec<String>)
    ensures
        chunk_views(chunks@) == chunks_of(line_views(lines@)),
{
    let ghost all = line_views(lines@);
    let arrow: Vec<char> = chars_of("-->");
    let spaced_arrow: Vec<char> = chars_of(" --> ");
    let blank: Vec<char> = chars_of(" ");
    let mut last_split: u128 = 0;
    let mut chunks: Vec<String> = Vec::new();
    let mut pending: Vec<Vec<char>> = Vec::new();
    let mut in_block: bool = false;
    let mut at: usize = 0;
    proof {
        assert(chunk_views(chunks@) =~= Seq::<Seq<char>>::empty());
        assert(views_of(pending@) =~= Seq::<Seq<char>>::empty());
    }
    while at < lines.len()
        invariant
            at <= lines.len(),
            all == line_views(lines@),
            arrow@ == "-->"@,
            spaced_arrow@ == " --> "@,
            blank@ == " "@,
            chunking_after(all, at as nat) == (ChunkingModel {
                last_split: last_split as int,
                chunks: chunk_views(chunks@),
                pending: views_of(pending@),
                in_block,
            }),
        decreases lines.len() - at,
    {
        let line: Vec<char> = chars_of(lines[at].as_str());
        assert(line@ == all[at as int]);
        let ghost before = chunking_after(all, at as nat);
        if contains(&line, &arrow) {
            match split_once(&line, &spaced_arrow) {
                Some((start, _)) => {
                    in_block = true;
                    match parse_clock(&start) {
                        Some(time) => {
                            if time >= last_split && time - last_split >= CHUNK_INTERVAL {
                                last_split = time;
                                let chunk: String = text_of(&join(&pending, &blank));
                                let ghost cut = chunk_views(chunks@);
                                chunks.push(chunk);
                                pending = Vec::new();
                                proof {
                                    assert(chunk_views(chunks@) =~= cut.push(chunk@));
                                    assert(views_of(pending@) =~= Seq::<Seq<char>>::empty());
                                }
                            }
                        },
                        None => {},
                    }
                },
                None => {},
            }
        } else if line.len() > 0 && in_block {
            let ghost kept = views_of(pending@);
            pending.push(line);
            proof {
                assert(views_of(pending@) =~= kept.push(line@));
            }
        } else if line.len() == 0 {
            in_block = false;
        }
        at = at + 1;
    }
    if pending.len() > 0 {
        let chunk: String = text_of(&join(&pending, &blank));
        let ghost cut = chunk_views(chunks@);
        chunks.push(chunk);
        proof {
            assert(chunk_views(chunks@) =~= cut.push(chunk@));
        }
    }
    chunks
}

/// The language that a listing names first, from the line at `at` on.
/// `listed` says whether the head of the list, a line that begins with
/// `Language`, has been seen.
///
/// Empty lines are passed over. A head of automatic captions in front of the
/// list's own head means that the video has no captions of its own. The
/// first line behind the head that is not empty names the language, in
/// front of its first blank; if it has no blank, no language is named.
pub open spec fn language_from(lines: Seq<Seq<char>>, at: int, listed: bool) -> Option<Seq<char>>
    decreases lines.len() - at,
{
    if at < 0 || at >= lines.len() {
        None
    } else if lines[at].len() == 0 {
        language_from(lines, at + 1, listed)
    } else if contains_text(lines[at], "Available automatic captions"@) && !listed {
        None
    } else if begins_with(lines[at], "Language"@) {
        language_from(lines, at + 1, true)
    } else if listed {
        match split_at_first(lines[at], " "@) {
            Some((language, rest)) => Some(language),
            None => None,
        }
    } else {
        language_from(lines, at + 1, listed)
    }
}

/// The language in which a video has captions of its own, as the listing of
/// its captions names it first; none where the listing says that there are
/// no subtitles.
pub open spec fn listed_language(listing: Seq<char>) -> Option<Seq<char>> {
    if contains_text(listing, "has no subtitles"@) {
        None
    } else {
        language_from(lines_of(listing), 0, false)
    }
}

/// Reads from the listing of a video's captions the language that it names
/// first.
pub fn first_listed_language(listing: &str) -> (language: Option<String>)
    ensures
        language is Some <==> listed_language(listing@) is Some,
        language matches Some(name) ==> listed_language(listing@) == Some(name@),
{
    let chars: Vec<char> = chars_of(listing);
    let none: Vec<char> = chars_of("has no subtitles");
    if contains(&chars, &none) {
        return None;
    }
    let automatic: Vec<char> = chars_of("Available automatic captions");
    let head: Vec<char> = chars_of("Language");
    let blank: Vec<char> = chars_of(" ");
    let lines: Vec<Vec<char>> = split_lines(&chars);
    let ghost all = lines_of(listing@);
    let mut listed: bool = false;
    let mut at: usize = 0;
    while at < lines.len()
        invariant
            at <= lines.len() == all.len(),
            forall|i: int| 0 <= i < lines.len() ==> (#[trigger] lines[i])@ == all[i],
            automatic@ == "Available automatic captions"@,
            head@ == "Language"@,
            blank@ == " "@,
            listed_language(listing@) == language_from(all, 0, false),
            language_from(all, 0, false) == language_from(all, at as int, listed),
        decreases lines.len() - at,
    {
        let line: &Vec<char> = &lines[at];
        if line.len() == 0 {
            at = at + 1;
            continue;
        }
        if contains(line, &automatic) && !listed {
            return None;
        }
        if starts_with(line, &head) {
            listed = true;
            at = at + 1;
            continue;
        }
        if listed {
            return match split_once(line, &blank) {
                Some((language, _)) => Some(text_of(&language)),
                None => None,
            };
        }
        at = at + 1;
    }
    None
}

/// Some arguments as sequences of characters.
pub open spec fn argument_views(arguments: Seq<String>) -> Seq<Seq<char>> {
    arguments.map_values(|argument: String| argument@)
}

/// The arguments that send a fetcher through a proxy, if there is one.
pub open spec fn proxy_arguments(proxy: Option<Seq<char>>) -> Seq<Seq<char>> {
    match proxy {
        Some(address) => seq!["--proxy"@, address],
        None => Seq::empty(),
    }
}

/// The arguments with which a fetcher writes the captions of a video in one
/// language to a file and leaves the video itself.
pub open spec fn caption_arguments(
    proxy: Option<Seq<char>>,
    language: Seq<char>,
    output: Seq<char>,
    url: Seq<char>,
) -> Seq<Seq<char>> {
    proxy_arguments(proxy) + seq![
        "--skip-download"@,
        "--write-subs"@,
        "--sub-lang"@,
        language,
        "-o"@,
        output,
        url,
    ]
}

/// The arguments with which a fetcher lists the captions of a video.
pub open spec fn listing_arguments(proxy: Option<Seq<char>>, url: Seq<char>) -> Seq<Seq<char>> {
    proxy_arguments(proxy) + seq!["--list-subs"@, url]
}

/// The name of the file to which a fetcher writes captions in a language,
/// when it is told to write to `temp`.
pub open spec fn caption_file_name(language: Seq<char>) -> Seq<char> {
    "temp."@ + language + ".vtt"@
}

fn with_proxy(proxy: Option<&str>) -> (arguments: Vec<String>)
    ensures
        argument_views(arguments@) == proxy_arguments(
            match proxy {
                Some(address) => Some(address@),
                None => None,
            },
        ),
{
    let mut arguments: Vec<String> = Vec::new();
    match proxy {
        Some(address) => {
            arguments.push(String::from_str("--proxy"));
            arguments.push(String::from_str(address));
            assert(argument_views(arguments@) =~= seq!["--proxy"@, address@]);
        },
        None => {
            assert(argument_views(arguments@) =~= Seq::<Seq<char>>::empty());
        },
    }
    arguments
}

/// The arguments with which a fetcher writes the captions of a video in one
/// language to a file.
pub fn subtitle_arguments(proxy: Option<&str>, lang: &str, output: &str, url: &str) -> (arguments:
    Vec<String>)
    ensures
        argument_views(arguments@) == caption_arguments(
            match proxy {
                Some(address) => Some(address@),
                None => None,
            },
            lang@,
            output@,
            url@,
        ),
{
    let mut arguments: Vec<String> = with_proxy(proxy);
    let ghost front = argument_views(arguments@);
    arguments.push(String::from_str("--skip-download"));
    arguments.push(String::from_str("--write-subs"));
    arguments.push(String::from_str("--sub-lang"));
    arguments.push(String::from_str(lang));
    arguments.push(String::from_str("-o"));
    arguments.push(String::from_str(output));
    arguments.push(String::from_str(url));
    assert(argument_views(arguments@) =~= front + seq![
        "--skip-download"@,
        "--write-subs"@,
        "--sub-lang"@,
        lang@,
        "-o"@,
        output@,
        url@,
    ]);
    arguments
}

/// The arguments with which a fetcher lists the captions of a video.
pub fn list_arguments(proxy: Option<&str>, url: &str) -> (arguments: Vec<String>)
    ensures
        argument_views(arguments@) == listing_arguments(
            match proxy {
                Some(address) => Some(address@),
                None => None,
            },
            url@,
        ),
{
    let mut arguments: Vec<String> = with_proxy(proxy);
    let ghost front = argument_views(arguments@);
    arguments.push(String::from_str("--list-subs"));
    arguments.push(String::from_str(url));
    assert(argument_views(arguments@) =~= front + seq!["--list-subs"@, url@]);
    arguments
}

/// The name of the file to which a fetcher writes captions in a language.
pub fn subtitle_file_name(lang: &str) -> (name: String)
    ensures
        name@ == caption_file_name(lang@),
{
    let mut name: String = String::from_str("temp.");
    name.append(lang);
    name.append(".vtt");
    name
}

} // verus!
