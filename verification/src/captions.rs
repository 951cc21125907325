//! Captions as a video's player hands them out: a document of `p` elements,
//! each with the time `t` at which its text is shown and the duration `d`
//! for which it stays, both in milliseconds.
//!
//! The document is read by the `quick-xml` crate. What it reads of a text is
//! not restated here: the contracts speak of it under the name
//! [`xml_tokens`], and what is made of the tokens is proved from there.

use vstd::prelude::*;
use vstd::string::*;
use crate::text::{
    chars_of,
    contains,
    contains_text,
    parse_decimal,
    parse_number,
    text_of,
    trim,
    trimmed,
};
use crate::video::{SubtitleEntry, SubtitleModel};
use quick_xml::events::Event;

verus! {

/// One item of a tag's attributes, as they are read in order: a key with its
/// value, or an item that is no attribute. The value is `None` where it
/// cannot be unescaped.
#[derive(Clone, Debug, PartialEq, Eq)]
pub enum XmlAttribute {
    Pair(Vec<u8>, Option<String>),
    Malformed,
}

/// One token of a document. The content of a text is `None` where it cannot
/// be unescaped. `Other` stands for what is neither a tag nor text: a
/// comment, a declaration, an empty element and the like. `Malformed` stands
/// for a place at which the document cannot be read.
#[derive(Clone, Debug, PartialEq, Eq)]
pub enum XmlToken {
    Start(Vec<u8>, Vec<XmlAttribute>),
    Text(Option<String>),
    End(Vec<u8>),
    Eof,
    Other,
    Malformed,
}

/// An attribute over sequences.
pub enum AttributeModel {
    Pair { key: Seq<u8>, value: Option<Seq<char>> },
    Malformed,
}

/// A token over sequences.
pub enum TokenModel {
    Start { name: Seq<u8>, attributes: Seq<AttributeModel> },
    Text { content: Option<Seq<char>> },
    End { name: Seq<u8> },
    Eof,
    Other,
    Malformed,
}

impl View for XmlAttribute {
    type V = AttributeModel;

    open spec fn view(&self) -> AttributeModel {
        match self {
            XmlAttribute::Pair(key, value) => AttributeModel::Pair {
                key: key@,
                value: match value {
                    Some(text) => Some(text@),
                    None => None,
                },
            },
            XmlAttribute::Malformed => AttributeModel::Malformed,
        }
    }
}

/// Some attributes as models.
pub open spec fn attribute_views(attributes: Seq<XmlAttribute>) -> Seq<AttributeModel> {
    attributes.map_values(|attribute: XmlAttribute| attribute@)
}

impl View for XmlToken {
    type V = TokenModel;

    open spec fn view(&self) -> TokenModel {
        match self {
            XmlToken::Start(name, attributes) => TokenModel::Start {
                name: name@,
                attributes: attribute_views(attributes@),
            },
            XmlToken::Text(content) => TokenModel::Text {
                content: match content {
                    Some(text) => Some(text@),
                    None => None,
                },
            },
            XmlToken::End(name) => TokenModel::End { name: name@ },
            XmlToken::Eof => TokenModel::Eof,
            XmlToken::Other => TokenModel::Other,
            XmlToken::Malformed => TokenModel::Malformed,
        }
    }
}

/// Why captions were not read.
#[derive(Clone, Copy, Debug, PartialEq, Eq, Structural)]
pub enum CaptionError {
    /// The document cannot be read as XML.
    Malformed,
    /// A `p` tag holds something that is no attribute.
    BadAttribute,
    /// The value of a `t` or `d` attribute cannot be unescaped.
    BadValue,
    /// The value of a `t` or `d` attribute is no number, or too large a one.
    BadNumber,
    /// A text cannot be unescaped.
    BadText,
}

/// The reader of the `quick-xml` crate.
#[verifier::external_type_specification]
#[verifier::external_body]
#[verifier::reject_recursive_types(R)]
pub struct ExReader<R>(quick_xml::Reader<R>);

/// The tokens that `quick_xml::Reader::read_event` hands out for a document,
/// read with `quick_xml::Reader::from_str`, up to and including the first
/// that ends the reading: the end of the document, or a place at which it
/// cannot be read.
pub uninterp spec fn xml_tokens(xml: Seq<char>) -> Seq<TokenModel>;

/// The tokens that a reader has yet to hand out, up to and including the
/// first that ends the reading.
pub uninterp spec fn pending(reader: quick_xml::Reader<&[u8]>) -> Seq<TokenModel>;

/// Whether a token ends the reading of a document.
pub open spec fn is_final(token: TokenModel) -> bool {
    token is Eof || token is Malformed
}

/// Whether the tokens are those of one reading: there is a last one, it ends
/// the reading, and none before it does.
pub open spec fn is_reading(tokens: Seq<TokenModel>) -> bool {
    &&& tokens.len() > 0
    &&& forall|i: int| 0 <= i < tokens.len() ==> (is_final(#[trigger] tokens[i]) <==> i
        == tokens.len() - 1)
}

/// Makes a reader of a document with `quick_xml::Reader::from_str`, which
/// leaves the white space of texts as it is. The reader has the document's
/// tokens to hand out, and every reading comes to an end.
#[verifier::external_body]
pub(crate) fn open_reader<'a>(xml: &'a str) -> (reader: quick_xml::Reader<&'a [u8]>)
    ensures
        pending(reader) == xml_tokens(xml@),
        is_reading(pending(reader)),
{
    quick_xml::Reader::from_str(xml)
}

/// Reads one token with `quick_xml::Reader::read_event`: the first of those
/// that the reader has yet to hand out, which leaves the others. Of a start
/// tag it gives the name as `BytesStart::name` has it and the items of
/// `BytesStart::attributes`, each value unescaped by
/// `Attribute::unescape_value`; of a text the content unescaped by
/// `BytesText::unescape`; of an end tag the name.
#[verifier::external_body]
pub(crate) fn next_token(reader: &mut quick_xml::Reader<&[u8]>) -> (token: XmlToken)
    requires
        pending(*old(reader)).len() > 0,
    ensures
        token@ == pending(*old(reader))[0],
        pending(*final(reader)) == pending(*old(reader)).drop_first(),
{
    match reader.read_event() {
        Ok(Event::Start(tag)) => XmlToken::Start(tag.name().0.to_vec(), tag.attributes().map(|item| match item {
            Ok(pair) => XmlAttribute::Pair(pair.key.0.to_vec(), pair.unescape_value().ok().map(String::from)),
            Err(_) => XmlAttribute::Malformed,
        }).collect()),
        Ok(Event::Text(text)) => XmlToken::Text(text.unescape().ok().map(String::from)),
        Ok(Event::End(tag)) => XmlToken::End(tag.name().0.to_vec()),
        Ok(Event::Eof) => XmlToken::Eof,
        Ok(_) => XmlToken::Other,
        Err(_) => XmlToken::Malformed,
    }
}

/// The name of the element that holds one line of captions: `p`.
pub open spec fn line_tag() -> Seq<u8> {
    seq![0x70u8]
}

/// The key of the attribute that holds a line's time: `t`.
pub open spec fn time_key() -> Seq<u8> {
    seq![0x74u8]
}

/// The key of the attribute that holds a line's duration: `d`.
pub open spec fn duration_key() -> Seq<u8> {
    seq![0x64u8]
}

/// The time and the duration of a line after its tag's attributes, read in
/// order, given what the two are before. A `t` sets the time and a `d` the
/// duration; other attributes are passed over. The reading fails at the
/// first item that is no attribute, and at the first `t` or `d` whose value
/// cannot be unescaped or states no number of its range.
pub open spec fn times_after(attributes: Seq<AttributeModel>, timestamp: int, duration: int) -> Result<
    (int, int),
    CaptionError,
>
    decreases attributes.len(),
{
    if attributes.len() == 0 {
        Ok((timestamp, duration))
    } else {
        match attributes[0] {
            AttributeModel::Malformed => Err(CaptionError::BadAttribute),
            AttributeModel::Pair { key, value } => if key == time_key() {
                match value {
                    None => Err(CaptionError::BadValue),
                    Some(text) => match parse_decimal(text, u64::MAX as int) {
                        None => Err(CaptionError::BadNumber),
                        Some(number) => times_after(attributes.drop_first(), number, duration),
                    },
                }
            } else if key == duration_key() {
                match value {
                    None => Err(CaptionError::BadValue),
                    Some(text) => match parse_decimal(text, u32::MAX as int) {
                        None => Err(CaptionError::BadNumber),
                        Some(number) => times_after(attributes.drop_first(), timestamp, number),
                    },
                }
            } else {
                times_after(attributes.drop_first(), timestamp, duration)
            },
        }
    }
}

/// How far the reading of captions has come: the lines that are complete,
/// the text since the last `p` tag, and the time and duration that were
/// stated last.
pub struct PlainState {
    pub entries: Seq<SubtitleModel>,
    pub text: Seq<char>,
    pub timestamp: int,
    pub duration: int,
}

/// The state in front of a document's first token.
pub open spec fn plain_start() -> PlainState {
    PlainState { entries: Seq::empty(), text: Seq::empty(), timestamp: 0, duration: 0 }
}

/// The state after one more token, or why the reading fails at it.
///
/// A `p` tag begins a line: the text starts anew, and the attributes set
/// time and duration where they state them. Every text is added to the
/// line. The end of a `p` completes the line with the text that has come
/// together, without the white space around it; if nothing is left of it,
/// there is no line. What else there is changes nothing.
pub open spec fn plain_step(state: PlainState, token: TokenModel) -> Result<
    PlainState,
    CaptionError,
> {
    match token {
        TokenModel::Start { name, attributes } => if name == line_tag() {
            match times_after(attributes, state.timestamp, state.duration) {
                Ok((timestamp, duration)) => Ok(
                    PlainState { text: Seq::empty(), timestamp, duration, ..state },
                ),
                Err(error) => Err(error),
            }
        } else {
            Ok(state)
        },
        TokenModel::Text { content } => match content {
            Some(text) => Ok(PlainState { text: state.text + text, ..state }),
            None => Err(CaptionError::BadText),
        },
        TokenModel::End { name } => if name == line_tag() && trimmed(state.text).len() > 0 {
            Ok(
                PlainState {
                    entries: state.entries.push(
                        SubtitleModel {
                            timestamp: state.timestamp,
                            duration: state.duration,
                            text: trimmed(state.text),
                        },
                    ),
                    ..state
                },
            )
        } else {
            Ok(state)
        },
        _ => Ok(state),
    }
}

/// The lines that the tokens of a document give, from a state on, or why
/// the reading fails.
pub open spec fn plain_run(state: PlainState, tokens: Seq<TokenModel>) -> Result<
    Seq<SubtitleModel>,
    CaptionError,
>
    decreases tokens.len(),
{
    if tokens.len() == 0 {
        Ok(state.entries)
    } else {
        match tokens[0] {
            TokenModel::Eof => Ok(state.entries),
            TokenModel::Malformed => Err(CaptionError::Malformed),
            _ => match plain_step(state, tokens[0]) {
                Ok(next) => plain_run(next, tokens.drop_first()),
                Err(error) => Err(error),
            },
        }
    }
}

/// How far the reading of captions that were made by a machine has come:
/// the lines that are complete, and the line that has begun, if one has.
pub struct AutoState {
    pub entries: Seq<SubtitleModel>,
    pub current: Option<SubtitleModel>,
}

/// The state in front of a document's first token.
pub open spec fn auto_start() -> AutoState {
    AutoState { entries: Seq::empty(), current: None }
}

/// The state after one more token, or why the reading fails at it.
///
/// A `p` tag begins a line with the time and duration that its attributes
/// state, zero where they state none, and no text. A text is added to the
/// line that has begun; where none has, it is passed over. The end of a `p`
/// completes the line that has begun, if it has any text.
pub open spec fn auto_step(state: AutoState, token: TokenModel) -> Result<AutoState, CaptionError> {
    match token {
        TokenModel::Start { name, attributes } => if name == line_tag() {
            match times_after(attributes, 0, 0) {
                Ok((timestamp, duration)) => Ok(
                    AutoState {
                        current: Some(SubtitleModel { timestamp, duration, text: Seq::empty() }),
                        ..state
                    },
                ),
                Err(error) => Err(error),
            }
        } else {
            Ok(state)
        },
        TokenModel::Text { content } => match state.current {
            Some(line) => match content {
                Some(text) => Ok(
                    AutoState {
                        current: Some(SubtitleModel { text: line.text + text, ..line }),
                        ..state
                    },
                ),
                None => Err(CaptionError::BadText),
            },
            None => Ok(state),
        },
        TokenModel::End { name } => if name == line_tag() {
            match state.current {
                Some(line) => if line.text.len() > 0 {
                    Ok(AutoState { entries: state.entries.push(line), current: None })
                } else {
                    Ok(AutoState { current: None, ..state })
                },
                None => Ok(state),
            }
        } else {
            Ok(state)
        },
        _ => Ok(state),
    }
}

/// The lines that the tokens of a document give, from a state on, or why
/// the reading fails.
pub open spec fn auto_run(state: AutoState, tokens: Seq<TokenModel>) -> Result<
    Seq<SubtitleModel>,
    CaptionError,
>
    decreases tokens.len(),
{
    if tokens.len() == 0 {
        Ok(state.entries)
    } else {
        match tokens[0] {
            TokenModel::Eof => Ok(state.entries),
            TokenModel::Malformed => Err(CaptionError::Malformed),
            _ => match auto_step(state, tokens[0]) {
                Ok(next) => auto_run(next, tokens.drop_first()),
                Err(error) => Err(error),
            },
        }
    }
}

/// Some lines as models.
pub open spec fn entry_views(entries: Seq<SubtitleEntry>) -> Seq<SubtitleModel> {
    entries.map_values(|entry: SubtitleEntry| entry@)
}

/// What a reading gave, over models.
pub open spec fn outcome_view(outcome: Result<Vec<SubtitleEntry>, CaptionError>) -> Result<
    Seq<SubtitleModel>,
    CaptionError,
> {
    match outcome {
        Ok(entries) => Ok(entry_views(entries@)),
        Err(error) => Err(error),
    }
}

/// What is left of a reading after a token that does not end it is a
/// reading again.
pub proof fn lemma_reading_goes_on(tokens: Seq<TokenModel>)
    requires
        is_reading(tokens),
        !is_final(tokens[0]),
    ensures
        is_reading(tokens.drop_first()),
{
    let rest = tokens.drop_first();
    assert(tokens.len() > 1);
    assert forall|i: int| 0 <= i < rest.len() implies (is_final(#[trigger] rest[i]) <==> i
        == rest.len() - 1) by {
        assert(rest[i] == tokens[i + 1]);
    }
}

fn is_name(name: &Vec<u8>, letter: u8) -> (same: bool)
    ensures
        same == (name@ == seq![letter]),
{
    if name.len() == 1 && name[0] == letter {
        assert(name@ =~= seq![letter]);
        true
    } else {
        if name.len() == 1 {
            assert(name@[0] != seq![letter][0]);
        }
        false
    }
}

fn number_of(value: &Option<String>, max: u64) -> (number: Result<u64, CaptionError>)
    ensures
        match value {
            None => number == Err::<u64, CaptionError>(CaptionError::BadValue),
            Some(text) => match parse_decimal(text@, max as int) {
                None => number == Err::<u64, CaptionError>(CaptionError::BadNumber),
                Some(stated) => number is Ok && number->Ok_0 == stated && stated <= max,
            },
        },
{
    match value {
        None => Err(CaptionError::BadValue),
        Some(text) => {
            let chars: Vec<char> = chars_of(text.as_str());
            match parse_number(&chars, max) {
                None => Err(CaptionError::BadNumber),
                Some(stated) => Ok(stated),
            }
        },
    }
}

/// Reads time and duration from the attributes of a `p` tag.
pub fn read_times(attributes: &Vec<XmlAttribute>, timestamp: u64, duration: u32) -> (times: Result<
    (u64, u32),
    CaptionError,
>)
    ensures
        times is Ok <==> times_after(
            attribute_views(attributes@),
            timestamp as int,
            duration as int,
        ) is Ok,
        times matches Ok((t, d)) ==> times_after(
            attribute_views(attributes@),
            timestamp as int,
            duration as int,
        ) == Ok::<(int, int), CaptionError>((t as int, d as int)),
        times matches Err(error) ==> times_after(
            attribute_views(attributes@),
            timestamp as int,
            duration as int,
        ) == Err::<(int, int), CaptionError>(error),
{
    let ghost all = attribute_views(attributes@);
    let mut t: u64 = timestamp;
    let mut d: u32 = duration;
    let mut at: usize = 0;
    proof {
        assert(all.skip(0) =~= all);
    }
    while at < attributes.len()
        invariant
            at <= attributes.len(),
            all == attribute_views(attributes@),
            times_after(all, timestamp as int, duration as int) == times_after(
                all.skip(at as int),
                t as int,
                d as int,
            ),
        decreases attributes.len() - at,
    {
        proof {
            assert(all.skip(at as int)[0] == attributes@[at as int]@);
            assert(all.skip(at as int).drop_first() =~= all.skip(at + 1));
        }
        match &attributes[at] {
            XmlAttribute::Malformed => {
                return Err(CaptionError::BadAttribute);
            },
            XmlAttribute::Pair(key, value) => {
                if is_name(key, 0x74) {
                    match number_of(value, u64::MAX) {
                        Ok(number) => {
                            t = number;
                        },
                        Err(error) => {
                            return Err(error);
                        },
                    }
                } else if is_name(key, 0x64) {
                    match number_of(value, 0xffff_ffff) {
                        Ok(number) => {
                            d = number as u32;
                        },
                        Err(error) => {
                            return Err(error);
                        },
                    }
                }
            },
        }
        at = at + 1;
    }
    Ok((t, d))
}

/// Reads the captions that a person wrote.
pub fn parse_xml(xml: &str) -> (parsed: Result<Vec<SubtitleEntry>, CaptionError>)
    ensures
        outcome_view(parsed) == plain_run(plain_start(), xml_tokens(xml@)),
{
    let mut reader = open_reader(xml);
    let mut entries: Vec<SubtitleEntry> = Vec::new();
    let mut text: String = String::new();
    let mut timestamp: u64 = 0;
    let mut duration: u32 = 0;
    proof {
        assert(entry_views(entries@) =~= Seq::<SubtitleModel>::empty());
    }
    loop
        invariant
            is_reading(pending(reader)),
            plain_run(plain_start(), xml_tokens(xml@)) == plain_run(
                PlainState {
                    entries: entry_views(entries@),
                    text: text@,
                    timestamp: timestamp as int,
                    duration: duration as int,
                },
                pending(reader),
            ),
        decreases pending(reader).len(),
    {
        let ghost before = pending(reader);
        let token: XmlToken = next_token(&mut reader);
        proof {
            if !is_final(before[0]) {
                lemma_reading_goes_on(before);
            }
        }
        match token {
            XmlToken::Eof => {
                return Ok(entries);
            },
            XmlToken::Malformed => {
                return Err(CaptionError::Malformed);
            },
            XmlToken::Start(name, attributes) => {
                if is_name(&name, 0x70) {
                    match read_times(&attributes, timestamp, duration) {
                        Ok((t, d)) => {
                            text = String::new();
                            timestamp = t;
                            duration = d;
                        },
                        Err(error) => {
                            return Err(error);
                        },
                    }
                }
            },
            XmlToken::Text(content) => {
                match content {
                    Some(more) => {
                        text.append(more.as_str());
                    },
                    None => {
                        return Err(CaptionError::BadText);
                    },
                }
            },
            XmlToken::End(name) => {
                if is_name(&name, 0x70) {
                    let kept: Vec<char> = trim(&chars_of(text.as_str()));
                    if kept.len() > 0 {
                        let ghost lines = entry_views(entries@);
                        let entry = SubtitleEntry { timestamp, duration, text: text_of(&kept) };
                        entries.push(entry);
                        proof {
                            assert(entry_views(entries@) =~= lines.push(entry@));
                        }
                    }
                }
            },
            XmlToken::Other => {},
        }
    }
}

/// Reads the captions that a machine made.
pub fn parse_xml_with_auto(xml_string: &str) -> (parsed: Result<Vec<SubtitleEntry>, CaptionError>)
    ensures
        outcome_view(parsed) == auto_run(auto_start(), xml_tokens(xml_string@)),
{
    let mut reader = open_reader(xml_string);
    let mut entries: Vec<SubtitleEntry> = Vec::new();
    let mut current: Option<SubtitleEntry> = None;
    proof {
        assert(entry_views(entries@) =~= Seq::<SubtitleModel>::empty());
    }
    loop
        invariant
            is_reading(pending(reader)),
            auto_run(auto_start(), xml_tokens(xml_string@)) == auto_run(
                AutoState {
                    entries: entry_views(entries@),
                    current: match current {
                        Some(line) => Some(line@),
                        None => None,
                    },
                },
                pending(reader),
            ),
        decreases pending(reader).len(),
    {
        let ghost before = pending(reader);
        let token: XmlToken = next_token(&mut reader);
        proof {
            if !is_final(before[0]) {
                lemma_reading_goes_on(before);
            }
        }
        match token {
            XmlToken::Eof => {
                return Ok(entries);
            },
            XmlToken::Malformed => {
                return Err(CaptionError::Malformed);
            },
            XmlToken::Start(name, attributes) => {
                if is_name(&name, 0x70) {
                    match read_times(&attributes, 0, 0) {
                        Ok((timestamp, duration)) => {
                            current = Some(
                                SubtitleEntry { timestamp, duration, text: String::new() },
                            );
                        },
                        Err(error) => {
                            return Err(error);
                        },
                    }
                }
            },
            XmlToken::Text(content) => {
                match current {
                    Some(line) => {
                        match content {
                            Some(more) => {
                                let mut text: String = line.text;
                                text.append(more.as_str());
                                current = Some(
                                    SubtitleEntry {
                                        timestamp: line.timestamp,
                                        duration: line.duration,
                                        text,
                                    },
                                );
                            },
                            None => {
                                return Err(CaptionError::BadText);
                            },
                        }
                    },
                    None => {
                        current = None;
                    },
                }
            },
            XmlToken::End(name) => {
                if is_name(&name, 0x70) {
                    match current {
                        Some(line) => {
                            if line.text.as_str().unicode_len() > 0 {
                                let ghost lines = entry_views(entries@);
                                entries.push(line);
                                proof {
                                    assert(entry_views(entries@) =~= lines.push(line@));
                                }
                            }
                        },
                        None => {},
                    }
                    current = None;
                }
            },
            XmlToken::Other => {},
        }
    }
}

/// Whether captions in the language with this code were made by a machine:
/// the code holds `a.`.
pub open spec fn is_automatic(language: Seq<char>) -> bool {
    contains_text(language, "a."@)
}

/// Reads the captions of a video, as a person wrote them or as a machine
/// made them, whichever the code of their language says.
pub fn parse_captions(xml: &str, caption_lang: &str) -> (parsed: Result<
    Vec<SubtitleEntry>,
    CaptionError,
>)
    ensures
        outcome_view(parsed) == if is_automatic(caption_lang@) {
            auto_run(auto_start(), xml_tokens(xml@))
        } else {
            plain_run(plain_start(), xml_tokens(xml@))
        },
{
    let language: Vec<char> = chars_of(caption_lang);
    let mark: Vec<char> = chars_of("a.");
    if contains(&language, &mark) {
        parse_xml_with_auto(xml)
    } else {
        parse_xml(xml)
    }
}

} // verus!
