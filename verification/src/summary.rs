//! Asking a model for a summary: which kind of service an address belongs
//! to, what the model is asked, and what is taken from the pieces in which
//! its answer arrives.

use vstd::prelude::*;
use vstd::string::*;
use crate::text::{
    chars_of,
    contains,
    contains_text,
    parts_of,
    same_chars,
    split_all,
    text_of,
    trim,
    trimmed,
};

verus! {

/// Whether an address belongs to a service of Gemini models: it holds
/// `googleapis`.
pub open spec fn is_gemini_address(api_url: Seq<char>) -> bool {
    contains_text(api_url, "googleapis"@)
}

/// Whether an address belongs to a service of Gemini models.
pub fn uses_gemini(api_url: &str) -> (gemini: bool)
    ensures
        gemini == is_gemini_address(api_url@),
{
    let address: Vec<char> = chars_of(api_url);
    let marker: Vec<char> = chars_of("googleapis");
    contains(&address, &marker)
}

/// The code of the language in which a summary is asked for: the given one,
/// or `auto` where the choice is left to the model.
pub fn summary_language(language: String, auto: bool) -> (code: String)
    ensures
        code@ == if auto {
            "auto"@
        } else {
            language@
        },
{
    if auto {
        String::from_str("auto")
    } else {
        language
    }
}

/// What a model is asked to sum up: the description of a video and its
/// captions.
pub open spec fn request_text(description: Seq<char>, subtitles: Seq<char>) -> Seq<char> {
    "short description for the whole content: "@ + description + ". full subtitles: "@
        + subtitles
}

/// What a model is asked to sum up.
pub fn summary_message(description: &str, subtitles: &str) -> (message: String)
    ensures
        message@ == request_text(description@, subtitles@),
{
    let mut message: String = String::from_str("short description for the whole content: ");
    message.append(description);
    message.append(". full subtitles: ");
    message.append(subtitles);
    message
}

/// Whether a part of a piece is a payload: without the white space around
/// it, it is neither empty nor the mark of the end, `[DONE]`.
pub open spec fn is_payload(part: Seq<char>) -> bool {
    trimmed(part).len() > 0 && trimmed(part) != "[DONE]"@
}

/// The payloads among some parts, each without the white space around it.
pub open spec fn payloads_among(parts: Seq<Seq<char>>) -> Seq<Seq<char>>
    decreases parts.len(),
{
    if parts.len() == 0 {
        Seq::empty()
    } else if is_payload(parts.last()) {
        payloads_among(parts.drop_last()).push(trimmed(parts.last()))
    } else {
        payloads_among(parts.drop_last())
    }
}

/// The payloads in one piece of an answer: what stands between the marks
/// `data: `, without the white space around it, but for what is empty and
/// for the mark of the end.
pub open spec fn payloads_of(piece: Seq<char>) -> Seq<Seq<char>> {
    payloads_among(parts_of(piece, "data: "@))
}

/// Some texts as sequences of characters.
pub open spec fn text_views(texts: Seq<String>) -> Seq<Seq<char>> {
    texts.map_values(|text: String| text@)
}

/// The payloads in one piece of an answer.
pub fn stream_payloads(piece: &str) -> (payloads: Vec<String>)
    ensures
        text_views(payloads@) == payloads_of(piece@),
{
    proof {
        reveal_strlit("data: ");
    }
    let chars: Vec<char> = chars_of(piece);
    let mark: Vec<char> = chars_of("data: ");
    let done: Vec<char> = chars_of("[DONE]");
    let parts: Vec<Vec<char>> = split_all(&chars, &mark);
    let ghost all = parts_of(piece@, "data: "@);
    assert(parts.len() == all.len());
    assert(forall|i: int| 0 <= i < parts.len() ==> (#[trigger] parts[i])@ == all[i]);
    let mut payloads: Vec<String> = Vec::new();
    let mut at: usize = 0;
    proof {
        assert(text_views(payloads@) =~= Seq::<Seq<char>>::empty());
    }
    while at < parts.len()
        invariant
            at <= parts.len() == all.len(),
            forall|i: int| 0 <= i < parts.len() ==> (#[trigger] parts[i])@ == all[i],
            done@ == "[DONE]"@,
            text_views(payloads@) == payloads_among(all.take(at as int)),
        decreases parts.len() - at,
    {
        let kept: Vec<char> = trim(&parts[at]);
        let text: String = text_of(&kept);
        let is_done: bool = same_chars(&kept, &done);
        proof {
            assert(all.take(at + 1).drop_last() =~= all.take(at as int));
            assert(all.take(at + 1).last() == all[at as int]);
        }
        if kept.len() > 0 && !is_done {
            let ghost before = text_views(payloads@);
            payloads.push(text);
            proof {
                assert(text_views(payloads@) =~= before.push(text@));
            }
        }
        at = at + 1;
    }
    proof {
        assert(all.take(at as int) =~= all);
    }
    payloads
}

} // verus!
