//! What is known of a video: how its address names it, what a player is told
//! about the client that asks for it, and what is kept of the answer.

use vstd::prelude::*;
use vstd::string::*;
use crate::pattern::{first_match, group, group_text, match_view, pattern_compiles, search};
use crate::text::{
    begins_with,
    chars_of,
    contains,
    contains_text,
    parse_decimal,
    parse_number,
    starts_with,
};

verus! {

/// The client that a request for a video's streams claims to come from.
#[derive(Clone, Debug, PartialEq, Eq)]
pub struct ClientInfo {
    pub client_name: String,
    pub client_version: String,
    pub device_make: String,
    pub device_model: String,
    pub os_name: String,
    pub os_version: String,
    pub android_sdk_version: String,
}

/// What is kept of a video: its id and title, its length in seconds, when
/// its audio was last changed, the audio stream that was chosen, and the
/// captions, if it has any.
#[derive(Clone, Debug, PartialEq, Eq)]
pub struct AudioData {
    pub video_id: String,
    pub title: String,
    pub duration: u64,
    pub timestamp: u64,
    pub keywords: Option<Vec<String>>,
    pub description: Option<String>,
    pub caption_lang: Option<String>,
    pub caption_url: Option<String>,
    pub audio_url: String,
    pub audio_filesize: u64,
    pub thumbnail_url: String,
    pub mime_type: String,
}

/// One line of captions: when it is shown and for how long, both in
/// milliseconds, and what it says.
#[derive(Clone, Debug, PartialEq, Eq)]
pub struct SubtitleEntry {
    pub timestamp: u64,
    pub duration: u32,
    pub text: String,
}

/// A line of captions over unbounded integers and sequences.
pub struct SubtitleModel {
    pub timestamp: int,
    pub duration: int,
    pub text: Seq<char>,
}

impl View for SubtitleEntry {
    type V = SubtitleModel;

    open spec fn view(&self) -> SubtitleModel {
        SubtitleModel {
            timestamp: self.timestamp as int,
            duration: self.duration as int,
            text: self.text@,
        }
    }
}

impl ClientInfo {
    /// The client that requests are made as: the player of a headset.
    pub fn default() -> (client: Self)
        ensures
            client.client_name@ == "ANDROID_VR"@,
            client.client_version@ == "1.60.19"@,
            client.device_make@ == "Oculus"@,
            client.device_model@ == "Quest 3"@,
            client.os_name@ == "Android"@,
            client.os_version@ == "12L"@,
            client.android_sdk_version@ == "32"@,
    {
        Self {
            client_name: String::from_str("ANDROID_VR"),
            client_version: String::from_str("1.60.19"),
            device_make: String::from_str("Oculus"),
            device_model: String::from_str("Quest 3"),
            os_name: String::from_str("Android"),
            os_version: String::from_str("12L"),
            android_sdk_version: String::from_str("32"),
        }
    }
}

/// The pattern that finds a video's id in an address: one of the markers
/// `v=`, `/v/`, `youtu.be/`, `/embed/` and `/shorts/`, and behind it the id,
/// a run of letters, digits, underscores and hyphens.
pub const ID_PATTERN: &'static str = r"(?:v=|\/v\/|youtu\.be\/|\/embed\/|\/shorts\/)([A-Za-z0-9_-]+)";

/// The id that an address names: what the first group of the leftmost match
/// of [`ID_PATTERN`] holds.
pub open spec fn video_id_in(url: Seq<char>) -> Option<Seq<char>> {
    if pattern_compiles(ID_PATTERN@) {
        group_text(first_match(ID_PATTERN@, url), 1)
    } else {
        None
    }
}

/// The id in a match of [`ID_PATTERN`]: what its first group holds.
pub fn id_from_match(found: &Option<Vec<Option<String>>>) -> (id: Option<String>)
    ensures
        id is Some <==> group_text(match_view(*found), 1) is Some,
        id matches Some(text) ==> group_text(match_view(*found), 1) == Some(text@),
{
    match group(found, 1) {
        Some(part) => Some(part.clone()),
        None => None,
    }
}

/// The id of the video that an address names, or `None` where it names none.
pub fn extract_id(url: &str) -> (id: Option<String>)
    ensures
        id is Some <==> video_id_in(url@) is Some,
        id matches Some(text) ==> video_id_in(url@) == Some(text@),
{
    match search(ID_PATTERN, url) {
        Ok(found) => id_from_match(&found),
        Err(_) => None,
    }
}

/// One stream that a player offers: its kind, how many bits a second it
/// takes, where it is had, how many bytes it has, and when it was last
/// changed. The last two are numerals as the player writes them.
#[derive(Clone, Debug, PartialEq, Eq)]
pub struct StreamFormat {
    pub mime_type: String,
    pub bitrate: u32,
    pub url: String,
    pub content_length: String,
    pub last_modified: String,
}

/// One track of captions that a player offers: where it is had, and the code
/// of its language.
#[derive(Clone, Debug, PartialEq, Eq)]
pub struct CaptionTrack {
    pub base_url: String,
    pub vss_id: String,
}

/// What a player answers about a video, as far as it is used.
#[derive(Clone, Debug, PartialEq, Eq)]
pub struct PlayerAnswer {
    pub adaptive_formats: Option<Vec<StreamFormat>>,
    pub caption_tracks: Option<Vec<CaptionTrack>>,
    pub title: String,
    pub length_seconds: String,
    pub keywords: Option<Vec<String>>,
    pub short_description: Option<String>,
}

/// Why a player's answer does not describe a video.
#[derive(Clone, Copy, Debug, PartialEq, Eq, Structural)]
pub enum VideoError {
    /// The player offers no audio stream.
    NoAudio,
    /// The chosen stream does not say when it was last changed.
    BadLastModified,
    /// The player names captions and offers no track.
    NoCaptionTrack,
    /// The player does not say how long the video is.
    BadLength,
}

/// Whether a stream is audio: its kind begins with `audio`.
pub open spec fn is_audio(format: StreamFormat) -> bool {
    begins_with(format.mime_type@, "audio"@)
}

/// Whether the stream at `at` is the one to take: it is audio, no audio
/// stream takes fewer bits a second, and none in front of it takes as few.
pub open spec fn is_chosen_audio(formats: Seq<StreamFormat>, at: int) -> bool {
    &&& 0 <= at < formats.len()
    &&& is_audio(formats[at])
    &&& forall|i: int|
        0 <= i < formats.len() && is_audio(#[trigger] formats[i]) ==> formats[at].bitrate
            <= formats[i].bitrate
    &&& forall|i: int|
        0 <= i < at && is_audio(#[trigger] formats[i]) ==> formats[at].bitrate
            < formats[i].bitrate
}

/// Whether a track is in English: the code of its language holds `en`.
pub open spec fn is_english(track: CaptionTrack) -> bool {
    contains_text(track.vss_id@, "en"@)
}

/// Whether the track at `at` is the one to take: the first that is in
/// English, or the first of all where none is; where there is one track
/// only, that one.
pub open spec fn is_chosen_track(tracks: Seq<CaptionTrack>, at: int) -> bool {
    &&& 0 <= at < tracks.len()
    &&& forall|i: int| 0 <= i < at ==> !is_english(#[trigger] tracks[i])
    &&& tracks.len() > 1 && is_english(tracks[at]) || at == 0 && (tracks.len() == 1
        || forall|i: int| 0 <= i < tracks.len() ==> !is_english(#[trigger] tracks[i]))
}

/// The address of a video's picture.
pub open spec fn thumbnail_of(video_id: Seq<char>) -> Seq<char> {
    "https://i.ytimg.com/vi/"@ + video_id + "/sddefault.jpg"@
}

/// The number that a numeral states, if it states one that is a `u64`.
pub open spec fn stated_number(numeral: Seq<char>) -> Option<int> {
    parse_decimal(numeral, u64::MAX as int)
}

/// Whether a player offers an audio stream.
pub open spec fn has_audio(answer: PlayerAnswer) -> bool {
    answer.adaptive_formats matches Some(formats) && exists|i: int|
        0 <= i < formats.len() && is_audio(#[trigger] formats[i])
}

/// Whether the audio stream to take says when it was last changed.
pub open spec fn audio_is_dated(answer: PlayerAnswer) -> bool {
    answer.adaptive_formats matches Some(formats) && exists|at: int|
        #[trigger] is_chosen_audio(formats@, at) && stated_number(formats[at].last_modified@)
            is Some
}

/// Why a player's answer does not describe a video, if it does not: the
/// first of the four reasons that holds, in the order in which
/// [`VideoError`] lists them.
pub open spec fn refusal(answer: PlayerAnswer) -> Option<VideoError> {
    if !has_audio(answer) {
        Some(VideoError::NoAudio)
    } else if !audio_is_dated(answer) {
        Some(VideoError::BadLastModified)
    } else if answer.caption_tracks matches Some(tracks) && tracks.len() == 0 {
        Some(VideoError::NoCaptionTrack)
    } else if stated_number(answer.length_seconds@) is None {
        Some(VideoError::BadLength)
    } else {
        None
    }
}

/// There is one audio stream to take at most.
pub proof fn lemma_chosen_audio_is_unique(formats: Seq<StreamFormat>, first: int, second: int)
    requires
        is_chosen_audio(formats, first),
        is_chosen_audio(formats, second),
    ensures
        first == second,
{
    if first < second {
        assert(is_audio(formats[first]));
    } else if second < first {
        assert(is_audio(formats[second]));
    }
}

/// Chooses the audio stream that takes the fewest bits a second; of several
/// such streams, the first.
pub fn pick_audio(formats: &Vec<StreamFormat>) -> (pick: Option<usize>)
    ensures
        pick matches Some(at) ==> is_chosen_audio(formats@, at as int),
        pick is None ==> forall|i: int| 0 <= i < formats.len() ==> !is_audio(#[trigger] formats[i]),
{
    let marker: Vec<char> = chars_of("audio");
    let mut pick: Option<usize> = None;
    let mut at: usize = 0;
    while at < formats.len()
        invariant
            at <= formats.len(),
            marker@ == "audio"@,
            pick matches Some(best) ==> best < at && is_chosen_audio(
                formats@.take(at as int),
                best as int,
            ),
            pick is None ==> forall|i: int| 0 <= i < at ==> !is_audio(#[trigger] formats[i]),
        decreases formats.len() - at,
    {
        let kind: Vec<char> = chars_of(formats[at].mime_type.as_str());
        let audio: bool = starts_with(&kind, &marker);
        let ghost head = formats@.take(at as int);
        let ghost more = formats@.take(at + 1);
        proof {
            assert(forall|i: int| 0 <= i < at ==> head[i] == more[i]);
            assert(more[at as int] == formats@[at as int]);
        }
        if audio {
            match pick {
                Some(best) => {
                    if formats[at].bitrate < formats[best].bitrate {
                        pick = Some(at);
                        proof {
                            assert forall|i: int|
                                0 <= i < more.len() && is_audio(
                                    #[trigger] more[i],
                                ) implies more[at as int].bitrate <= more[i].bitrate by {
                                if i < at {
                                    assert(is_audio(head[i]));
                                }
                            }
                            assert forall|i: int|
                                0 <= i < at && is_audio(
                                    #[trigger] more[i],
                                ) implies more[at as int].bitrate < more[i].bitrate by {
                                assert(is_audio(head[i]));
                            }
                        }
                    } else {
                        proof {
                            assert forall|i: int|
                                0 <= i < more.len() && is_audio(
                                    #[trigger] more[i],
                                ) implies more[best as int].bitrate <= more[i].bitrate by {
                                if i < at {
                                    assert(is_audio(head[i]));
                                }
                            }
                            assert forall|i: int|
                                0 <= i < best && is_audio(
                                    #[trigger] more[i],
                                ) implies more[best as int].bitrate < more[i].bitrate by {
                                assert(is_audio(head[i]));
                            }
                        }
                    }
                },
                None => {
                    pick = Some(at);
                },
            }
        } else {
            proof {
                match pick {
                    Some(best) => {
                        assert forall|i: int|
                            0 <= i < more.len() && is_audio(
                                #[trigger] more[i],
                            ) implies more[best as int].bitrate <= more[i].bitrate by {
                            assert(is_audio(head[i]));
                        }
                        assert forall|i: int|
                            0 <= i < best && is_audio(
                                #[trigger] more[i],
                            ) implies more[best as int].bitrate < more[i].bitrate by {
                            assert(is_audio(head[i]));
                        }
                    },
                    None => {},
                }
            }
        }
        at = at + 1;
    }
    proof {
        assert(formats@.take(at as int) =~= formats@);
    }
    pick
}

/// Chooses the track of captions: the first in English where there are
/// several, else the first; none where there is none.
pub fn pick_caption(tracks: &Vec<CaptionTrack>) -> (pick: Option<usize>)
    ensures
        pick is Some <==> tracks.len() > 0,
        pick matches Some(at) ==> is_chosen_track(tracks@, at as int),
{
    if tracks.len() == 0 {
        return None;
    }
    if tracks.len() == 1 {
        return Some(0);
    }
    let marker: Vec<char> = chars_of("en");
    let mut at: usize = 0;
    while at < tracks.len()
        invariant
            at <= tracks.len(),
            tracks.len() > 1,
            marker@ == "en"@,
            forall|i: int| 0 <= i < at ==> !is_english(#[trigger] tracks[i]),
        decreases tracks.len() - at,
    {
        let code: Vec<char> = chars_of(tracks[at].vss_id.as_str());
        if contains(&code, &marker) {
            return Some(at);
        }
        at = at + 1;
    }
    Some(0)
}

/// The address of a video's picture.
pub fn thumbnail_url(video_id: &str) -> (url: String)
    ensures
        url@ == thumbnail_of(video_id@),
{
    let mut url: String = String::from_str("https://i.ytimg.com/vi/");
    url.append(video_id);
    url.append("/sddefault.jpg");
    url
}

fn number_in(numeral: &String) -> (number: Option<u64>)
    ensures
        number is Some <==> stated_number(numeral@) is Some,
        number matches Some(value) ==> stated_number(numeral@) == Some(value as int),
{
    let chars: Vec<char> = chars_of(numeral.as_str());
    parse_number(&chars, u64::MAX)
}

/// What is kept of a video, given its id and what a player answers about
/// it.
///
/// The audio stream is the one that [`pick_audio`] chooses; its size counts
/// as zero where the player does not state it. The captions are those that
/// [`pick_caption`] chooses, where the player names captions at all.
pub fn describe_video(video_id: String, answer: PlayerAnswer) -> (described: Result<
    AudioData,
    VideoError,
>)
    ensures
        described matches Ok(data) ==> {
            let formats = answer.adaptive_formats->Some_0@;
            &&& answer.adaptive_formats is Some
            &&& exists|at: int|
                {
                    &&& #[trigger] is_chosen_audio(formats, at)
                    &&& data.mime_type@ == formats[at].mime_type@
                    &&& data.audio_url@ == formats[at].url@
                    &&& stated_number(formats[at].last_modified@) == Some(data.timestamp as int)
                    &&& data.audio_filesize == match stated_number(formats[at].content_length@) {
                        Some(size) => size,
                        None => 0,
                    }
                }
            &&& match answer.caption_tracks {
                Some(tracks) => exists|at: int|
                    {
                        &&& #[trigger] is_chosen_track(tracks@, at)
                        &&& data.caption_url matches Some(url) && url@ == tracks@[at].base_url@
                        &&& data.caption_lang matches Some(code) && code@ == tracks@[at].vss_id@
                    },
                None => data.caption_url is None && data.caption_lang is None,
            }
            &&& stated_number(answer.length_seconds@) == Some(data.duration as int)
            &&& data.video_id == video_id
            &&& data.title == answer.title
            &&& data.keywords == answer.keywords
            &&& data.description == answer.short_description
            &&& data.thumbnail_url@ == thumbnail_of(video_id@)
        },
        match refusal(answer) {
            Some(error) => described == Err::<AudioData, VideoError>(error),
            None => described is Ok,
        },
{
    let formats: &Vec<StreamFormat> = match &answer.adaptive_formats {
        Some(formats) => formats,
        None => {
            return Err(VideoError::NoAudio);
        },
    };
    let chosen: usize = match pick_audio(formats) {
        Some(at) => at,
        None => {
            return Err(VideoError::NoAudio);
        },
    };
    let format: &StreamFormat = &formats[chosen];
    proof {
        assert(is_audio(formats@[chosen as int]));
        assert forall|at: int| #[trigger] is_chosen_audio(formats@, at) implies at == chosen by {
            lemma_chosen_audio_is_unique(formats@, at, chosen as int);
        }
    }
    let timestamp: u64 = match number_in(&format.last_modified) {
        Some(number) => number,
        None => {
            return Err(VideoError::BadLastModified);
        },
    };
    let audio_filesize: u64 = match number_in(&format.content_length) {
        Some(number) => number,
        None => 0,
    };
    let mut caption_url: Option<String> = None;
    let mut caption_lang: Option<String> = None;
    match &answer.caption_tracks {
        Some(tracks) => {
            match pick_caption(tracks) {
                Some(at) => {
                    caption_url = Some(tracks[at].base_url.clone());
                    caption_lang = Some(tracks[at].vss_id.clone());
                },
                None => {
                    return Err(VideoError::NoCaptionTrack);
                },
            }
        },
        None => {},
    }
    let duration: u64 = match number_in(&answer.length_seconds) {
        Some(number) => number,
        None => {
            return Err(VideoError::BadLength);
        },
    };
    let thumbnail_url: String = thumbnail_url(video_id.as_str());
    let mime_type: String = format.mime_type.clone();
    let audio_url: String = format.url.clone();
    Ok(
        AudioData {
            video_id,
            title: answer.title,
            duration,
            timestamp,
            keywords: answer.keywords,
            description: answer.short_description,
            caption_lang,
            caption_url,
            audio_url,
            audio_filesize,
            thumbnail_url,
            mime_type,
        },
    )
}

} // verus!
