use newscenter::video::{extract_id, ClientInfo};

#[test]
fn extract_id_works() {
    let test_cases = vec![
        (
            "https://youtu.be/FdeioVndUhs",
            Some("FdeioVndUhs".to_string()),
        ), // Short YouTube URL
        (
            "https://www.youtube.com/watch?v=FdeioVndUhs",
            Some("FdeioVndUhs".to_string()),
        ), // Standard YouTube URL
        (
            "https://youtube.com/watch?v=FdeioVndUhs",
            Some("FdeioVndUhs".to_string()),
        ), // YouTube without 'www'
        (
            "https://www.youtube.com/v/FdeioVndUhs",
            Some("FdeioVndUhs".to_string()),
        ), // /v/ style URL
        (
            "https://www.youtube.com/watch?v=s78hvV3QLUE&ab_channel=LexFridman",
            Some("s78hvV3QLUE".to_string()),
        ), // /v/ style URL
        (
            "https://www.youtube.com/embed/FdeioVndUhs",
            Some("FdeioVndUhs".to_string()),
        ), // Embedded URL
        (
            "https://www.youtube.com/shorts/FdeioVndUhs",
            Some("FdeioVndUhs".to_string()),
        ), // Shorts URL
        (
            "https://youtu.be/FdeioVndUhs?t=30",
            Some("FdeioVndUhs".to_string()),
        ), // URL with timestamp
        (
            "https://www.youtube.com/watch?v=FdeioVndUhs&feature=share",
            Some("FdeioVndUhs".to_string()),
        ), // With additional params
        (
            "https://www.youtube.com/watch?v=FdeioVndUhs&list=PL123",
            Some("FdeioVndUhs".to_string()),
        ), // With playlist
        (
            "https://www.youtube.com/watch?list=PL123&v=FdeioVndUhs",
            Some("FdeioVndUhs".to_string()),
        ), // Playlist first
        ("https://invalid.url/FdeioVndUhs", None), // Invalid URL
        ("https://www.youtube.com/", None),        // Homepage
        ("https://youtu.be/", None),               // Invalid Short URL
    ];

    for (input, expected) in test_cases {
        let video_id = extract_id(input);
        assert_eq!(video_id, expected);
    }
}

#[test]
fn the_id_is_not_the_address() {
    let url = "https://youtu.be/FdeioVndUhs";
    assert_ne!(extract_id(url), Some(url.to_string()));
    assert_eq!(extract_id("v=a-b_c9"), Some("a-b_c9".to_string()));
    assert_eq!(extract_id(""), None);
}

#[test]
fn the_client_is_the_headset_player() {
    let client = ClientInfo::default();
    assert_eq!(client.client_name, "ANDROID_VR");
    assert_eq!(client.client_version, "1.60.19");
    assert_eq!(client.device_make, "Oculus");
    assert_eq!(client.device_model, "Quest 3");
    assert_eq!(client.os_name, "Android");
    assert_eq!(client.os_version, "12L");
    assert_eq!(client.android_sdk_version, "32");
}

use newscenter::video::{
    describe_video, pick_audio, pick_caption, thumbnail_url, AudioData, CaptionTrack,
    PlayerAnswer, StreamFormat, VideoError,
};

fn format(mime_type: &str, bitrate: u32, last_modified: &str, content_length: &str) -> StreamFormat {
    StreamFormat {
        mime_type: mime_type.to_string(),
        bitrate,
        url: format!("https://streams.example/{}/{}", mime_type, bitrate),
        content_length: content_length.to_string(),
        last_modified: last_modified.to_string(),
    }
}

fn track(vss_id: &str) -> CaptionTrack {
    CaptionTrack { base_url: format!("https://captions.example/{}", vss_id), vss_id: vss_id.to_string() }
}

fn answer(formats: Vec<StreamFormat>, tracks: Option<Vec<CaptionTrack>>) -> PlayerAnswer {
    PlayerAnswer {
        adaptive_formats: Some(formats),
        caption_tracks: tracks,
        title: "A title".to_string(),
        length_seconds: "754".to_string(),
        keywords: Some(vec!["one".to_string(), "two".to_string()]),
        short_description: Some("00:00 Start".to_string()),
    }
}

#[test]
fn the_leanest_audio_stream_is_taken() {
    let formats = vec![
        format("video/mp4; codecs=\"avc1\"", 10, "1", "1"),
        format("audio/mp4; codecs=\"mp4a\"", 130_000, "2", "2"),
        format("audio/webm; codecs=\"opus\"", 50_000, "3", "3"),
        format("audio/webm; codecs=\"opus\"", 50_000, "4", "4"),
        format("xaudio/webm", 5, "5", "5"),
        format("audio", 70_000, "6", "6"),
    ];
    assert_eq!(pick_audio(&formats), Some(2));
    assert_eq!(pick_audio(&formats[..2].to_vec()), Some(1));
    assert_eq!(pick_audio(&formats[..1].to_vec()), None);
    assert_eq!(pick_audio(&Vec::new()), None);
}

#[test]
fn english_captions_are_taken_before_others() {
    assert_eq!(pick_caption(&vec![track(".de"), track("a.en"), track(".en")]), Some(1));
    assert_eq!(pick_caption(&vec![track(".de"), track(".fr")]), Some(0));
    assert_eq!(pick_caption(&vec![track(".de")]), Some(0));
    assert_eq!(pick_caption(&vec![track(".en")]), Some(0));
    assert_eq!(pick_caption(&vec![track(".ven"), track(".en")]), Some(0));
    assert_eq!(pick_caption(&Vec::new()), None);
}

#[test]
fn a_picture_is_found_under_the_id() {
    assert_eq!(thumbnail_url("FdeioVndUhs"), "https://i.ytimg.com/vi/FdeioVndUhs/sddefault.jpg");
    assert_eq!(thumbnail_url(""), "https://i.ytimg.com/vi//sddefault.jpg");
}

#[test]
fn an_answer_describes_a_video() {
    let formats = vec![
        format("video/mp4", 10, "1", "1"),
        format("audio/mp4", 130_000, "1700000000000000", "x"),
        format("audio/webm", 50_000, "1712345678901234", "3456789"),
    ];
    let described = describe_video(
        "FdeioVndUhs".to_string(),
        answer(formats, Some(vec![track(".zh"), track("a.en")])),
    );
    assert_eq!(
        described,
        Ok(AudioData {
            video_id: "FdeioVndUhs".to_string(),
            title: "A title".to_string(),
            duration: 754,
            timestamp: 1712345678901234,
            keywords: Some(vec!["one".to_string(), "two".to_string()]),
            description: Some("00:00 Start".to_string()),
            caption_lang: Some("a.en".to_string()),
            caption_url: Some("https://captions.example/a.en".to_string()),
            audio_url: "https://streams.example/audio/webm/50000".to_string(),
            audio_filesize: 3456789,
            thumbnail_url: "https://i.ytimg.com/vi/FdeioVndUhs/sddefault.jpg".to_string(),
            mime_type: "audio/webm".to_string(),
        })
    );
}

#[test]
fn a_size_that_is_not_stated_counts_as_zero() {
    let formats = vec![format("audio/mp4", 130_000, "17", "unknown")];
    let data = describe_video("id".to_string(), answer(formats, None)).unwrap();
    assert_eq!(data.audio_filesize, 0);
    assert_eq!(data.timestamp, 17);
    assert_eq!(data.caption_lang, None);
    assert_eq!(data.caption_url, None);
}

#[test]
fn an_answer_that_lacks_something_describes_nothing() {
    let audio = || vec![format("audio/mp4", 1, "17", "5")];
    let mut none = answer(audio(), None);
    none.adaptive_formats = None;
    assert_eq!(describe_video("id".to_string(), none), Err(VideoError::NoAudio));
    assert_eq!(
        describe_video("id".to_string(), answer(vec![format("video/mp4", 1, "17", "5")], None)),
        Err(VideoError::NoAudio)
    );
    assert_eq!(
        describe_video("id".to_string(), answer(vec![format("audio/mp4", 1, "", "5")], None)),
        Err(VideoError::BadLastModified)
    );
    assert_eq!(
        describe_video("id".to_string(), answer(audio(), Some(Vec::new()))),
        Err(VideoError::NoCaptionTrack)
    );
    let mut long = answer(audio(), None);
    long.length_seconds = "12:34".to_string();
    assert_eq!(describe_video("id".to_string(), long), Err(VideoError::BadLength));
}

#[test]
fn the_first_thing_that_lacks_is_named() {
    let mut all = answer(vec![format("audio/mp4", 1, "soon", "5")], Some(Vec::new()));
    all.length_seconds = String::new();
    assert_eq!(describe_video("id".to_string(), all.clone()), Err(VideoError::BadLastModified));
    all.adaptive_formats = Some(vec![format("audio/mp4", 1, "1", "5")]);
    assert_eq!(describe_video("id".to_string(), all.clone()), Err(VideoError::NoCaptionTrack));
    all.caption_tracks = None;
    assert_eq!(describe_video("id".to_string(), all.clone()), Err(VideoError::BadLength));
    all.adaptive_formats = Some(Vec::new());
    assert_eq!(describe_video("id".to_string(), all), Err(VideoError::NoAudio));
}
