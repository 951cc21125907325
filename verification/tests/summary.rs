use newscenter::gemini::{first_text, GeminiError};
use newscenter::prompts::{
    get_system_prompt, CHINESE, ENGLISH, FRENCH, GERMAN, JAPANESE, SPANISH, TRADITIONAL_CHINESE,
};
use newscenter::records::Audio;
use newscenter::settings::AppSettings;
use newscenter::summary::{stream_payloads, summary_message, uses_gemini};
use newscenter::text::{chars_of, split_all, text_of};

fn texts(parts: &[&str]) -> Vec<String> {
    parts.iter().map(|part| part.to_string()).collect()
}

#[test]
fn the_first_part_of_the_first_candidate_is_the_text() {
    let candidates = vec![texts(&["first", "second"]), texts(&["other"])];
    assert_eq!(first_text(&candidates), Ok("first".to_string()));
    assert_eq!(first_text(&vec![texts(&[""])]), Ok(String::new()));
}

#[test]
fn an_answer_without_text_is_an_error() {
    assert_eq!(first_text(&Vec::new()), Err(GeminiError::NoCandidates));
    assert_eq!(first_text(&vec![Vec::new(), texts(&["late"])]), Err(GeminiError::NoParts));
    assert_eq!(GeminiError::NoCandidates.message(), "No candidates found in Gemini response");
    assert_eq!(GeminiError::NoParts.message(), "No parts found in Gemini response");
}

#[test]
fn each_language_has_its_instructions() {
    assert_eq!(get_system_prompt("zh"), CHINESE);
    assert_eq!(get_system_prompt("zh-TW"), TRADITIONAL_CHINESE);
    assert_eq!(get_system_prompt("es"), SPANISH);
    assert_eq!(get_system_prompt("fr"), FRENCH);
    assert_eq!(get_system_prompt("de"), GERMAN);
    assert_eq!(get_system_prompt("ja"), JAPANESE);
    assert!(get_system_prompt("zh").contains("你是一名专注于分析视频内容的助手"));
    assert!(get_system_prompt("zh-TW").contains("你是一名專注於分析影片內容的助手"));
    assert!(get_system_prompt("es").contains("Eres un asistente especializado"));
    assert!(get_system_prompt("fr").contains("Vous êtes un assistant spécialisé"));
    assert!(get_system_prompt("de").contains("Du bist ein Assistent"));
    assert!(get_system_prompt("ja").contains("あなたは、ビデオコンテンツの分析に特化したアシスタントです"));
    let lengths: Vec<usize> = ["zh", "zh-TW", "es", "fr", "de", "ja", "en"]
        .iter()
        .map(|code| get_system_prompt(code).chars().count())
        .collect();
    assert_eq!(lengths, vec![872, 768, 1956, 1958, 2010, 957, 1713]);
}

#[test]
fn any_other_language_is_instructed_in_english() {
    for code in ["en", "auto", "", "ZH", "zh-tw", "zh ", "it", "de-AT"] {
        assert_eq!(get_system_prompt(code), ENGLISH);
    }
    assert!(ENGLISH.contains("You are an assistant specializing in analyzing video content."));
    assert!(ENGLISH.contains("## Short Summary:"));
    assert!(ENGLISH.ends_with("Here are the subtitles:\n        "));
}

#[test]
fn nothing_is_set_at_first() {
    let settings = AppSettings::default();
    assert_eq!(settings.api_key, "");
    assert_eq!(settings.ai_supplier_url, "");
    assert_eq!(settings.ai_model_name, "");
    assert_eq!(settings.whisper_model_name, "");
}

#[test]
fn a_stored_video_keeps_what_it_is_given() {
    let audio = Audio {
        id: 3,
        video_id: "FdeioVndUhs".to_string(),
        title: "A title".to_string(),
        duration: 754,
        upload_date: 1712345678901234,
        transcripts: None,
        summary: Some("short".to_string()),
        keywords: "one two".to_string(),
        timestamp: 1_700_000_000,
        thumbnail_url: "https://i.ytimg.com/vi/FdeioVndUhs/sddefault.jpg".to_string(),
    };
    assert_eq!(audio.clone(), audio);
    assert_eq!(audio.keywords, "one two");
}

#[test]
fn the_address_tells_the_service() {
    assert!(uses_gemini("https://generativelanguage.googleapis.com/v1beta/models/x:streamGenerateContent"));
    assert!(!uses_gemini("https://api.groq.com/openai/v1/chat/completions"));
    assert!(!uses_gemini("https://google-apis.example"));
    assert!(!uses_gemini(""));
}

#[test]
fn the_request_holds_description_and_captions() {
    assert_eq!(
        summary_message("about physics", "00:01 - dark energy\n"),
        "short description for the whole content: about physics. full subtitles: 00:01 - dark energy\n"
    );
    assert_eq!(
        summary_message("", ""),
        "short description for the whole content: . full subtitles: "
    );
}

#[test]
fn payloads_stand_between_the_marks() {
    assert_eq!(
        stream_payloads("data: {\"a\":1}\n\ndata: {\"b\":2}\n\ndata: [DONE]\n\n"),
        texts(&["{\"a\":1}", "{\"b\":2}"])
    );
    assert_eq!(stream_payloads("{\"a\":1}"), texts(&["{\"a\":1}"]));
    assert_eq!(stream_payloads(" head data: data: x data:y"), texts(&["head", "x data:y"]));
    assert_eq!(stream_payloads(""), Vec::<String>::new());
    assert_eq!(stream_payloads("data: \n data: [DONE] "), Vec::<String>::new());
    assert_eq!(stream_payloads("data: [DONE]x"), texts(&["[DONE]x"]));
}

#[test]
fn splitting_is_what_std_does() {
    for (text, pattern) in [
        ("", "data: "), ("data: ", "data: "), ("a", "data: "), ("xdata: ydata: ", "data: "),
        ("aaaa", "aa"), ("aaa", "aa"), ("a,b,,c", ","), (",", ","), ("abc", "abc"), ("ab", "abc"),
    ] {
        let parts: Vec<String> =
            split_all(&chars_of(text), &chars_of(pattern)).iter().map(|part| text_of(part)).collect();
        let expected: Vec<String> = text.split(pattern).map(|part| part.to_string()).collect();
        assert_eq!(parts, expected, "{:?} at {:?}", text, pattern);
    }
}

use newscenter::summary::summary_language;

#[test]
fn the_language_is_left_to_the_model_on_request() {
    assert_eq!(summary_language("fr".to_string(), false), "fr");
    assert_eq!(summary_language("fr".to_string(), true), "auto");
    assert_eq!(summary_language(String::new(), false), "");
}
