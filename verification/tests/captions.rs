use newscenter::captions::{
    parse_captions, parse_xml, parse_xml_with_auto, read_times, CaptionError, XmlAttribute,
};
use newscenter::video::SubtitleEntry;

fn entry(timestamp: u64, duration: u32, text: &str) -> SubtitleEntry {
    SubtitleEntry { timestamp, duration, text: text.to_string() }
}

fn pair(key: &str, value: &str) -> XmlAttribute {
    XmlAttribute::Pair(key.as_bytes().to_vec(), Some(value.to_string()))
}

#[test]
fn parse_xml_works() {
    let xml = r#"
            <?xml version="1.0" encoding="utf-8" ?><timedtext format="3">
            <body>
            <p t="80" d="7520">我们生活在弦理论描述的错误世界中。从未有物理学家</p>
            <p t="7600" d="5160">因弦理论获得过大奖。我可以绝对肯定地告诉你，这不是</p>
            <p t="12760" d="9200">我们生活的现实世界。所以我们需要重新开始。 弦理论创始人之一、斯坦福大学理论物理学教授</p>
            <p t="21960" d="4800">伦纳德·苏斯金德 (Leonard Susskind) 做出了一项开创性的揭露，</p>
            <p t="26760" d="7480">他做出了令人震惊的承认。弦理论失败了，许多物理学家不知道</p>
            <p t="34240" d="5440">该怎么办。他们很害怕。他们可能找不到工作。曾经承诺统一物理学的理论</p>
            <p t="39680" d="7560">却产生了 10 到 500 种不同的可能解决方案或真空状态。</p>
            <p t="47240" d="5200">一些理论家认为，每个数学解决方案都对应一个物理现实，即</p>
            </body>
            </timedtext>
        "#;
    let result = parse_xml(&xml);
    assert!(result.is_ok());
    let subtitles = result.unwrap();
    assert_eq!(subtitles.len(), 8);
    assert_eq!(subtitles[0].timestamp, 80);
    assert_eq!(subtitles[subtitles.len() - 1].duration, 5200);
}

#[test]
fn parse_xml_auto_works() {
    let xml = r#"
            <?xml version="1.0" encoding="utf-8" ?><timedtext format="3">
            <head>
            <ws id="0"/>
            <ws id="1" mh="2" ju="0" sd="3"/>
            <wp id="0"/>
            <wp id="1" ap="6" ah="20" av="100" rc="2" cc="40"/>
            </head>
            <body>
            <w t="0" id="1" wp="1" ws="1"/>
            <p t="6839" d="4680" w="1"><s ac="0">dark</s><s t="321" ac="0"> energy</s><s t="801" ac="0"> is</s><s t="960" ac="0"> one</s><s t="1080" ac="0"> of</s><s t="1241" ac="0"> the</s><s t="1401" ac="0"> biggest</s></p>
            <p t="8629" d="2890" w="1" a="1">
            </p>
            <p t="8639" d="6120" w="1"><s ac="0">mysteries</s><s t="601" ac="0"> in</s><s t="1040" ac="0"> physics</s><s t="2040" ac="0"> it</s><s t="2241" ac="0"> dominates</s><s t="2761" ac="0"> the</s></p>
            <p t="11509" d="3250" w="1" a="1">
            </p>
            </body>
            </timedtext>
        "#;
    let result = parse_xml(&xml);
    assert!(result.is_ok());
    let subtitles = result.unwrap();
    assert_eq!(subtitles.len(), 2);
}

#[test]
fn a_line_holds_its_times_and_its_text() {
    let xml = "<timedtext><body><p t=\"80\" d=\"7520\">  one &amp; <b>two</b>\n</p><p d=\"5\">three</p></body></timedtext>";
    assert_eq!(
        parse_xml(xml),
        Ok(vec![entry(80, 7520, "one & two"), entry(80, 5, "three")])
    );
}

#[test]
fn machine_made_lines_start_from_zero_and_keep_their_blanks() {
    let xml = "lost<p t=\"80\" d=\"7520\"><s>dark</s><s t=\"3\"> energy </s></p><p d=\"5\">x</p><p t=\"9\"> </p><p t=\"10\"></p>";
    assert_eq!(
        parse_xml_with_auto(xml),
        Ok(vec![entry(80, 7520, "dark energy "), entry(0, 5, "x"), entry(9, 0, " ")])
    );
    assert_eq!(
        parse_xml(xml),
        Ok(vec![entry(80, 7520, "dark energy"), entry(80, 5, "x")])
    );
}

#[test]
fn the_language_code_chooses_the_reading() {
    let xml = "<p t=\"1\" d=\"2\"> a </p><p> b</p>";
    assert_eq!(parse_captions(xml, ".en"), Ok(vec![entry(1, 2, "a"), entry(1, 2, "b")]));
    assert_eq!(parse_captions(xml, "a.en"), Ok(vec![entry(1, 2, " a "), entry(0, 0, " b")]));
    assert_eq!(parse_captions(xml, "a-en"), parse_xml(xml));
}

#[test]
fn a_document_without_lines_gives_none() {
    assert_eq!(parse_xml(""), Ok(vec![]));
    assert_eq!(parse_xml("<body><q t=\"x\">text</q></body>"), Ok(vec![]));
    assert_eq!(parse_xml_with_auto("just text"), Ok(vec![]));
    assert_eq!(parse_xml("<p t=\"1\"/>"), Ok(vec![]));
}

#[test]
fn a_broken_document_is_an_error() {
    assert_eq!(parse_xml("<p t=\"1\">a</p><p"), Err(CaptionError::Malformed));
    assert_eq!(parse_xml("<a></b>"), Err(CaptionError::Malformed));
    assert_eq!(parse_xml_with_auto("<p>a</q>"), Err(CaptionError::Malformed));
}

#[test]
fn a_broken_line_tag_is_an_error() {
    assert_eq!(parse_xml("<p t>a</p>"), Err(CaptionError::BadAttribute));
    assert_eq!(parse_xml("<p t=\"1\" t=\"2\">a</p>"), Err(CaptionError::BadAttribute));
    assert_eq!(parse_xml("<p t=\"&nope;\">a</p>"), Err(CaptionError::BadValue));
    assert_eq!(parse_xml("<p t=\"soon\">a</p>"), Err(CaptionError::BadNumber));
    assert_eq!(parse_xml("<p t=\" 1\">a</p>"), Err(CaptionError::BadNumber));
    assert_eq!(parse_xml("<p d=\"4294967296\">a</p>"), Err(CaptionError::BadNumber));
    assert_eq!(parse_xml("<p t=\"18446744073709551616\">a</p>"), Err(CaptionError::BadNumber));
    assert_eq!(
        parse_xml("<p t=\"18446744073709551615\" d=\"4294967295\">a</p>"),
        Ok(vec![entry(u64::MAX, u32::MAX, "a")])
    );
    assert_eq!(parse_xml_with_auto("<p d=\"-1\">a</p>"), Err(CaptionError::BadNumber));
    assert_eq!(parse_xml("<q t>a</q><p w=\"&nope;\">a</p>"), Ok(vec![entry(0, 0, "a")]));
}

#[test]
fn a_broken_text_is_an_error() {
    assert_eq!(parse_xml("<p>a &nope; b</p>"), Err(CaptionError::BadText));
    assert_eq!(parse_xml("&nope;<p>a</p>"), Err(CaptionError::BadText));
    assert_eq!(parse_xml_with_auto("&nope;<p>a</p>"), Ok(vec![entry(0, 0, "a")]));
    assert_eq!(parse_xml_with_auto("<p>&nope;</p>"), Err(CaptionError::BadText));
}

#[test]
fn attributes_are_read_in_order() {
    let attributes = vec![pair("t", "1"), pair("w", "x"), pair("d", "+2"), pair("t", "3")];
    assert_eq!(read_times(&attributes, 7, 8), Ok((3, 2)));
    assert_eq!(read_times(&Vec::new(), 7, 8), Ok((7, 8)));
    assert_eq!(read_times(&vec![pair("tt", "x"), pair("", "y")], 7, 8), Ok((7, 8)));
    assert_eq!(
        read_times(&vec![XmlAttribute::Malformed, pair("t", "x")], 0, 0),
        Err(CaptionError::BadAttribute)
    );
    assert_eq!(
        read_times(&vec![pair("t", "x"), XmlAttribute::Malformed], 0, 0),
        Err(CaptionError::BadNumber)
    );
    assert_eq!(
        read_times(&vec![XmlAttribute::Pair(b"d".to_vec(), None)], 0, 0),
        Err(CaptionError::BadValue)
    );
    assert_eq!(read_times(&vec![XmlAttribute::Pair(b"x".to_vec(), None)], 1, 2), Ok((1, 2)));
}
