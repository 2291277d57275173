use sonarr_script::classify::{predominant_language_of, Language};
use sonarr_script::event::{SubtitleFormat, SubtitleTrack, TimedTextEvent};
use sonarr_script::track::{
    can_convert_to_ass, can_convert_to_subrip, clean_subtitle_file, ensure_hanzi, text_contains,
};

const ASS: &str = "[Script Info]\nScriptType: v4.00+\n\n[V4+ Styles]\nFormat: Name, Fontname, Fontsize, PrimaryColour, SecondaryColour, OutlineColour, BackColour, Bold, Italic, Underline, StrikeOut, ScaleX, ScaleY, Spacing, Angle, BorderStyle, Outline, Shadow, Alignment, MarginL, MarginR, MarginV, Encoding\nStyle: Default,Arial,20,&H00FFFFFF,&H000000FF,&H00000000,&H00000000,0,0,0,0,100,100,0,0,1,2,2,2,10,10,10,1\n\n[Events]\nFormat: Layer, Start, End, Style, Name, MarginL, MarginR, MarginV, Effect, Text\nDialogue: 0,0:00:01.00,0:00:02.50,Default,,0,0,0,,{\\b1}Hello{\\b0} world\n";

const SRT: &str = "1\n00:00:10,000 --> 00:00:15,000\n<i>Hello</i>\n\n2\n00:00:16,000 --> 00:00:17,000\n他們來了\n";

#[test]
fn loads_subrip_cues() {
    let t = SubtitleTrack::load(SRT, SubtitleFormat::SubRip);
    assert_eq!(t.len(), 2);
    assert_eq!(t.events[0].start, 10_000);
    assert_eq!(t.events[0].end, 15_000);
    assert_eq!(t.events[0].text, "<i>Hello</i>");
    assert_eq!(t.events[1].number, 2);
}

#[test]
fn loads_ass_cues_and_styles() {
    let t = SubtitleTrack::load(ASS, SubtitleFormat::Ass);
    assert_eq!(t.len(), 1);
    assert_eq!(t.events[0].start, 1_000);
    assert_eq!(t.events[0].end, 2_500);
    assert_eq!(t.events[0].style.as_deref(), Some("Default"));
    assert_eq!(t.styles, vec!["Default".to_string()]);
}

#[test]
fn strip_formatting_removes_overrides_and_styles() {
    let mut t = SubtitleTrack::load(ASS, SubtitleFormat::Ass);
    t.strip_formatting();
    assert_eq!(t.events[0].text, "Hello world");
    assert!(t.styles.is_empty());
}

#[test]
fn strip_formatting_is_idempotent() {
    let mut t = SubtitleTrack::from_events(
        SubtitleFormat::Ass,
        vec![
            TimedTextEvent::new(0, 1, "{\\an8}{\\i1}top{\\i0}".to_string()),
            TimedTextEvent::new(0, 1, "a{b".to_string()),
            TimedTextEvent::new(0, 1, "plain".to_string()),
        ],
    );
    t.strip_formatting();
    let once: Vec<String> = t.events.iter().map(|e| e.text.clone()).collect();
    t.strip_formatting();
    let twice: Vec<String> = t.events.iter().map(|e| e.text.clone()).collect();
    assert_eq!(once, twice);
    assert_eq!(once[0], "top");
}

#[test]
fn strip_formatting_of_subrip_removes_tags() {
    let mut t = SubtitleTrack::load(SRT, SubtitleFormat::SubRip);
    t.strip_formatting();
    assert_eq!(t.events[0].text, "Hello");
}

#[test]
fn traditional_marker_classifies_track() {
    let t = SubtitleTrack::load(SRT, SubtitleFormat::SubRip);
    assert!(t.detect_chinese_traditional());
    assert!(ensure_hanzi(SRT));
}

#[test]
fn no_marker_classifies_simplified() {
    let t = SubtitleTrack::from_events(
        SubtitleFormat::SubRip,
        vec![TimedTextEvent::new(0, 1, "他们来了".to_string()), TimedTextEvent::new(1, 2, "好".to_string())],
    );
    assert!(!t.detect_chinese_traditional());
}

#[test]
fn text_contains_finds_characters() {
    assert!(text_contains("ab們", '們'));
    assert!(!text_contains("", 'a'));
}

#[test]
fn clean_file_renders_stripped_subrip() {
    let out = clean_subtitle_file(SRT, SubtitleFormat::SubRip);
    assert!(out.contains("\nHello\n"));
    assert!(!out.contains("<i>"));
}

#[test]
fn save_srt_converts_ass() {
    let t = SubtitleTrack::load(ASS, SubtitleFormat::Ass);
    let out = t.save_srt().expect("convertible");
    assert!(out.contains("00:00:01,000 --> 00:00:02,500"));
    assert!(out.contains("Hello"));
}

#[test]
fn predominant_language_of_english_track() {
    let t = SubtitleTrack::from_events(
        SubtitleFormat::SubRip,
        vec![
            TimedTextEvent::new(0, 1, "Where are you going tonight?".to_string()),
            TimedTextEvent::new(1, 2, "I am going home to sleep.".to_string()),
            TimedTextEvent::new(2, 3, "你今天晚上去哪裡？".to_string()),
        ],
    );
    let got = t.detect_predominant_language(&[Language::English, Language::Chinese]);
    assert_eq!(got, Some(Language::English));
}

#[test]
fn predominant_language_of_empty_track_is_none() {
    let t = SubtitleTrack::from_events(SubtitleFormat::SubRip, Vec::new());
    assert_eq!(t.detect_predominant_language(&[Language::English, Language::Chinese]), None);
}

#[test]
fn subrip_converts_to_ass() {
    let out = sonarr_script::track::convert_to_ass(SRT, SubtitleFormat::SubRip);
    assert!(out.contains("[Events]"));
    assert!(out.contains("Dialogue:"));
    assert!(out.contains("他們來了"));
}

#[test]
fn colour_marks_followed_by_wide_characters_are_not_convertible() {
    assert!(can_convert_to_subrip("{\\c&H00FF00&}text", SubtitleFormat::Ass));
    assert!(!can_convert_to_subrip("{\\c&H們&}text", SubtitleFormat::Ass));
    assert!(can_convert_to_subrip("{\\c&H們&}text", SubtitleFormat::SubRip));
    assert!(can_convert_to_ass("<font color=\"#00ff00\">x</font>", SubtitleFormat::SubRip));
    assert!(!can_convert_to_ass("<font color=\"#們\">x</font>", SubtitleFormat::SubRip));
}

#[test]
fn subrip_track_saves_as_subrip() {
    let t = SubtitleTrack::load(SRT, SubtitleFormat::SubRip);
    let out = t.save_srt().expect("subrip always saves");
    assert!(out.starts_with("1\n00:00:10,000 --> 00:00:15,000\n<i>Hello</i>"));
}

#[test]
fn long_digit_runs_are_not_parsable() {
    assert!(sonarr_script::track::can_parse(SRT));
    assert!(sonarr_script::track::can_parse("123456789012"));
    assert!(!sonarr_script::track::can_parse("1234567890123:00:00,000"));
}

#[test]
fn subrip_strip_formatting_is_idempotent() {
    let mut t = SubtitleTrack::from_events(
        SubtitleFormat::SubRip,
        vec![
            TimedTextEvent::new(0, 1, "<i>x</i>{a<b>c".to_string()),
            TimedTextEvent::new(0, 1, "<b>bold</b> text".to_string()),
        ],
    );
    t.strip_formatting();
    let once: Vec<String> = t.events.iter().map(|e| e.text.clone()).collect();
    t.strip_formatting();
    let twice: Vec<String> = t.events.iter().map(|e| e.text.clone()).collect();
    assert_eq!(once, twice);
    assert_eq!(once[1], "bold text");
}

#[test]
fn predominant_outcome_counts_no_language_too() {
    let l = |o: Option<Language>| o;
    assert_eq!(predominant_language_of(&vec![]), None);
    assert_eq!(
        predominant_language_of(&vec![l(None), l(None), l(Some(Language::English))]),
        None
    );
    assert_eq!(
        predominant_language_of(&vec![
            l(Some(Language::English)),
            l(None),
            l(Some(Language::English)),
        ]),
        Some(Language::English)
    );
    assert_eq!(
        predominant_language_of(&vec![l(Some(Language::English)), l(Some(Language::Chinese))]),
        Some(Language::Chinese)
    );
}

#[test]
fn ass_converts_to_subrip() {
    let out = sonarr_script::track::convert_to_subrip(ASS, SubtitleFormat::Ass);
    assert!(out.starts_with("1\n00:00:01,000 --> 00:00:02,500\n"));
}

const SSA: &str = "[Script Info]\nScriptType: v4.00\n\n[V4 Styles]\nFormat: Name, Fontname, Fontsize, PrimaryColour, SecondaryColour, TertiaryColour, BackColour, Bold, Italic, BorderStyle, Outline, Shadow, Alignment, MarginL, MarginR, MarginV, AlphaLevel, Encoding\nStyle: Default,Arial,20,16777215,255,0,0,0,0,1,2,2,2,10,10,10,0,1\n\n[Events]\nFormat: Marked, Start, End, Style, Name, MarginL, MarginR, MarginV, Effect, Text\nDialogue: Marked=0,0:00:01.00,0:00:02.00,Default,,0000,0000,0000,,{\\i1}Hi{\\i0} there\n";

const VTT: &str = "WEBVTT\n\n00:00:01.000 --> 00:00:02.000\n<i>Hi</i> there\n";

#[test]
fn ssa_cues_are_stripped() {
    let mut t = SubtitleTrack::load(SSA, SubtitleFormat::Ssa);
    assert_eq!(t.len(), 1);
    assert_eq!(t.events[0].start, 1_000);
    t.strip_formatting();
    assert_eq!(t.events[0].text, "Hi there");
    assert!(t.styles.is_empty());
}

#[test]
fn webvtt_cues_are_stripped_and_converted() {
    let mut t = SubtitleTrack::load(VTT, SubtitleFormat::WebVtt);
    assert_eq!(t.len(), 1);
    assert_eq!(t.events[0].end, 2_000);
    t.strip_formatting();
    assert_eq!(t.events[0].text, "Hi there");
    let srt = sonarr_script::track::convert_to_subrip(VTT, SubtitleFormat::WebVtt);
    assert!(srt.contains("00:00:01,000 --> 00:00:02,000"));
    let cleaned = clean_subtitle_file(VTT, SubtitleFormat::WebVtt);
    assert!(cleaned.starts_with("WEBVTT"));
    assert!(cleaned.contains("Hi there"));
}
