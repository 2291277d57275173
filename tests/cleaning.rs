use sonarr_script::clean::event_duration_seconds;
use sonarr_script::event::{SubtitleFormat, SubtitleTrack, TimedTextEvent};

fn ev(start: i64, end: i64, text: &str) -> TimedTextEvent {
    TimedTextEvent::new(start, end, text.to_string())
}

fn styled(text: &str, style: &str) -> TimedTextEvent {
    let mut e = ev(0, 1000, text);
    e.style = Some(style.to_string());
    e
}

fn track(events: Vec<TimedTextEvent>) -> SubtitleTrack {
    SubtitleTrack::from_events(SubtitleFormat::Ass, events)
}

fn texts(t: &SubtitleTrack) -> Vec<String> {
    t.events.iter().map(|e| e.text.clone()).collect()
}

#[test]
fn length_filter_counts_characters_not_bytes() {
    let mut t = track(vec![ev(0, 1000, "abc"), ev(0, 1000, "abcd"), ev(0, 1000, "們們們")]);
    t.length_filter(Some(4));
    assert_eq!(texts(&t), vec!["abc".to_string(), "們們們".to_string()]);
}

#[test]
fn length_filter_without_limit_keeps_everything() {
    let mut t = track(vec![ev(0, 1000, "a very long line indeed")]);
    t.length_filter(None);
    assert_eq!(t.len(), 1);
}

#[test]
fn cps_at_limit_five_is_kept() {
    let mut t = track(vec![ev(10_000, 15_000, "12345678901234567890")]);
    t.cps_filter(Some(5));
    assert_eq!(t.len(), 1);
}

#[test]
fn cps_at_limit_four_is_removed() {
    let mut t = track(vec![ev(10_000, 15_000, "12345678901234567890")]);
    t.cps_filter(Some(4));
    assert_eq!(t.len(), 0);
}

#[test]
fn zero_duration_floors_to_one_second() {
    let e = ev(7_000, 7_000, "abc");
    assert_eq!(event_duration_seconds(&e), 1);
    let mut t = track(vec![e]);
    t.cps_filter(Some(4));
    assert_eq!(t.len(), 1);
    t.cps_filter(Some(3));
    assert_eq!(t.len(), 0);
}

#[test]
fn negative_duration_floors_to_one_second() {
    assert_eq!(event_duration_seconds(&ev(9_000, 2_000, "x")), 1);
    assert_eq!(event_duration_seconds(&ev(-1_500, 1_000, "x")), 3);
}

#[test]
fn clear_long_lines_blanks_but_keeps_cues() {
    let mut t = track(vec![ev(0, 1000, "short"), ev(1000, 2000, "much longer")]);
    t.clear_long_lines(5);
    assert_eq!(texts(&t), vec!["short".to_string(), String::new()]);
    assert_eq!(t.events[1].start, 1000);
}

fn signs_track(blanks: usize) -> SubtitleTrack {
    let mut events = Vec::new();
    for _ in 0..blanks {
        events.push(styled("", "signs"));
    }
    events.push(styled("sign text", "signs"));
    events.push(styled("dialogue", "Default"));
    events.push(ev(0, 1000, ""));
    events.push(ev(0, 1000, "no style"));
    track(events)
}

#[test]
fn style_with_twenty_one_blanks_is_suppressed() {
    let mut t = signs_track(21);
    t.clear_events_whose_style_has_many_existing_blanks();
    for e in &t.events {
        if e.style.as_deref() == Some("signs") {
            assert_eq!(e.text, "");
        }
    }
    let n = t.events.len();
    assert_eq!(t.events[n - 3].text, "dialogue");
    assert_eq!(t.events[n - 1].text, "no style");
}

#[test]
fn style_with_twenty_blanks_is_untouched() {
    let mut t = signs_track(20);
    t.clear_events_whose_style_has_many_existing_blanks();
    let n = t.events.len();
    assert_eq!(t.events[n - 4].text, "sign text");
}

#[test]
fn styles_are_matched_in_lower_case() {
    let mut t = track(vec![styled("a", "Signs"), styled("b", "Default"), ev(0, 1, "c")]);
    t.clear_events_with_styles(&vec!["signs".to_string()]);
    assert_eq!(texts(&t), vec![String::new(), "b".to_string(), "c".to_string()]);
}

#[test]
fn subrip_filters_drop_long_and_fast_cues() {
    let srt = "1\n00:00:10,000 --> 00:00:15,000\n12345678901234567890\n\n2\n00:00:20,000 --> 00:00:21,000\nok\n\n3\n00:00:30,000 --> 00:00:40,000\nthis line is far too long\n";
    let out = sonarr_script::clean::filter_subrip(srt, Some(21), Some(4));
    assert!(!out.contains("12345678901234567890"));
    assert!(out.contains("\nok\n"));
    assert!(!out.contains("too long"));
    let kept = sonarr_script::clean::filter_subrip(srt, None, None);
    assert!(kept.contains("too long"));
    assert!(kept.contains("12345678901234567890"));
}
