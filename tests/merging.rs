use sonarr_script::event::{SubtitleFormat, TimedTextEvent};
use sonarr_script::merge::{merge_events, merge_subtitle_files, pin_to_top, renumber};

fn ev(start: i64, text: &str) -> TimedTextEvent {
    TimedTextEvent::new(start, start + 1000, text.to_string())
}

#[test]
fn equal_starts_keep_bottom_first() {
    let out = merge_events(&vec![ev(0, "A")], &vec![ev(0, "B")]);
    assert_eq!(out.len(), 2);
    assert_eq!(out[0].text, "A");
    assert_eq!(out[1].text, "{\\an8}B");
    assert_eq!((out[0].number, out[1].number), (1, 2));
    assert_eq!(out[0].start, out[1].start);
}

#[test]
fn merge_sorts_by_start() {
    let out = merge_events(&vec![ev(5000, "A")], &vec![ev(1000, "B")]);
    assert_eq!(out[0].text, "{\\an8}B");
    assert_eq!(out[0].start, 1000);
    assert_eq!(out[1].text, "A");
    assert_eq!(out[1].start, 5000);
}

#[test]
fn merge_count_is_sum_and_numbers_are_contiguous() {
    let bottom = vec![ev(3000, "b1"), ev(1000, "b2"), ev(2000, "b3")];
    let top = vec![ev(2000, "t1"), ev(0, "t2")];
    let out = merge_events(&bottom, &top);
    assert_eq!(out.len(), 5);
    for (i, e) in out.iter().enumerate() {
        assert_eq!(e.number, i + 1);
    }
    let starts: Vec<i64> = out.iter().map(|e| e.start).collect();
    assert_eq!(starts, vec![0, 1000, 2000, 2000, 3000]);
    assert_eq!(out[2].text, "b3");
    assert_eq!(out[3].text, "{\\an8}t1");
}

#[test]
fn merge_of_empty_tracks_is_empty() {
    assert!(merge_events(&Vec::new(), &Vec::new()).is_empty());
}

#[test]
fn pin_to_top_prefixes_directive() {
    assert_eq!(pin_to_top(&ev(0, "x")).text, "{\\an8}x");
}

#[test]
fn renumber_overwrites_numbers() {
    let mut v = vec![ev(0, "a"), ev(0, "b")];
    v[0].number = 9;
    renumber(&mut v);
    assert_eq!((v[0].number, v[1].number), (1, 2));
}

const BOTTOM: &str = "1\n00:00:05,000 --> 00:00:06,000\n中文\n";
const TOP: &str = "1\n00:00:01,000 --> 00:00:02,000\nEnglish\n";

#[test]
fn merged_files_render_as_subrip() {
    let out = merge_subtitle_files(BOTTOM, SubtitleFormat::SubRip, TOP, SubtitleFormat::SubRip);
    let top_at = out.find("{\\an8}English").expect("top cue rendered");
    let bottom_at = out.find("中文").expect("bottom cue rendered");
    assert!(top_at < bottom_at);
    assert!(out.starts_with("1\n00:00:01,000 --> 00:00:02,000\n"));
    assert!(out.contains("2\n00:00:05,000 --> 00:00:06,000\n中文"));
}
