use sonarr_script::pipeline::{
    get_best_srt, get_best_srt_chs, get_best_srt_cht, get_best_srt_en, get_subtitle_streams,
    handle_event, map_language_code, publication_plan, retag_traditional, EventType, PipelineError,
    PublishStep,
};

const REPORT: &str = "Input #0, matroska,webm, from 'show.mkv':\n  Stream #0:0: Video: hevc\n  Stream #0:1(jpn): Audio: aac\n  Stream #0:2(eng): Subtitle: subrip (default)\n  Stream #0:3(chi): Subtitle: ass\n  Stream #0:4(fre): Subtitle: ass\n  Stream #0:5(eng): Subtitle: hdmv_pgs_subtitle\n";

#[test]
fn language_codes_are_normalized() {
    assert_eq!(map_language_code("zho"), "zh");
    assert_eq!(map_language_code("chi"), "zh");
    assert_eq!(map_language_code("zh"), "zh");
    assert_eq!(map_language_code("eng"), "en");
    assert_eq!(map_language_code("en"), "en");
    assert_eq!(map_language_code("jpn"), "jpn");
    assert_eq!(map_language_code("zhs"), "zh");
    assert_eq!(map_language_code("zh-TW"), "zh");
    assert_eq!(map_language_code("enm"), "en");
    assert_eq!(map_language_code("e"), "e");
}

#[test]
fn streams_are_read_from_report() {
    let streams = get_subtitle_streams(REPORT, "show.mkv").unwrap();
    let ids: Vec<&str> = streams.iter().map(|s| s.stream_id.as_str()).collect();
    assert_eq!(ids, vec!["0:2", "0:3", "0:4", "0:5"]);
    assert_eq!(streams[0].language_code, "en");
    assert_eq!(streams[1].language_code, "zh");
    assert_eq!(streams[1].codec, "ass");
    assert_eq!(streams[1].source_file, "show.mkv");
}

#[test]
fn only_chinese_and_english_text_streams_are_wanted() {
    let streams = get_subtitle_streams(REPORT, "show.mkv").unwrap();
    let wanted: Vec<bool> = streams.iter().map(|s| s.is_wanted()).collect();
    assert_eq!(wanted, vec![true, true, false, false]);
    assert!(streams[1].is_chinese());
    assert!(!streams[0].is_chinese());
}

#[test]
fn dump_names_use_stream_and_language() {
    let streams = get_subtitle_streams(REPORT, "show.mkv").unwrap();
    assert_eq!(streams[0].dump_file_name(), "0_2.en.srt");
    assert_eq!(streams[1].dump_file_name(), "0_3.zh.srt");
}

#[test]
fn traditional_retag_swaps_suffix() {
    assert_eq!(retag_traditional("0_3.zh.srt"), "0_3.zh-TW.srt");
    assert_eq!(retag_traditional("0_2.en.srt"), "0_2.en.srt");
}

#[test]
fn candidates_are_first_matches() {
    let names = vec![
        "0_3.zh-TW.srt".to_string(),
        "0_2.en.srt".to_string(),
        "0_6.en.srt".to_string(),
    ];
    assert_eq!(get_best_srt(&names, ".en.srt"), Some(1));
    assert_eq!(get_best_srt_en(&names), Some("0_2.en.srt".to_string()));
    assert_eq!(get_best_srt_cht(&names), Some("0_3.zh-TW.srt".to_string()));
    assert_eq!(get_best_srt_chs(&names), None);
    let plan = publication_plan(&names);
    assert_eq!(plan.len(), 2);
    match &plan[0] {
        PublishStep::Copy { source, extension } => {
            assert_eq!((source.as_str(), extension.as_str()), ("0_2.en.srt", "en.srt"))
        }
        other => panic!("unexpected {other:?}"),
    }
    match &plan[1] {
        PublishStep::Merge { bottom, top, extension } => assert_eq!(
            (bottom.as_str(), top.as_str(), extension.as_str()),
            ("0_3.zh-TW.srt", "0_2.en.srt", "zh-TW.srt")
        ),
        other => panic!("unexpected {other:?}"),
    }
}

#[test]
fn events_are_handled() {
    assert!(matches!(handle_event(EventType::Test, None), Ok(None)));
    assert!(matches!(
        handle_event(EventType::Download, None),
        Err(PipelineError::MissingEpisodePath)
    ));
    let ctx = handle_event(EventType::Download, Some("/tv/show.mkv".to_string())).unwrap().unwrap();
    assert_eq!(ctx.media_file, "/tv/show.mkv");
}

#[test]
fn download_with_english_and_traditional_streams() {
    let streams = get_subtitle_streams(REPORT, "show.mkv").unwrap();
    let mut names = Vec::new();
    for s in streams.iter().filter(|s| s.is_wanted()) {
        let name = s.dump_file_name();
        let chinese_text = "1\n00:00:01,000 --> 00:00:02,000\n我們走吧\n";
        if s.is_chinese() && sonarr_script::track::ensure_hanzi(chinese_text) {
            names.push(retag_traditional(&name));
        } else {
            names.push(name);
        }
    }
    assert_eq!(get_best_srt_en(&names), Some("0_2.en.srt".to_string()));
    assert_eq!(get_best_srt_cht(&names), Some("0_3.zh-TW.srt".to_string()));
    assert_eq!(get_best_srt_chs(&names), None);
    let plan = publication_plan(&names);
    assert_eq!(plan.len(), 2);
    match &plan[0] {
        PublishStep::Copy { source, extension } => {
            assert_eq!((source.as_str(), extension.as_str()), ("0_2.en.srt", "en.srt"))
        }
        other => panic!("unexpected {other:?}"),
    }
    match &plan[1] {
        PublishStep::Merge { bottom, top, extension } => assert_eq!(
            (bottom.as_str(), top.as_str(), extension.as_str()),
            ("0_3.zh-TW.srt", "0_2.en.srt", "zh-TW.srt")
        ),
        other => panic!("unexpected {other:?}"),
    }
}

#[test]
fn no_english_candidate_publishes_nothing() {
    let names = vec!["0_3.zh.srt".to_string(), "0_4.zh-TW.srt".to_string()];
    assert!(publication_plan(&names).is_empty());
}

#[test]
fn both_chinese_variants_are_merged_with_english() {
    let names = vec!["0_4.zh-TW.srt".to_string(), "0_2.en.srt".to_string(), "0_3.zh.srt".to_string()];
    let plan = publication_plan(&names);
    assert_eq!(plan.len(), 3);
    assert!(matches!(&plan[1], PublishStep::Merge { bottom, extension, .. } if bottom == "0_3.zh.srt" && extension == "zh.srt"));
    assert!(matches!(&plan[2], PublishStep::Merge { bottom, extension, .. } if bottom == "0_4.zh-TW.srt" && extension == "zh-TW.srt"));
}
