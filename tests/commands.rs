use sonarr_script::command::{Cli, ConvertArgs, MergeArgs, SonarrArgs, SubCommand};
use sonarr_script::event::SubtitleFormat;
use sonarr_script::pipeline::{EventType, PipelineError};

#[test]
fn default_and_direct_names_give_the_same_subcommand() {
    let direct = Cli::Merge(MergeArgs { primary: "a.srt".to_string(), secondary: "b.srt".to_string() });
    let via_default = Cli::Default(SubCommand::Merge(MergeArgs {
        primary: "a.srt".to_string(),
        secondary: "b.srt".to_string(),
    }));
    for cli in [direct, via_default] {
        match cli.into_subcommand() {
            SubCommand::Merge(a) => assert_eq!((a.primary.as_str(), a.secondary.as_str()), ("a.srt", "b.srt")),
            other => panic!("unexpected {other:?}"),
        }
    }
}

#[test]
fn convert_defaults_to_detected_format() {
    let mut args = ConvertArgs { input: "in.srt".to_string(), output: None, format: None };
    assert_eq!(args.output_format(SubtitleFormat::SubRip), SubtitleFormat::SubRip);
    args.format = Some(SubtitleFormat::Ass);
    assert_eq!(args.output_format(SubtitleFormat::SubRip), SubtitleFormat::Ass);
}

#[test]
fn sonarr_download_needs_a_path() {
    let args = SonarrArgs { eventtype: EventType::Download, isupgrade: None, episodefile_path: None };
    assert!(matches!(args.decide(), Err(PipelineError::MissingEpisodePath)));
    let test = SonarrArgs { eventtype: EventType::Test, isupgrade: None, episodefile_path: None };
    assert!(matches!(test.decide(), Ok(None)));
}
