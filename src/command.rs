//! The commands the program offers, as plain values.

use vstd::prelude::*;

use crate::event::SubtitleFormat;
use crate::pipeline::{handle_event, EventType, PipelineError, SubtitleMergeContext};

verus! {

/// Arguments of the download-event hook.
#[derive(Debug)]
pub struct SonarrArgs {
    pub eventtype: EventType,
    /// "True" when an existing file is upgraded, "False" otherwise.
    pub isupgrade: Option<String>,
    /// Full path to the episode file.
    pub episodefile_path: Option<String>,
}

/// Arguments of the merge of two subtitle files.
#[derive(Debug)]
pub struct MergeArgs {
    /// Primary subtitle (bottom).
    pub primary: String,
    /// Secondary subtitle (top).
    pub secondary: String,
}

/// Arguments of a format conversion.
#[derive(Debug)]
pub struct ConvertArgs {
    pub input: String,
    pub output: Option<String>,
    pub format: Option<SubtitleFormat>,
}

/// Arguments of the length and CPS filters on a SubRip file.
#[derive(Debug)]
pub struct CleanArgs {
    pub input: String,
    pub output: String,
    pub length: Option<usize>,
    pub cps: Option<usize>,
}

/// One of the program's subcommands.
#[derive(Debug)]
pub enum SubCommand {
    SonarrSubtitleMerge(SonarrArgs),
    Merge(MergeArgs),
    Convert(ConvertArgs),
    Clean(CleanArgs),
}

/// A command line: a subcommand named after the program's default name, or
/// one named directly by the name the program was invoked under.
#[derive(Debug)]
pub enum Cli {
    Default(SubCommand),
    SonarrSubtitleMerge(SonarrArgs),
    Merge(MergeArgs),
    Convert(ConvertArgs),
    Clean(CleanArgs),
}

impl Cli {
    /// The subcommand that the command line asks for, however it was named.
    pub fn into_subcommand(self) -> (r: SubCommand)
        ensures
            r == match self {
                Cli::Default(s) => s,
                Cli::SonarrSubtitleMerge(a) => SubCommand::SonarrSubtitleMerge(a),
                Cli::Merge(a) => SubCommand::Merge(a),
                Cli::Convert(a) => SubCommand::Convert(a),
                Cli::Clean(a) => SubCommand::Clean(a),
            },
    {
        match self {
            Cli::Default(s) => s,
            Cli::SonarrSubtitleMerge(a) => SubCommand::SonarrSubtitleMerge(a),
            Cli::Merge(a) => SubCommand::Merge(a),
            Cli::Convert(a) => SubCommand::Convert(a),
            Cli::Clean(a) => SubCommand::Clean(a),
        }
    }
}

impl SonarrArgs {
    /// What the event asks for: nothing for a test event, the merge context
    /// for a download event, which needs the episode file's path.
    pub fn decide(self) -> (r: Result<Option<SubtitleMergeContext>, PipelineError>)
        ensures
            self.eventtype == EventType::Test ==> r matches Ok(None),
            self.eventtype == EventType::Download && self.episodefile_path is None ==> r == Err::<
                Option<SubtitleMergeContext>,
                PipelineError,
            >(PipelineError::MissingEpisodePath),
            self.eventtype == EventType::Download && self.episodefile_path is Some ==> (r matches Ok(
                Some(c),
            ) && c.media_file@ == self.episodefile_path->0@),
    {
        handle_event(self.eventtype, self.episodefile_path)
    }
}

impl ConvertArgs {
    /// The format to write: the one asked for, else the detected input format.
    pub fn output_format(&self, detected: SubtitleFormat) -> (r: SubtitleFormat)
        ensures
            r == match self.format {
                Some(f) => f,
                None => detected,
            },
    {
        match self.format {
            Some(f) => f,
            None => detected,
        }
    }
}

} // verus!
