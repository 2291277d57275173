//! The decisions of the download-event pipeline: which subtitle streams to
//! extract, how extracted files are named, which candidates are published.

use regex::Regex;
use vstd::prelude::*;

use crate::text::{
    ends_with, has_prefix, has_suffix, prefix_of, replace_char, replaced_char, same_text, starts_with,
};

verus! {

/// The event that triggered a run.
#[derive(Clone, Copy, Debug, PartialEq, Eq, Structural)]
pub enum EventType {
    Test,
    Download,
}

/// The media file that a merge run is about.
#[derive(Debug)]
pub struct SubtitleMergeContext {
    pub media_file: String,
}

/// Why a pipeline step could not go on.
#[derive(Clone, Copy, Debug, PartialEq, Eq, Structural)]
pub enum PipelineError {
    /// A download event came without the media file's path.
    MissingEpisodePath,
    /// The stream-description pattern was refused by the regex engine.
    BadStreamPattern,
}

/// Decides what an event asks for: nothing for a test event, the merge
/// context for a download event, which needs the media file's path.
pub fn handle_event(event: EventType, episode_path: Option<String>) -> (r: Result<
    Option<SubtitleMergeContext>,
    PipelineError,
>)
    ensures
        event == EventType::Test ==> r matches Ok(None),
        event == EventType::Download && episode_path is None ==> r == Err::<
            Option<SubtitleMergeContext>,
            PipelineError,
        >(PipelineError::MissingEpisodePath),
        event == EventType::Download && episode_path is Some ==> (r matches Ok(Some(c))
            && c.media_file@ == episode_path->0@),
{
    match event {
        EventType::Test => Ok(None),
        EventType::Download => match episode_path {
            Some(p) => Ok(Some(SubtitleMergeContext { media_file: p })),
            None => Err(PipelineError::MissingEpisodePath),
        },
    }
}

/// A language code collapsed to two letters for Chinese and English: every
/// `zh*` code and `chi` become `zh`, every `en*` code becomes `en`; other
/// codes pass through.
pub open spec fn normalized_language(code: Seq<char>) -> Seq<char> {
    if has_prefix(code, "zh"@) || code == "chi"@ {
        "zh"@
    } else if has_prefix(code, "en"@) {
        "en"@
    } else {
        code
    }
}

/// Collapses `zh*` and `chi` to `zh`, and `en*` to `en`.
pub fn map_language_code(input: &str) -> (r: String)
    ensures
        r@ == normalized_language(input@),
{
    if starts_with(input, "zh") || same_text(input, "chi") {
        String::from_str("zh")
    } else if starts_with(input, "en") {
        String::from_str("en")
    } else {
        String::from_str(input)
    }
}

/// A subtitle stream found in a media file.
#[derive(Debug)]
pub struct SubtitleStream {
    pub source_file: String,
    pub stream_id: String,
    pub language_code: String,
    pub codec: String,
}

pub struct StreamView {
    pub source_file: Seq<char>,
    pub stream_id: Seq<char>,
    pub language_code: Seq<char>,
    pub codec: Seq<char>,
}

impl View for SubtitleStream {
    type V = StreamView;

    open spec fn view(&self) -> StreamView {
        StreamView {
            source_file: self.source_file@,
            stream_id: self.stream_id@,
            language_code: self.language_code@,
            codec: self.codec@,
        }
    }
}

/// The groups of each match of a pattern in a text, in order; group 0 is the
/// whole match.
pub uninterp spec fn regex_captures(pattern: Seq<char>, text: Seq<char>) -> Seq<
    Seq<Option<Seq<char>>>,
>;

/// Relies on `Regex::new`, which fails only on a pattern that is invalid or
/// over the size limit (the stream pattern is neither), and on
/// `Regex::captures_iter`, whose matches are taken over group by group.
#[verifier::external_body]
fn find_captures(pattern: &str, text: &str) -> (r: Result<Vec<Vec<Option<String>>>, regex::Error>)
    ensures
        pattern@ == stream_pattern() ==> r is Ok,
        r matches Ok(v) ==> v@.map_values(
            |c: Vec<Option<String>>| c@.map_values(|g: Option<String>| crate::event::opt_string_view(g)),
        ) == regex_captures(pattern@, text@),
{
    let re = Regex::new(pattern)?;
    Ok(re.captures_iter(text).map(|c| c.iter().map(|m| m.map(|m| m.as_str().to_string())).collect()).collect())
}

#[verifier::external_type_specification]
#[verifier::external_body]
pub struct ExRegexError(regex::Error);

/// The pattern that picks the stream id, language and codec of each subtitle
/// stream out of a media inspector's report.
pub open spec fn stream_pattern() -> Seq<char> {
    "Stream #(\\d+:\\d+).*?\\((\\w+)\\).*?Subtitle: (\\w+)"@
}

/// The stream that one match describes, when groups 1 to 3 all matched.
pub open spec fn stream_of_capture(groups: Seq<Option<Seq<char>>>, source: Seq<char>) -> Option<
    StreamView,
> {
    if groups.len() > 3 && groups[1] is Some && groups[2] is Some && groups[3] is Some {
        Some(
            StreamView {
                source_file: source,
                stream_id: groups[1]->0,
                language_code: normalized_language(groups[2]->0),
                codec: groups[3]->0,
            },
        )
    } else {
        None
    }
}

/// The streams that the matches describe, in order.
pub open spec fn streams_of_captures(caps: Seq<Seq<Option<Seq<char>>>>, source: Seq<char>) -> Seq<
    StreamView,
>
    decreases caps.len(),
{
    if caps.len() == 0 {
        Seq::empty()
    } else {
        let rest = streams_of_captures(caps.drop_last(), source);
        match stream_of_capture(caps.last(), source) {
            Some(s) => rest.push(s),
            None => rest,
        }
    }
}

/// Reads the subtitle streams out of a media inspector's report on
/// `source_file`.
pub fn get_subtitle_streams(report: &str, source_file: &str) -> (r: Result<
    Vec<SubtitleStream>,
    PipelineError,
>)
    ensures
        r matches Ok(v) ==> v@.map_values(|s: SubtitleStream| s@) == streams_of_captures(
            regex_captures(stream_pattern(), report@),
            source_file@,
        ),
        r is Ok,
{
    let caps = match find_captures("Stream #(\\d+:\\d+).*?\\((\\w+)\\).*?Subtitle: (\\w+)", report) {
        Ok(c) => c,
        Err(_) => return Err(PipelineError::BadStreamPattern),
    };
    let ghost cv = caps@.map_values(
        |c: Vec<Option<String>>| c@.map_values(|g: Option<String>| crate::event::opt_string_view(g)),
    );
    let mut out: Vec<SubtitleStream> = Vec::new();
    let mut i: usize = 0;
    while i < caps.len()
        invariant
            0 <= i <= caps@.len(),
            cv == caps@.map_values(
                |c: Vec<Option<String>>| c@.map_values(|g: Option<String>| crate::event::opt_string_view(g)),
            ),
            out@.map_values(|s: SubtitleStream| s@) == streams_of_captures(cv.take(i as int), source_file@),
        decreases caps@.len() - i,
    {
        let c = &caps[i];
        assert(cv.take(i + 1).drop_last() =~= cv.take(i as int));
        assert(cv[i as int] == c@.map_values(|g: Option<String>| crate::event::opt_string_view(g)));
        if c.len() > 3 {
            let g1 = crate::event::copy_opt_string(&c[1]);
            let g2 = crate::event::copy_opt_string(&c[2]);
            let g3 = crate::event::copy_opt_string(&c[3]);
            match (g1, g2, g3) {
                (Some(id), Some(lang), Some(codec)) => {
                    let s = SubtitleStream {
                        source_file: String::from_str(source_file),
                        stream_id: id,
                        language_code: map_language_code(lang.as_str()),
                        codec,
                    };
                    let ghost before = out@;
                    out.push(s);
                    assert(out@.map_values(|s: SubtitleStream| s@) =~= before.map_values(
                        |s: SubtitleStream| s@,
                    ).push(s@));
                },
                _ => {},
            }
        }
        i += 1;
    }
    assert(cv.take(caps@.len() as int) =~= cv);
    Ok(out)
}

/// The languages whose streams are extracted.
pub open spec fn wanted_language(l: Seq<char>) -> bool {
    l == "zh"@ || l == "en"@
}

/// The subtitle codecs whose streams are extracted.
pub open spec fn allowed_codec(c: Seq<char>) -> bool {
    c == "srt"@ || c == "subrip"@ || c == "ass"@ || c == "ssa"@ || c == "mov_text"@ || c
        == "webvtt"@ || c == "ttml"@
}

impl SubtitleStream {
    /// Whether the stream is one to extract: Chinese or English, in a
    /// subtitle codec that can be converted.
    pub fn is_wanted(&self) -> (r: bool)
        ensures
            r == (wanted_language(self.language_code@) && allowed_codec(self.codec@)),
    {
        let l = self.language_code.as_str();
        let c = self.codec.as_str();
        (same_text(l, "zh") || same_text(l, "en")) && (same_text(c, "srt") || same_text(c, "subrip")
            || same_text(c, "ass") || same_text(c, "ssa") || same_text(c, "mov_text") || same_text(
            c,
            "webvtt",
        ) || same_text(c, "ttml"))
    }

    /// Whether the stream is Chinese, whose script variant must be told.
    pub fn is_chinese(&self) -> (r: bool)
        ensures
            r == (self.language_code@ == "zh"@),
    {
        same_text(self.language_code.as_str(), "zh")
    }

    /// Name of the file that the stream is extracted to:
    /// `<stream id with ':' as '_'>.<language>.srt`.
    pub fn dump_file_name(&self) -> (r: String)
        ensures
            r@ == replaced_char(self.stream_id@, ':', '_') + "."@ + self.language_code@ + ".srt"@,
    {
        proof {
            reveal_strlit("_");
        }
        let mut r = replace_char(self.stream_id.as_str(), ':', "_");
        r.append(".");
        r.append(self.language_code.as_str());
        r.append(".srt");
        r
    }
}

/// The name a Simplified-tagged extracted file takes once its track is found
/// to be Traditional: the `.zh.srt` ending becomes `.zh-TW.srt`.
pub open spec fn traditional_name(name: Seq<char>) -> Seq<char> {
    if has_suffix(name, ".zh.srt"@) {
        name.subrange(0, name.len() - ".zh.srt"@.len()) + ".zh-TW.srt"@
    } else {
        name
    }
}

/// The Traditional-tagged form of an extracted file's name.
pub fn retag_traditional(name: &str) -> (r: String)
    ensures
        r@ == traditional_name(name@),
{
    if ends_with(name, ".zh.srt") {
        let k = name.unicode_len() - ".zh.srt".unicode_len();
        let mut r = prefix_of(name, k);
        r.append(".zh-TW.srt");
        r
    } else {
        String::from_str(name)
    }
}

/// `i` is the first of `names` that ends with `suffix`.
pub open spec fn is_first_with_suffix(names: Seq<Seq<char>>, suffix: Seq<char>, i: int) -> bool {
    &&& 0 <= i < names.len()
    &&& has_suffix(names[i], suffix)
    &&& forall|j: int| 0 <= j < i ==> !has_suffix(#[trigger] names[j], suffix)
}

pub open spec fn names_view(names: Seq<String>) -> Seq<Seq<char>> {
    names.map_values(|s: String| s@)
}

/// The first of the directory entries `names` that ends with `suffix`.
pub fn get_best_srt(names: &Vec<String>, suffix: &str) -> (r: Option<usize>)
    ensures
        r is None <==> forall|j: int| 0 <= j < names@.len() ==> !has_suffix(#[trigger] names@[j]@, suffix@),
        r matches Some(i) ==> is_first_with_suffix(names_view(names@), suffix@, i as int),
{
    let mut i: usize = 0;
    while i < names.len()
        invariant
            0 <= i <= names@.len(),
            forall|j: int| 0 <= j < i ==> !has_suffix(#[trigger] names@[j]@, suffix@),
        decreases names@.len() - i,
    {
        if ends_with(names[i].as_str(), suffix) {
            assert forall|j: int| 0 <= j < i implies !has_suffix(
                #[trigger] names_view(names@)[j],
                suffix@,
            ) by {
                assert(names_view(names@)[j] == names@[j]@);
            }
            return Some(i);
        }
        i += 1;
    }
    None
}

/// The candidate among `names` that ends with `suffix`, the first one found.
pub open spec fn picks_candidate(names: Seq<Seq<char>>, suffix: Seq<char>, r: Option<Seq<char>>) -> bool {
    match r {
        None => forall|j: int| 0 <= j < names.len() ==> !has_suffix(#[trigger] names[j], suffix),
        Some(s) => exists|i: int| is_first_with_suffix(names, suffix, i) && s == names[i],
    }
}

fn best_with_suffix(names: &Vec<String>, suffix: &str) -> (r: Option<String>)
    ensures
        picks_candidate(names_view(names@), suffix@, crate::event::opt_string_view(r)),
{
    match get_best_srt(names, suffix) {
        Some(i) => Some(names[i].clone()),
        None => {
            assert forall|j: int| 0 <= j < names@.len() implies !has_suffix(
                #[trigger] names_view(names@)[j],
                suffix@,
            ) by {
                assert(names_view(names@)[j] == names@[j]@);
            }
            None
        },
    }
}

/// The English candidate: the first entry ending in `.en.srt`.
pub fn get_best_srt_en(names: &Vec<String>) -> (r: Option<String>)
    ensures
        picks_candidate(names_view(names@), ".en.srt"@, crate::event::opt_string_view(r)),
{
    best_with_suffix(names, ".en.srt")
}

/// The Simplified Chinese candidate: the first entry ending in `.zh.srt`.
pub fn get_best_srt_chs(names: &Vec<String>) -> (r: Option<String>)
    ensures
        picks_candidate(names_view(names@), ".zh.srt"@, crate::event::opt_string_view(r)),
{
    best_with_suffix(names, ".zh.srt")
}

/// The Traditional Chinese candidate: the first entry ending in `.zh-TW.srt`.
pub fn get_best_srt_cht(names: &Vec<String>) -> (r: Option<String>)
    ensures
        picks_candidate(names_view(names@), ".zh-TW.srt"@, crate::event::opt_string_view(r)),
{
    best_with_suffix(names, ".zh-TW.srt")
}

/// One publishing step of a download run.
#[derive(Debug)]
pub enum PublishStep {
    /// Copy the candidate `source` next to the media file, under the media
    /// file's name with `extension` in place of its own.
    Copy { source: String, extension: String },
    /// Merge `bottom` with `top` pinned to the top of the frame, and publish
    /// the result next to the media file under `extension`.
    Merge { bottom: String, top: String, extension: String },
}

/// What a publishing step holds, as mathematical values.
pub enum StepView {
    Copy(Seq<char>, Seq<char>),
    Merge(Seq<char>, Seq<char>, Seq<char>),
}

impl View for PublishStep {
    type V = StepView;

    open spec fn view(&self) -> StepView {
        match self {
            PublishStep::Copy { source, extension } => StepView::Copy(source@, extension@),
            PublishStep::Merge { bottom, top, extension } => StepView::Merge(
                bottom@,
                top@,
                extension@,
            ),
        }
    }
}

/// The steps for the chosen candidates: nothing without an English one;
/// else publish it as `en.srt`, then merge each Chinese variant found (as
/// bottom) with it (as top) into `zh.srt` and `zh-TW.srt`.
pub open spec fn plan_of(
    en: Option<Seq<char>>,
    chs: Option<Seq<char>>,
    cht: Option<Seq<char>>,
) -> Seq<StepView> {
    match en {
        None => Seq::empty(),
        Some(e) => {
            let simplified = match chs {
                Some(c) => seq![StepView::Merge(c, e, "zh.srt"@)],
                None => Seq::empty(),
            };
            let traditional = match cht {
                Some(c) => seq![StepView::Merge(c, e, "zh-TW.srt"@)],
                None => Seq::empty(),
            };
            seq![StepView::Copy(e, "en.srt"@)] + simplified + traditional
        },
    }
}

/// The publishing steps for the extracted files `names` of a download run.
pub fn publication_plan(names: &Vec<String>) -> (r: Vec<PublishStep>)
    ensures
        exists|en: Option<Seq<char>>, chs: Option<Seq<char>>, cht: Option<Seq<char>>|
            picks_candidate(names_view(names@), ".en.srt"@, en) && picks_candidate(
                names_view(names@),
                ".zh.srt"@,
                chs,
            ) && picks_candidate(names_view(names@), ".zh-TW.srt"@, cht) && #[trigger] plan_of(
                en,
                chs,
                cht,
            ) == r@.map_values(|s: PublishStep| s@),
{
    let en = get_best_srt_en(names);
    let chs = get_best_srt_chs(names);
    let cht = get_best_srt_cht(names);
    let ghost (ev, sv, tv) = (
        crate::event::opt_string_view(en),
        crate::event::opt_string_view(chs),
        crate::event::opt_string_view(cht),
    );
    let mut r: Vec<PublishStep> = Vec::new();
    match en {
        None => {
            assert(r@.map_values(|s: PublishStep| s@) =~= plan_of(ev, sv, tv));
        },
        Some(e) => {
            r.push(PublishStep::Copy { source: e.clone(), extension: String::from_str("en.srt") });
            if let Some(c) = chs {
                r.push(
                    PublishStep::Merge {
                        bottom: c,
                        top: e.clone(),
                        extension: String::from_str("zh.srt"),
                    },
                );
            }
            if let Some(c) = cht {
                r.push(
                    PublishStep::Merge {
                        bottom: c,
                        top: e.clone(),
                        extension: String::from_str("zh-TW.srt"),
                    },
                );
            }
            assert(r@.map_values(|s: PublishStep| s@) =~= plan_of(ev, sv, tv));
        },
    }
    r
}

} // verus!
