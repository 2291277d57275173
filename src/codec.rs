//! The calls into the aspasia subtitle library: parsing, stripping of inline
//! formatting, format conversion and rendering.

use std::str::FromStr;

use aspasia::substation::SubStationEventKind;
use aspasia::substation::ass::{AssEvent, AssScriptInfo};
use aspasia::subrip::SubRipEvent;
use aspasia::substation::ssa::{SsaEvent, SsaScriptInfo};
use aspasia::webvtt::WebVttCue;
use aspasia::{AssSubtitle, Moment, SsaSubtitle, SubRipSubtitle, Subtitle, TextEvent, WebVttSubtitle};
use vstd::prelude::*;

use crate::event::{view_events, EventView, TimedTextEvent};
use crate::text::{ascii_after_marks, digit_runs_shorter};

verus! {

#[verifier::external_type_specification]
#[verifier::external_body]
pub struct ExCodecError(aspasia::Error);

/// The cues that SubRip text parses to.
pub uninterp spec fn subrip_parsed(text: Seq<char>) -> Seq<EventView>;

/// The dialogue cues and the style names that Advanced SubStation text parses to.
pub uninterp spec fn ass_parsed(text: Seq<char>) -> (Seq<EventView>, Seq<Seq<char>>);

/// The cues of Advanced SubStation text, converted to SubRip cues.
pub uninterp spec fn ass_parsed_as_subrip(text: Seq<char>) -> Seq<EventView>;

/// The text of an Advanced SubStation cue with its override blocks removed.
pub uninterp spec fn ass_plain(text: Seq<char>) -> Seq<char>;

/// The text of a SubRip cue with its tags removed.
pub uninterp spec fn subrip_plain(text: Seq<char>) -> Seq<char>;

/// SubRip file content for the given cues.
pub uninterp spec fn subrip_rendered(events: Seq<EventView>) -> Seq<char>;

/// Advanced SubStation file content for the given dialogue cues.
pub uninterp spec fn ass_rendered(events: Seq<EventView>) -> Seq<char>;

/// Text whose timestamps aspasia can read: `Moment::from_timestamp`
/// multiplies the hour field by 3,600,000 in `i64`, which overflows on hour
/// fields of 13 digits or more.
pub open spec fn parsable(text: Seq<char>) -> bool {
    digit_runs_shorter(text, 13)
}

/// Relies on `SubRipSubtitle::from_str`, which always returns `Ok` with the
/// parsed cues; each cue is taken over field by field.
#[verifier::external_body]
pub(crate) fn parse_subrip(text: &str) -> (r: Result<Vec<TimedTextEvent>, aspasia::Error>)
    requires
        parsable(text@),
    ensures
        r is Ok,
        r matches Ok(v) ==> view_events(v@) == subrip_parsed(text@),
{
    let s = SubRipSubtitle::from_str(text)?;
    Ok(s.events().iter().map(|e| TimedTextEvent {
        number: e.line_number,
        start: e.start.into(),
        end: e.end.into(),
        text: e.text.clone(),
        style: None,
    }).collect())
}

/// Relies on `AssSubtitle::from_str`, which always returns `Ok`; the dialogue
/// cues and the names of the defined styles are taken over.
#[verifier::external_body]
pub(crate) fn parse_ass(text: &str) -> (r: Result<(Vec<TimedTextEvent>, Vec<String>), aspasia::Error>)
    requires
        parsable(text@),
    ensures
        r is Ok,
        r matches Ok(p) ==> (view_events(p.0@), p.1@.map_values(|s: String| s@)) == ass_parsed(text@),
{
    let s = AssSubtitle::from_str(text)?;
    let events = s.events().iter().map(|e| TimedTextEvent {
        number: 0,
        start: e.start.into(),
        end: e.end.into(),
        text: e.text.clone(),
        style: e.style.clone(),
    }).collect();
    Ok((events, s.styles().iter().map(|st| st.name.clone()).collect()))
}

/// Advanced SubStation text whose colour overrides aspasia can convert: the
/// conversion slices the six bytes after each `&H` (with `\N` already
/// turned into one character), so twelve characters there must be ASCII.
pub open spec fn ass_convertible(text: Seq<char>) -> bool {
    ascii_after_marks(text, "&H"@, 12)
}

/// SubRip text whose font colours aspasia can convert: the conversion slices
/// the six bytes after each `<font color="#`.
pub open spec fn subrip_convertible(text: Seq<char>) -> bool {
    ascii_after_marks(text, "<font color=\"#"@, 6)
}

/// Relies on `AssSubtitle::from_str` and aspasia's conversion
/// `SubRipSubtitle::from(AssSubtitle)`, which keeps timing and converts the
/// text of each dialogue cue; that conversion panics on the colour overrides
/// that `ass_convertible` leaves out.
#[verifier::external_body]
pub(crate) fn parse_ass_as_subrip(text: &str) -> (r: Result<Vec<TimedTextEvent>, aspasia::Error>)
    requires
        parsable(text@),
        ass_convertible(text@),
    ensures
        r is Ok,
        r matches Ok(v) ==> view_events(v@) == ass_parsed_as_subrip(text@),
{
    let s = SubRipSubtitle::from(AssSubtitle::from_str(text)?);
    Ok(s.events().iter().map(|e| TimedTextEvent {
        number: e.line_number,
        start: e.start.into(),
        end: e.end.into(),
        text: e.text.clone(),
        style: None,
    }).collect())
}

/// The dialogue cues of SubRip text, converted to Advanced SubStation cues.
pub uninterp spec fn subrip_parsed_as_ass(text: Seq<char>) -> Seq<EventView>;

/// Relies on `SubRipSubtitle::from_str`, which always returns `Ok`, and on
/// aspasia's conversion `AssSubtitle::from(SubRipSubtitle)`, which keeps timing
/// and converts the text of each cue; that conversion panics on the font
/// colours that `subrip_convertible` leaves out.
#[verifier::external_body]
pub(crate) fn parse_subrip_as_ass(text: &str) -> (r: Result<Vec<TimedTextEvent>, aspasia::Error>)
    requires
        parsable(text@),
        subrip_convertible(text@),
    ensures
        r is Ok,
        r matches Ok(v) ==> view_events(v@) == subrip_parsed_as_ass(text@),
{
    let s = AssSubtitle::from(SubRipSubtitle::from_str(text)?);
    Ok(s.events().iter().map(|e| TimedTextEvent {
        number: 0,
        start: e.start.into(),
        end: e.end.into(),
        text: e.text.clone(),
        style: e.style.clone(),
    }).collect())
}

/// Relies on `AssEvent::unformatted_text`. Its parser either consumes the
/// whole text, keeping only stretches of it without `{`, or fails and hands
/// the text back unchanged: so a text without `{` comes back unchanged, no
/// character is added, and stripping the result changes nothing.
#[verifier::external_body]
pub(crate) fn strip_ass_text(text: &str) -> (r: String)
    ensures
        r@ == ass_plain(text@),
        !text@.contains('{') ==> r@ == text@,
        r@ == text@ || !r@.contains('{'),
        ass_plain(r@) == r@,
        forall|c: char| #[trigger] r@.contains(c) ==> text@.contains(c),
{
    let e = AssEvent {
        kind: SubStationEventKind::Dialogue,
        layer: 0,
        start: Moment::from(0),
        end: Moment::from(0),
        style: None,
        name: None,
        margin_l: 0,
        margin_r: 0,
        margin_v: 0,
        effect: None,
        text: text.to_string(),
    };
    e.unformatted_text().into_owned()
}

/// Relies on `SubRipEvent::unformatted_text` (also what `as_plaintext` returns
/// for a SubRip cue). Its parser drops complete `<..>` and `{..}` tags, keeps
/// stretches without `<` and `{`, and keeps an unclosed tag and all after it
/// as it stands: so a text without `<` and `{` comes back unchanged, no
/// character is added, and stripping the result changes nothing.
#[verifier::external_body]
pub(crate) fn strip_subrip_text(text: &str) -> (r: String)
    ensures
        r@ == subrip_plain(text@),
        !text@.contains('<') && !text@.contains('{') ==> r@ == text@,
        subrip_plain(r@) == r@,
        forall|c: char| #[trigger] r@.contains(c) ==> text@.contains(c),
{
    let e = SubRipEvent {
        line_number: 0,
        text: text.to_string(),
        start: Moment::from(0),
        end: Moment::from(0),
        coordinates: None,
    };
    e.unformatted_text().into_owned()
}

/// Relies on `SubRipSubtitle::from_events` and its `Display` impl.
#[verifier::external_body]
pub(crate) fn render_subrip(events: &Vec<TimedTextEvent>) -> (r: String)
    ensures
        r@ == subrip_rendered(view_events(events@)),
{
    SubRipSubtitle::from_events(events.iter().map(|e| SubRipEvent {
        line_number: e.number,
        text: e.text.clone(),
        start: Moment::from(e.start),
        end: Moment::from(e.end),
        coordinates: None,
    }).collect()).to_string()
}

/// Relies on `AssSubtitle::builder` with the default script info and the
/// `Display` impl of `AssSubtitle`.
#[verifier::external_body]
pub(crate) fn render_ass(events: &Vec<TimedTextEvent>) -> (r: String)
    ensures
        r@ == ass_rendered(view_events(events@)),
{
    let dialogue = events.iter().map(|e| AssEvent {
        kind: SubStationEventKind::Dialogue,
        layer: 0,
        start: Moment::from(e.start),
        end: Moment::from(e.end),
        style: e.style.clone(),
        name: None,
        margin_l: 0,
        margin_r: 0,
        margin_v: 0,
        effect: None,
        text: e.text.clone(),
    }).collect();
    AssSubtitle::builder().script_info(AssScriptInfo::default()).dialogue(dialogue).build().to_string()
}

/// The dialogue cues and the style names that SubStation Alpha text parses to.
pub uninterp spec fn ssa_parsed(text: Seq<char>) -> (Seq<EventView>, Seq<Seq<char>>);

/// The cues that WebVTT text parses to.
pub uninterp spec fn webvtt_parsed(text: Seq<char>) -> Seq<EventView>;

/// The cues of SubStation Alpha text, converted to SubRip cues.
pub uninterp spec fn ssa_parsed_as_subrip(text: Seq<char>) -> Seq<EventView>;

/// The cues of WebVTT text, converted to SubRip cues.
pub uninterp spec fn webvtt_parsed_as_subrip(text: Seq<char>) -> Seq<EventView>;

/// The cues of SubStation Alpha text, as Advanced SubStation cues.
pub uninterp spec fn ssa_parsed_as_ass(text: Seq<char>) -> Seq<EventView>;

/// The cues of WebVTT text, converted to Advanced SubStation cues.
pub uninterp spec fn webvtt_parsed_as_ass(text: Seq<char>) -> Seq<EventView>;

/// The text of a SubStation Alpha cue with its override blocks removed.
pub uninterp spec fn ssa_plain(text: Seq<char>) -> Seq<char>;

/// The text of a WebVTT cue with its tags removed.
pub uninterp spec fn webvtt_plain(text: Seq<char>) -> Seq<char>;

/// SubStation Alpha file content for the given dialogue cues.
pub uninterp spec fn ssa_rendered(events: Seq<EventView>) -> Seq<char>;

/// WebVTT file content for the given cues.
pub uninterp spec fn webvtt_rendered(events: Seq<EventView>) -> Seq<char>;

/// Relies on `SsaSubtitle::from_str`, which always returns `Ok`; the dialogue
/// cues and the names of the defined styles are taken over.
#[verifier::external_body]
pub(crate) fn parse_ssa(text: &str) -> (r: Result<(Vec<TimedTextEvent>, Vec<String>), aspasia::Error>)
    requires
        parsable(text@),
    ensures
        r is Ok,
        r matches Ok(p) ==> (view_events(p.0@), p.1@.map_values(|s: String| s@)) == ssa_parsed(text@),
{
    let s = SsaSubtitle::from_str(text)?;
    let events = s.events().iter().map(|e| TimedTextEvent {
        number: 0, start: e.start.into(), end: e.end.into(), text: e.text.clone(), style: e.style.clone(),
    }).collect();
    Ok((events, s.styles().iter().map(|st| st.name.clone()).collect()))
}

/// Relies on `WebVttSubtitle::from_str`, which always returns `Ok` with the
/// parsed cues.
#[verifier::external_body]
pub(crate) fn parse_webvtt(text: &str) -> (r: Result<Vec<TimedTextEvent>, aspasia::Error>)
    requires
        parsable(text@),
    ensures
        r is Ok,
        r matches Ok(v) ==> view_events(v@) == webvtt_parsed(text@),
{
    let s = WebVttSubtitle::from_str(text)?;
    Ok(s.events().iter().map(|e| TimedTextEvent {
        number: 0, start: e.start.into(), end: e.end.into(), text: e.text.clone(), style: None,
    }).collect())
}

/// Relies on `SsaSubtitle::from_str` and `SubRipSubtitle::from(SsaSubtitle)`,
/// whose colour conversion panics on the overrides that `ass_convertible`
/// leaves out.
#[verifier::external_body]
pub(crate) fn parse_ssa_as_subrip(text: &str) -> (r: Result<Vec<TimedTextEvent>, aspasia::Error>)
    requires
        parsable(text@),
        ass_convertible(text@),
    ensures
        r is Ok,
        r matches Ok(v) ==> view_events(v@) == ssa_parsed_as_subrip(text@),
{
    let s = SubRipSubtitle::from(SsaSubtitle::from_str(text)?);
    Ok(s.events().iter().map(|e| TimedTextEvent {
        number: e.line_number, start: e.start.into(), end: e.end.into(), text: e.text.clone(), style: None,
    }).collect())
}

/// Relies on `WebVttSubtitle::from_str` and `SubRipSubtitle::from(WebVttSubtitle)`.
#[verifier::external_body]
pub(crate) fn parse_webvtt_as_subrip(text: &str) -> (r: Result<Vec<TimedTextEvent>, aspasia::Error>)
    requires
        parsable(text@),
    ensures
        r is Ok,
        r matches Ok(v) ==> view_events(v@) == webvtt_parsed_as_subrip(text@),
{
    let s = SubRipSubtitle::from(WebVttSubtitle::from_str(text)?);
    Ok(s.events().iter().map(|e| TimedTextEvent {
        number: e.line_number, start: e.start.into(), end: e.end.into(), text: e.text.clone(), style: None,
    }).collect())
}

/// Relies on `SsaSubtitle::from_str` and `AssSubtitle::from(SsaSubtitle)`,
/// which keeps each cue's text and style.
#[verifier::external_body]
pub(crate) fn parse_ssa_as_ass(text: &str) -> (r: Result<Vec<TimedTextEvent>, aspasia::Error>)
    requires
        parsable(text@),
    ensures
        r is Ok,
        r matches Ok(v) ==> view_events(v@) == ssa_parsed_as_ass(text@),
{
    let s = AssSubtitle::from(SsaSubtitle::from_str(text)?);
    Ok(s.events().iter().map(|e| TimedTextEvent {
        number: 0, start: e.start.into(), end: e.end.into(), text: e.text.clone(), style: e.style.clone(),
    }).collect())
}

/// Relies on `WebVttSubtitle::from_str` and `AssSubtitle::from(WebVttSubtitle)`.
#[verifier::external_body]
pub(crate) fn parse_webvtt_as_ass(text: &str) -> (r: Result<Vec<TimedTextEvent>, aspasia::Error>)
    requires
        parsable(text@),
    ensures
        r is Ok,
        r matches Ok(v) ==> view_events(v@) == webvtt_parsed_as_ass(text@),
{
    let s = AssSubtitle::from(WebVttSubtitle::from_str(text)?);
    Ok(s.events().iter().map(|e| TimedTextEvent {
        number: 0, start: e.start.into(), end: e.end.into(), text: e.text.clone(), style: e.style.clone(),
    }).collect())
}

/// Relies on `SsaEvent::unformatted_text`, whose parser has the shape of the
/// Advanced SubStation one without drawings: it consumes the whole text,
/// keeping only stretches of it without `{`, or fails and hands the text back.
#[verifier::external_body]
pub(crate) fn strip_ssa_text(text: &str) -> (r: String)
    ensures
        r@ == ssa_plain(text@),
        !text@.contains('{') ==> r@ == text@,
        ssa_plain(r@) == r@,
        forall|c: char| #[trigger] r@.contains(c) ==> text@.contains(c),
{
    let e = SsaEvent {
        kind: SubStationEventKind::Dialogue, marked: false, start: Moment::from(0), end: Moment::from(0),
        style: None, name: None, margin_l: 0, margin_r: 0, margin_v: 0, effect: None, text: text.to_string(),
    };
    e.unformatted_text().into_owned()
}

/// Relies on `WebVttCue::unformatted_text`, whose parser consumes the whole
/// text, keeping only stretches of it without `<`, or fails and hands the
/// text back.
#[verifier::external_body]
pub(crate) fn strip_webvtt_text(text: &str) -> (r: String)
    ensures
        r@ == webvtt_plain(text@),
        !text@.contains('<') ==> r@ == text@,
        webvtt_plain(r@) == r@,
        forall|c: char| #[trigger] r@.contains(c) ==> text@.contains(c),
{
    let e = WebVttCue {
        identifier: None, text: text.to_string(), settings: None, start: Moment::from(0), end: Moment::from(0),
    };
    e.unformatted_text().into_owned()
}

/// Relies on `SsaSubtitle::builder` with the default script info and the
/// `Display` impl of `SsaSubtitle`.
#[verifier::external_body]
pub(crate) fn render_ssa(events: &Vec<TimedTextEvent>) -> (r: String)
    ensures
        r@ == ssa_rendered(view_events(events@)),
{
    let dialogue = events.iter().map(|e| SsaEvent {
        kind: SubStationEventKind::Dialogue, marked: false, start: Moment::from(e.start), end: Moment::from(e.end),
        style: e.style.clone(), name: None, margin_l: 0, margin_r: 0, margin_v: 0, effect: None, text: e.text.clone(),
    }).collect();
    SsaSubtitle::builder().script_info(SsaScriptInfo::default()).dialogue(dialogue).build().to_string()
}

/// Relies on `WebVttSubtitle::builder` and the `Display` impl of `WebVttSubtitle`.
#[verifier::external_body]
pub(crate) fn render_webvtt(events: &Vec<TimedTextEvent>) -> (r: String)
    ensures
        r@ == webvtt_rendered(view_events(events@)),
{
    let cues = events.iter().map(|e| WebVttCue {
        identifier: None, text: e.text.clone(), settings: None, start: Moment::from(e.start), end: Moment::from(e.end),
    }).collect();
    WebVttSubtitle::builder().cues(cues).build().to_string()
}

} // verus!
