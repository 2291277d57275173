//! The timed-text event model: one cue, and a track of cues.

use vstd::prelude::*;

verus! {

/// A concrete subtitle format whose events the library can hold.
#[derive(Clone, Copy, Debug, PartialEq, Eq, Structural)]
pub enum SubtitleFormat {
    SubRip,
    Ass,
    Ssa,
    WebVtt,
}

/// What a timed-text event holds, as mathematical values.
pub struct EventView {
    pub number: nat,
    pub start: int,
    pub end: int,
    pub text: Seq<char>,
    pub style: Option<Seq<char>>,
}

/// One subtitle cue. Times are in milliseconds from the start of the media.
#[derive(Debug)]
pub struct TimedTextEvent {
    /// Sequence identifier (the line number of a SubRip cue).
    pub number: usize,
    pub start: i64,
    pub end: i64,
    pub text: String,
    /// Name of the visual style class the cue refers to, if any.
    pub style: Option<String>,
}

/// The characters of an optional string.
pub open spec fn opt_string_view(s: Option<String>) -> Option<Seq<char>> {
    match s {
        Some(t) => Some(t@),
        None => None,
    }
}

impl View for TimedTextEvent {
    type V = EventView;

    open spec fn view(&self) -> EventView {
        EventView {
            number: self.number as nat,
            start: self.start as int,
            end: self.end as int,
            text: self.text@,
            style: opt_string_view(self.style),
        }
    }
}

/// A copy of an optional string.
pub fn copy_opt_string(s: &Option<String>) -> (r: Option<String>)
    ensures
        opt_string_view(r) == opt_string_view(*s),
{
    match s {
        Some(t) => Some(t.clone()),
        None => None,
    }
}

impl TimedTextEvent {
    /// A cue with the given timing and text, numbered 0 and without a style.
    pub fn new(start: i64, end: i64, text: String) -> (r: Self)
        ensures
            r@ == (EventView { number: 0, start: start as int, end: end as int, text: text@, style: None }),
    {
        TimedTextEvent { number: 0, start, end, text, style: None }
    }

    /// A copy holding the same values.
    pub fn duplicate(&self) -> (r: Self)
        ensures
            r@ == self@,
    {
        TimedTextEvent {
            number: self.number,
            start: self.start,
            end: self.end,
            text: self.text.clone(),
            style: copy_opt_string(&self.style),
        }
    }

    /// Number of characters (not bytes) of the text.
    pub fn character_count(&self) -> (n: usize)
        ensures
            n == self.text@.len(),
    {
        self.text.as_str().unicode_len()
    }
}

/// The values of a sequence of cues.
pub open spec fn view_events(s: Seq<TimedTextEvent>) -> Seq<EventView> {
    s.map_values(|e: TimedTextEvent| e@)
}

/// An ordered sequence of cues in one concrete format, with the names of the
/// style classes that the track defines.
#[derive(Debug)]
pub struct SubtitleTrack {
    pub format: SubtitleFormat,
    pub events: Vec<TimedTextEvent>,
    pub styles: Vec<String>,
}

/// What a track holds, as mathematical values.
pub struct TrackView {
    pub format: SubtitleFormat,
    pub events: Seq<EventView>,
    pub styles: Seq<Seq<char>>,
}

impl View for SubtitleTrack {
    type V = TrackView;

    open spec fn view(&self) -> TrackView {
        TrackView {
            format: self.format,
            events: view_events(self.events@),
            styles: self.styles@.map_values(|s: String| s@),
        }
    }
}

impl SubtitleTrack {
    /// A track of the given format from its cues, with no style classes.
    pub fn from_events(format: SubtitleFormat, events: Vec<TimedTextEvent>) -> (r: Self)
        ensures
            r@.format == format,
            r@.events == view_events(events@),
            r@.styles.len() == 0,
    {
        SubtitleTrack { format, events, styles: Vec::new() }
    }

    /// Number of cues.
    pub fn len(&self) -> (n: usize)
        ensures
            n == self@.events.len(),
    {
        self.events.len()
    }
}

} // verus!
