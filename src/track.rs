//! Loading, stripping and rendering of whole tracks.

use vstd::prelude::*;

use crate::codec::{
    ass_convertible, ass_parsed, ass_parsed_as_subrip, ass_plain, ass_rendered, parsable, parse_ass,
    parse_ass_as_subrip, parse_ssa, parse_ssa_as_ass, parse_ssa_as_subrip, parse_subrip,
    parse_subrip_as_ass, parse_webvtt, parse_webvtt_as_ass, parse_webvtt_as_subrip, render_ass,
    render_ssa, render_subrip, render_webvtt, ssa_parsed, ssa_parsed_as_ass, ssa_parsed_as_subrip,
    ssa_plain, ssa_rendered, strip_ass_text, strip_ssa_text, strip_subrip_text, strip_webvtt_text,
    subrip_convertible, subrip_parsed, subrip_parsed_as_ass, subrip_plain, subrip_rendered,
    webvtt_parsed, webvtt_parsed_as_ass, webvtt_parsed_as_subrip, webvtt_plain, webvtt_rendered,
};
use crate::clean::{blanks_by_style, suppressed};
use crate::event::{view_events, EventView, SubtitleFormat, SubtitleTrack, TrackView};
use crate::text::{check_ascii_after_marks, check_digit_runs_shorter};

verus! {

/// The plain text of a cue of the given format: inline formatting removed.
/// A text without any tag opener is already plain.
pub open spec fn plain_text(format: SubtitleFormat, t: Seq<char>) -> Seq<char> {
    match format {
        SubtitleFormat::Ass => if t.contains('{') { ass_plain(t) } else { t },
        SubtitleFormat::SubRip => if t.contains('{') || t.contains('<') { subrip_plain(t) } else { t },
        SubtitleFormat::Ssa => if t.contains('{') { ssa_plain(t) } else { t },
        SubtitleFormat::WebVtt => if t.contains('<') { webvtt_plain(t) } else { t },
    }
}

/// A track with the formatting of every cue removed and no style classes.
pub open spec fn stripped(t: TrackView) -> TrackView {
    TrackView {
        format: t.format,
        events: t.events.map_values(|e: EventView| EventView { text: plain_text(t.format, e.text), ..e }),
        styles: Seq::empty(),
    }
}

/// The track that text of the given format loads to.
pub open spec fn loaded(text: Seq<char>, format: SubtitleFormat) -> TrackView {
    match format {
        SubtitleFormat::SubRip => TrackView { format, events: subrip_parsed(text), styles: Seq::empty() },
        SubtitleFormat::Ass => TrackView {
            format,
            events: ass_parsed(text).0,
            styles: ass_parsed(text).1,
        },
        SubtitleFormat::Ssa => TrackView {
            format,
            events: ssa_parsed(text).0,
            styles: ssa_parsed(text).1,
        },
        SubtitleFormat::WebVtt => TrackView { format, events: webvtt_parsed(text), styles: Seq::empty() },
    }
}

/// The SubRip cues that text of the given format converts to.
pub open spec fn loaded_as_subrip(text: Seq<char>, format: SubtitleFormat) -> Seq<EventView> {
    match format {
        SubtitleFormat::SubRip => subrip_parsed(text),
        SubtitleFormat::Ass => ass_parsed_as_subrip(text),
        SubtitleFormat::Ssa => ssa_parsed_as_subrip(text),
        SubtitleFormat::WebVtt => webvtt_parsed_as_subrip(text),
    }
}

/// The Advanced SubStation cues that text of the given format converts to.
pub open spec fn loaded_as_ass(text: Seq<char>, format: SubtitleFormat) -> Seq<EventView> {
    match format {
        SubtitleFormat::SubRip => subrip_parsed_as_ass(text),
        SubtitleFormat::Ass => ass_parsed(text).0,
        SubtitleFormat::Ssa => ssa_parsed_as_ass(text),
        SubtitleFormat::WebVtt => webvtt_parsed_as_ass(text),
    }
}

/// Text of the given format that converts to SubRip without fault.
pub open spec fn convertible_to_subrip(text: Seq<char>, format: SubtitleFormat) -> bool {
    (format == SubtitleFormat::Ass || format == SubtitleFormat::Ssa) ==> ass_convertible(text)
}

/// Text of the given format that converts to Advanced SubStation without fault.
pub open spec fn convertible_to_ass(text: Seq<char>, format: SubtitleFormat) -> bool {
    format == SubtitleFormat::SubRip ==> subrip_convertible(text)
}

/// Whether subtitle text has timestamps that can be read without fault.
pub fn can_parse(text: &str) -> (r: bool)
    ensures
        r == parsable(text@),
{
    check_digit_runs_shorter(text, 13)
}

/// Whether text of the given format converts to SubRip without fault.
pub fn can_convert_to_subrip(text: &str, format: SubtitleFormat) -> (r: bool)
    ensures
        r == convertible_to_subrip(text@, format),
{
    match format {
        SubtitleFormat::Ass | SubtitleFormat::Ssa => check_ascii_after_marks(text, "&H", 12),
        SubtitleFormat::SubRip | SubtitleFormat::WebVtt => true,
    }
}

/// Whether text of the given format converts to Advanced SubStation without fault.
pub fn can_convert_to_ass(text: &str, format: SubtitleFormat) -> (r: bool)
    ensures
        r == convertible_to_ass(text@, format),
{
    match format {
        SubtitleFormat::SubRip => check_ascii_after_marks(text, "<font color=\"#", 6),
        SubtitleFormat::Ass | SubtitleFormat::Ssa | SubtitleFormat::WebVtt => true,
    }
}

/// File content of a track in its own format.
pub open spec fn rendered(t: TrackView) -> Seq<char> {
    match t.format {
        SubtitleFormat::SubRip => subrip_rendered(t.events),
        SubtitleFormat::Ass => ass_rendered(t.events),
        SubtitleFormat::Ssa => ssa_rendered(t.events),
        SubtitleFormat::WebVtt => webvtt_rendered(t.events),
    }
}

/// The designated character that only Traditional Chinese writes.
pub open spec fn traditional_marker() -> char {
    '們'
}

/// Whether some cue's plain text holds the Traditional-only character.
pub open spec fn is_traditional(t: TrackView) -> bool {
    exists|i: int|
        0 <= i < t.events.len() && #[trigger] plain_text(t.format, t.events[i].text).contains(
            traditional_marker(),
        )
}

/// Whether `s` holds the character `c`.
pub fn text_contains(s: &str, c: char) -> (r: bool)
    ensures
        r == s@.contains(c),
{
    let n = s.unicode_len();
    let mut i: usize = 0;
    while i < n
        invariant
            n == s@.len(),
            0 <= i <= n,
            forall|j: int| 0 <= j < i ==> s@[j] != c,
        decreases n - i,
    {
        if s.get_char(i) == c {
            return true;
        }
        i += 1;
    }
    false
}

/// The plain text of one cue of the given format.
pub fn plain_text_of(format: SubtitleFormat, t: &String) -> (r: String)
    ensures
        r@ == plain_text(format, t@),
        plain_text(format, r@) == r@,
        forall|c: char| #[trigger] r@.contains(c) ==> t@.contains(c),
{
    match format {
        SubtitleFormat::Ass => {
            if text_contains(t.as_str(), '{') {
                strip_ass_text(t.as_str())
            } else {
                t.clone()
            }
        },
        SubtitleFormat::SubRip => {
            if text_contains(t.as_str(), '{') || text_contains(t.as_str(), '<') {
                strip_subrip_text(t.as_str())
            } else {
                t.clone()
            }
        },
        SubtitleFormat::Ssa => {
            if text_contains(t.as_str(), '{') {
                strip_ssa_text(t.as_str())
            } else {
                t.clone()
            }
        },
        SubtitleFormat::WebVtt => {
            if text_contains(t.as_str(), '<') {
                strip_webvtt_text(t.as_str())
            } else {
                t.clone()
            }
        },
    }
}

impl SubtitleTrack {
    /// Loads a track from file content of the given format.
    pub fn load(text: &str, format: SubtitleFormat) -> (r: SubtitleTrack)
        requires
            parsable(text@),
        ensures
            r@ == loaded(text@, format),
    {
        match format {
            SubtitleFormat::SubRip => {
                let r = parse_subrip(text);
                match r {
                    Ok(events) => {
                        let r = SubtitleTrack { format, events, styles: Vec::new() };
                        assert(r@.styles =~= Seq::<Seq<char>>::empty());
                        r
                    },
                    Err(_) => {
                        assert(false);
                        SubtitleTrack { format, events: Vec::new(), styles: Vec::new() }
                    },
                }
            },
            SubtitleFormat::Ass => {
                let r = parse_ass(text);
                match r {
                    Ok((events, styles)) => SubtitleTrack { format, events, styles },
                    Err(_) => {
                        assert(false);
                        SubtitleTrack { format, events: Vec::new(), styles: Vec::new() }
                    },
                }
            },
            SubtitleFormat::Ssa => {
                let r = parse_ssa(text);
                match r {
                    Ok((events, styles)) => SubtitleTrack { format, events, styles },
                    Err(_) => {
                        assert(false);
                        SubtitleTrack { format, events: Vec::new(), styles: Vec::new() }
                    },
                }
            },
            SubtitleFormat::WebVtt => {
                let r = parse_webvtt(text);
                match r {
                    Ok(events) => {
                        let r = SubtitleTrack { format, events, styles: Vec::new() };
                        assert(r@.styles =~= Seq::<Seq<char>>::empty());
                        r
                    },
                    Err(_) => {
                        assert(false);
                        SubtitleTrack { format, events: Vec::new(), styles: Vec::new() }
                    },
                }
            },
        }
    }

    /// Loads file content of the given format as a SubRip track, converting
    /// the inline formatting of other formats.
    pub fn load_as_subrip(text: &str, format: SubtitleFormat) -> (r: SubtitleTrack)
        requires
            parsable(text@),
            convertible_to_subrip(text@, format),
        ensures
            r@ == (TrackView {
                format: SubtitleFormat::SubRip,
                events: loaded_as_subrip(text@, format),
                styles: Seq::empty(),
            }),
    {
        let r = match format {
            SubtitleFormat::SubRip => parse_subrip(text),
            SubtitleFormat::Ass => parse_ass_as_subrip(text),
            SubtitleFormat::Ssa => parse_ssa_as_subrip(text),
            SubtitleFormat::WebVtt => parse_webvtt_as_subrip(text),
        };
        let events = match r {
            Ok(events) => events,
            Err(_) => {
                assert(false);
                Vec::new()
            },
        };
        let r = SubtitleTrack { format: SubtitleFormat::SubRip, events, styles: Vec::new() };
        assert(r@.styles =~= Seq::<Seq<char>>::empty());
        r
    }

    /// Loads file content of the given format as an Advanced SubStation track
    /// of dialogue cues, converting the inline formatting of other formats.
    pub fn load_as_ass(text: &str, format: SubtitleFormat) -> (r: SubtitleTrack)
        requires
            parsable(text@),
            convertible_to_ass(text@, format),
        ensures
            r@ == (TrackView {
                format: SubtitleFormat::Ass,
                events: loaded_as_ass(text@, format),
                styles: Seq::empty(),
            }),
    {
        let r = match format {
            SubtitleFormat::SubRip => parse_subrip_as_ass(text),
            SubtitleFormat::Ass => match parse_ass(text) {
                Ok((events, _)) => Ok(events),
                Err(e) => Err(e),
            },
            SubtitleFormat::Ssa => parse_ssa_as_ass(text),
            SubtitleFormat::WebVtt => parse_webvtt_as_ass(text),
        };
        let events = match r {
            Ok(events) => events,
            Err(_) => {
                assert(false);
                Vec::new()
            },
        };
        let r = SubtitleTrack { format: SubtitleFormat::Ass, events, styles: Vec::new() };
        assert(r@.styles =~= Seq::<Seq<char>>::empty());
        r
    }

    /// File content of the track in its own format.
    pub fn save(&self) -> (r: String)
        ensures
            r@ == rendered(self@),
    {
        match self.format {
            SubtitleFormat::SubRip => render_subrip(&self.events),
            SubtitleFormat::Ass => render_ass(&self.events),
            SubtitleFormat::Ssa => render_ssa(&self.events),
            SubtitleFormat::WebVtt => render_webvtt(&self.events),
        }
    }

    /// File content of the track in SubRip format. A track of another format
    /// is rendered in its own format and converted; `None` when that text
    /// cannot be read back or its colour overrides cannot be converted.
    pub fn save_srt(self) -> (r: Option<String>)
        ensures
            self.format == SubtitleFormat::SubRip ==> (r matches Some(s) && s@ == subrip_rendered(
                self@.events,
            )),
            self.format != SubtitleFormat::SubRip ==> (r is Some <==> (parsable(rendered(self@))
                && convertible_to_subrip(rendered(self@), self.format))),
            self.format != SubtitleFormat::SubRip ==> (r matches Some(s) ==> s@ == subrip_rendered(
                loaded_as_subrip(rendered(self@), self.format),
            )),
    {
        match self.format {
            SubtitleFormat::SubRip => Some(render_subrip(&self.events)),
            _ => {
                let own = self.save();
                if can_parse(own.as_str()) && can_convert_to_subrip(own.as_str(), self.format) {
                    let srt = SubtitleTrack::load_as_subrip(own.as_str(), self.format);
                    Some(render_subrip(&srt.events))
                } else {
                    None
                }
            },
        }
    }

    /// Removes the inline formatting of every cue and the track's style
    /// classes. Doing it twice gives what doing it once gives.
    pub fn strip_formatting(&mut self)
        ensures
            final(self)@ == stripped(old(self)@),
            stripped(stripped(old(self)@)) == stripped(old(self)@),
    {
        let n = self.events.len();
        let mut i: usize = 0;
        while i < n
            invariant
                n == self.events@.len(),
                n == old(self).events@.len(),
                self.format == old(self).format,
                self.styles == old(self).styles,
                0 <= i <= n,
                forall|j: int|
                    0 <= j < i ==> (#[trigger] self.events@[j])@ == (EventView {
                        text: plain_text(self.format, old(self).events@[j].text@),
                        ..old(self).events@[j]@
                    }),
                forall|j: int|
                    0 <= j < i ==> plain_text(self.format, (#[trigger] self.events@[j]).text@)
                        == self.events@[j].text@,
                forall|j: int| i <= j < n ==> #[trigger] self.events@[j] == old(self).events@[j],
            decreases n - i,
        {
            let t = plain_text_of(self.format, &self.events[i].text);
            self.events[i].text = t;
            i += 1;
        }
        self.styles = Vec::new();
        let ghost s1 = stripped(old(self)@);
        assert(self@.events =~= s1.events);
        assert(self@.styles =~= s1.styles);
        proof {
            let s2 = stripped(s1);
            assert forall|j: int| 0 <= j < s1.events.len() implies #[trigger] s2.events[j]
                == s1.events[j] by {
                assert(s1.events[j] == self.events@[j]@);
            }
            assert(s2.events =~= s1.events);
            assert(s2 =~= s1);
        }
    }

    /// Whether some cue's plain text holds the Traditional-only character.
    /// Stripping adds no character, so a track whose texts lack it is
    /// classified Simplified.
    pub fn detect_chinese_traditional(&self) -> (r: bool)
        ensures
            r == is_traditional(self@),
            r ==> exists|i: int|
                0 <= i < self@.events.len() && (#[trigger] self@.events[i]).text.contains(
                    traditional_marker(),
                ),
    {
        let n = self.events.len();
        let mut i: usize = 0;
        while i < n
            invariant
                n == self.events@.len(),
                0 <= i <= n,
                forall|j: int|
                    0 <= j < i ==> !(#[trigger] plain_text(self.format, self@.events[j].text)).contains(
                        traditional_marker(),
                    ),
            decreases n - i,
        {
            let p = plain_text_of(self.format, &self.events[i].text);
            if text_contains(p.as_str(), '們') {
                assert(self@.events[i as int] == self.events@[i as int]@);
                assert(plain_text(self.format, self@.events[i as int].text).contains(
                    traditional_marker(),
                ));
                return true;
            }
            i += 1;
        }
        false
    }
}

/// A track whose cues under a noisy style are blanked.
pub open spec fn noise_suppressed(t: TrackView) -> TrackView {
    TrackView {
        events: Seq::new(t.events.len(), |i: int| suppressed(t.events[i], blanks_by_style(t.events))),
        ..t
    }
}

/// The content of a file after the cleaning pass, in its own format: its
/// formatting stripped, then the cues of noisy styles blanked.
pub fn clean_subtitle_file(text: &str, format: SubtitleFormat) -> (r: String)
    requires
        parsable(text@),
    ensures
        r@ == rendered(noise_suppressed(stripped(loaded(text@, format)))),
{
    let mut track = SubtitleTrack::load(text, format);
    track.strip_formatting();
    let ghost s = track@;
    track.clear_events_whose_style_has_many_existing_blanks();
    assert(track@.events =~= noise_suppressed(s).events);
    track.save()
}

/// Whether SubRip content holds the Traditional-only character in the plain
/// text of some cue.
pub fn ensure_hanzi(srt: &str) -> (r: bool)
    requires
        parsable(srt@),
    ensures
        r == is_traditional(loaded(srt@, SubtitleFormat::SubRip)),
{
    let track = SubtitleTrack::load(srt, SubtitleFormat::SubRip);
    track.detect_chinese_traditional()
}

/// File content converted to Advanced SubStation.
pub fn convert_to_ass(text: &str, format: SubtitleFormat) -> (r: String)
    requires
        parsable(text@),
        convertible_to_ass(text@, format),
    ensures
        r@ == ass_rendered(loaded_as_ass(text@, format)),
{
    SubtitleTrack::load_as_ass(text, format).save()
}

/// File content converted to SubRip.
pub fn convert_to_subrip(text: &str, format: SubtitleFormat) -> (r: String)
    requires
        parsable(text@),
        convertible_to_subrip(text@, format),
    ensures
        r@ == subrip_rendered(loaded_as_subrip(text@, format)),
{
    SubtitleTrack::load_as_subrip(text, format).save()
}

} // verus!
