//! Filters that drop or blank noisy cues of a track.

use vstd::multiset::Multiset;
use vstd::prelude::*;

use crate::codec::{parsable, subrip_parsed, subrip_rendered};
use crate::event::{view_events, EventView, SubtitleFormat, SubtitleTrack, TimedTextEvent};
use crate::tally::{name_count, name_tally, tally_names};

verus! {

/// Whole seconds of a time in milliseconds, rounded down.
pub open spec fn whole_seconds(ms: int) -> int {
    ms / 1000
}

/// Duration of a cue in whole seconds, never below one second.
pub open spec fn duration_seconds(e: EventView) -> int {
    let d = whole_seconds(e.end) - whole_seconds(e.start);
    if d < 1 { 1 } else { d }
}

/// Characters per second of a cue, by integer division.
pub open spec fn cps(e: EventView) -> int {
    e.text.len() as int / duration_seconds(e)
}

pub open spec fn shorter_than(limit: nat) -> spec_fn(EventView) -> bool {
    |e: EventView| e.text.len() < limit
}

pub open spec fn slower_than(limit: nat) -> spec_fn(EventView) -> bool {
    |e: EventView| cps(e) < limit
}

/// What the length filter keeps of a sequence of cues.
pub open spec fn length_filtered(s: Seq<EventView>, limit: Option<usize>) -> Seq<EventView> {
    match limit {
        Some(l) => s.filter(shorter_than(l as nat)),
        None => s,
    }
}

/// What the CPS filter keeps of a sequence of cues.
pub open spec fn cps_filtered(s: Seq<EventView>, limit: Option<usize>) -> Seq<EventView> {
    match limit {
        Some(l) => s.filter(slower_than(l as nat)),
        None => s,
    }
}

/// A cue with its text replaced by the empty string.
pub open spec fn blanked(e: EventView) -> EventView {
    EventView { text: Seq::empty(), ..e }
}

/// A cue blanked when its text is longer than `max_chars` characters.
pub open spec fn cleared_if_long(e: EventView, max_chars: nat) -> EventView {
    if e.text.len() > max_chars { blanked(e) } else { e }
}

proof fn lemma_filter_step(s: Seq<EventView>, i: int, p: spec_fn(EventView) -> bool)
    requires
        0 <= i < s.len(),
    ensures
        s.take(i + 1).filter(p) == if p(s[i]) {
            s.take(i).filter(p).push(s[i])
        } else {
            s.take(i).filter(p)
        },
{
    reveal(Seq::filter);
    assert(s.take(i + 1).drop_last() =~= s.take(i));
}

proof fn lemma_view_push(s: Seq<TimedTextEvent>, e: TimedTextEvent)
    ensures
        view_events(s.push(e)) == view_events(s).push(e@),
{
    assert(view_events(s.push(e)) =~= view_events(s).push(e@));
}

/// Floor of `ms / 1000`, for any sign of `ms`.
fn whole_seconds_of(ms: i64) -> (r: i64)
    ensures
        r as int == whole_seconds(ms as int),
{
    if ms >= 0 {
        ms / 1000
    } else {
        let m: i64 = -(ms + 1);
        assert(whole_seconds(ms as int) == -(m as int / 1000) - 1) by (nonlinear_arith)
            requires
                m == -(ms + 1),
                m >= 0,
        {
        }
        -(m / 1000) - 1
    }
}

/// Duration of a cue in whole seconds, floored at one.
pub fn event_duration_seconds(e: &TimedTextEvent) -> (r: i64)
    ensures
        r as int == duration_seconds(e@),
        r >= 1,
{
    let d = whole_seconds_of(e.end) - whole_seconds_of(e.start);
    if d < 1 { 1 } else { d }
}

/// Characters per second of a cue.
pub fn event_cps(e: &TimedTextEvent) -> (r: usize)
    ensures
        r as int == cps(e@),
{
    let d = event_duration_seconds(e);
    let n = e.character_count();
    if d as u64 > n as u64 {
        assert(n as int / d as int == 0) by (nonlinear_arith)
            requires 0 <= n < d,
        {
        }
        0
    } else {
        let dd = d as usize;
        n / dd
    }
}

impl SubtitleTrack {
    /// Removes every cue whose text has `limit` characters or more; does
    /// nothing when `limit` is `None`.
    pub fn length_filter(&mut self, limit: Option<usize>)
        ensures
            final(self)@.events == length_filtered(old(self)@.events, limit),
            final(self)@.format == old(self)@.format,
            final(self)@.styles == old(self)@.styles,
    {
        if let Some(l) = limit {
            let ghost p = shorter_than(l as nat);
            let mut kept: Vec<TimedTextEvent> = Vec::new();
            let n = self.events.len();
            let mut i: usize = 0;
            while i < n
                invariant
                    n == self.events@.len(),
                    self == old(self),
                    p == shorter_than(l as nat),
                    0 <= i <= n,
                    view_events(kept@) == view_events(self.events@).take(i as int).filter(p),
                decreases n - i,
            {
                let e = &self.events[i];
                proof {
                    lemma_filter_step(view_events(self.events@), i as int, p);
                    assert(view_events(self.events@)[i as int] == e@);
                    assert(p(e@) == (e@.text.len() < l));
                }
                if e.character_count() < l {
                    let c = e.duplicate();
                    proof {
                        lemma_view_push(kept@, c);
                    }
                    kept.push(c);
                }
                i += 1;
            }
            assert(view_events(self.events@).take(n as int) =~= view_events(self.events@));
            self.events = kept;
        }
    }

    /// Removes every cue whose characters per second reach `limit`; does
    /// nothing when `limit` is `None`.
    pub fn cps_filter(&mut self, limit: Option<usize>)
        ensures
            final(self)@.events == cps_filtered(old(self)@.events, limit),
            final(self)@.format == old(self)@.format,
            final(self)@.styles == old(self)@.styles,
    {
        if let Some(l) = limit {
            let ghost p = slower_than(l as nat);
            let mut kept: Vec<TimedTextEvent> = Vec::new();
            let n = self.events.len();
            let mut i: usize = 0;
            while i < n
                invariant
                    n == self.events@.len(),
                    self == old(self),
                    p == slower_than(l as nat),
                    0 <= i <= n,
                    view_events(kept@) == view_events(self.events@).take(i as int).filter(p),
                decreases n - i,
            {
                let e = &self.events[i];
                proof {
                    lemma_filter_step(view_events(self.events@), i as int, p);
                    assert(view_events(self.events@)[i as int] == e@);
                    assert(p(e@) == (cps(e@) < l));
                }
                if event_cps(e) < l {
                    let c = e.duplicate();
                    proof {
                        lemma_view_push(kept@, c);
                    }
                    kept.push(c);
                }
                i += 1;
            }
            assert(view_events(self.events@).take(n as int) =~= view_events(self.events@));
            self.events = kept;
        }
    }

    /// Blanks the text of every cue longer than `max_chars` characters,
    /// keeping the cue and its timing.
    pub fn clear_long_lines(&mut self, max_chars: usize)
        ensures
            final(self)@.events.len() == old(self)@.events.len(),
            forall|i: int|
                0 <= i < old(self)@.events.len() ==> final(self)@.events[i] == cleared_if_long(
                    #[trigger] old(self)@.events[i],
                    max_chars as nat,
                ),
            final(self)@.format == old(self)@.format,
            final(self)@.styles == old(self)@.styles,
    {
        let n = self.events.len();
        let mut i: usize = 0;
        while i < n
            invariant
                n == self.events@.len(),
                n == old(self).events@.len(),
                self.format == old(self).format,
                self.styles == old(self).styles,
                0 <= i <= n,
                forall|j: int|
                    0 <= j < i ==> (#[trigger] self.events@[j])@ == cleared_if_long(
                        old(self).events@[j]@,
                        max_chars as nat,
                    ),
                forall|j: int| i <= j < n ==> #[trigger] self.events@[j] == old(self).events@[j],
            decreases n - i,
        {
            if self.events[i].character_count() > max_chars {
                self.events[i].text = String::new();
            }
            i += 1;
        }
    }
}

/// A text in lower case.
pub uninterp spec fn lower_of(s: Seq<char>) -> Seq<char>;

/// Relies on `str::to_lowercase`, whose result depends on the characters alone.
#[verifier::external_body]
fn lowercase(s: &str) -> (r: String)
    ensures
        r@ == lower_of(s@),
{
    s.to_lowercase()
}

/// More blank cues than this under one style mark the style as noise.
pub const NOISY_STYLE_BLANKS: usize = 20;

/// The cue is blank and has a style.
pub open spec fn blank_with_style(e: EventView) -> bool {
    e.text.len() == 0 && e.style is Some
}

/// How many blank cues each style name carries.
pub open spec fn blanks_by_style(s: Seq<EventView>) -> Multiset<Seq<char>> {
    s.filter(|e: EventView| blank_with_style(e)).map_values(|e: EventView| e.style->0).to_multiset()
}

/// A cue blanked when its style carries more than the noise threshold of
/// blank cues in `blanks`.
pub open spec fn suppressed(e: EventView, blanks: Multiset<Seq<char>>) -> EventView {
    match e.style {
        Some(st) => if blanks.count(st) > NOISY_STYLE_BLANKS { blanked(e) } else { e },
        None => e,
    }
}

/// A cue blanked when the lower-case form of its style is among `names`.
pub open spec fn cleared_if_styled(e: EventView, names: Seq<Seq<char>>) -> EventView {
    match e.style {
        Some(st) => if names.contains(lower_of(st)) { blanked(e) } else { e },
        None => e,
    }
}

fn contains_name(names: &Vec<String>, s: &String) -> (r: bool)
    ensures
        r == names@.map_values(|x: String| x@).contains(s@),
{
    let mut i: usize = 0;
    while i < names.len()
        invariant
            0 <= i <= names@.len(),
            forall|j: int| 0 <= j < i ==> (#[trigger] names@[j])@ != s@,
        decreases names@.len() - i,
    {
        if names[i] == *s {
            assert(names@.map_values(|x: String| x@)[i as int] == s@);
            return true;
        }
        i += 1;
    }
    let ghost v = names@.map_values(|x: String| x@);
    assert forall|j: int| 0 <= j < v.len() implies #[trigger] v[j] != s@ by {
        assert(v[j] == names@[j]@);
    }
    false
}

/// The style names of the blank, styled cues of `events`, in order.
fn blank_style_names(events: &Vec<TimedTextEvent>) -> (r: Vec<String>)
    ensures
        r@.map_values(|x: String| x@) == view_events(events@).filter(
            |e: EventView| blank_with_style(e),
        ).map_values(|e: EventView| e.style->0),
{
    let ghost p = |e: EventView| blank_with_style(e);
    let ghost f = |e: EventView| e.style->0;
    let ghost s = view_events(events@);
    let mut r: Vec<String> = Vec::new();
    let n = events.len();
    let mut i: usize = 0;
    while i < n
        invariant
            n == events@.len(),
            s == view_events(events@),
            p == (|e: EventView| blank_with_style(e)),
            f == (|e: EventView| e.style->0),
            0 <= i <= n,
            r@.map_values(|x: String| x@) == s.take(i as int).filter(p).map_values(f),
        decreases n - i,
    {
        proof {
            lemma_filter_step(s, i as int, p);
            assert(s[i as int] == events@[i as int]@);
        }
        let e = &events[i];
        if e.character_count() == 0 {
            if let Some(st) = &e.style {
                assert(p(s[i as int]));
                assert(f(s[i as int]) == st@);
                let ghost before = r@;
                r.push(st.clone());
                assert(r@ == before.push(r@.last()));
                assert(r@.map_values(|x: String| x@) =~= before.map_values(|x: String| x@).push(st@));
                assert(s.take(i + 1).filter(p).map_values(f) =~= s.take(i as int).filter(p).map_values(f).push(f(s[i as int])));
            }
        }
        i += 1;
    }
    assert(s.take(n as int) =~= s);
    r
}

impl SubtitleTrack {
    /// Blanks every cue whose style carries more than the noise threshold of
    /// blank cues; cues without a style are left alone.
    pub fn clear_events_whose_style_has_many_existing_blanks(&mut self)
        ensures
            final(self)@.events.len() == old(self)@.events.len(),
            forall|i: int|
                0 <= i < old(self)@.events.len() ==> final(self)@.events[i] == suppressed(
                    #[trigger] old(self)@.events[i],
                    blanks_by_style(old(self)@.events),
                ),
            final(self)@.format == old(self)@.format,
            final(self)@.styles == old(self)@.styles,
    {
        let names = blank_style_names(&self.events);
        let tally = tally_names(&names);
        let ghost m = blanks_by_style(old(self)@.events);
        assert(name_tally(tally) == m);
        let n = self.events.len();
        let mut i: usize = 0;
        while i < n
            invariant
                n == self.events@.len(),
                n == old(self).events@.len(),
                self.format == old(self).format,
                self.styles == old(self).styles,
                name_tally(tally) == m,
                m == blanks_by_style(old(self)@.events),
                0 <= i <= n,
                forall|j: int|
                    0 <= j < i ==> (#[trigger] self.events@[j])@ == suppressed(
                        old(self).events@[j]@,
                        m,
                    ),
                forall|j: int| i <= j < n ==> #[trigger] self.events@[j] == old(self).events@[j],
            decreases n - i,
        {
            let clear = match &self.events[i].style {
                Some(st) => name_count(&tally, st) > NOISY_STYLE_BLANKS,
                None => false,
            };
            if clear {
                self.events[i].text = String::new();
            }
            i += 1;
        }
        assert(view_events(self.events@) =~= Seq::new(n as nat, |j: int| suppressed(old(self)@.events[j], m)));
    }

    /// Blanks every cue whose style name, in lower case, is among `style_names`.
    pub fn clear_events_with_styles(&mut self, style_names: &Vec<String>)
        ensures
            final(self)@.events.len() == old(self)@.events.len(),
            forall|i: int|
                0 <= i < old(self)@.events.len() ==> final(self)@.events[i] == cleared_if_styled(
                    #[trigger] old(self)@.events[i],
                    style_names@.map_values(|x: String| x@),
                ),
            final(self)@.format == old(self)@.format,
            final(self)@.styles == old(self)@.styles,
    {
        let ghost names = style_names@.map_values(|x: String| x@);
        let n = self.events.len();
        let mut i: usize = 0;
        while i < n
            invariant
                n == self.events@.len(),
                n == old(self).events@.len(),
                self.format == old(self).format,
                self.styles == old(self).styles,
                names == style_names@.map_values(|x: String| x@),
                0 <= i <= n,
                forall|j: int|
                    0 <= j < i ==> (#[trigger] self.events@[j])@ == cleared_if_styled(
                        old(self).events@[j]@,
                        names,
                    ),
                forall|j: int| i <= j < n ==> #[trigger] self.events@[j] == old(self).events@[j],
            decreases n - i,
        {
            let clear = match &self.events[i].style {
                Some(st) => {
                    let low = lowercase(st.as_str());
                    contains_name(style_names, &low)
                },
                None => false,
            };
            if clear {
                self.events[i].text = String::new();
            }
            i += 1;
        }
    }
}

/// SubRip content with the cues of `limit` characters or more removed, then
/// those whose characters per second reach `cps_limit`; a missing limit
/// removes nothing.
pub fn filter_subrip(text: &str, length: Option<usize>, cps_limit: Option<usize>) -> (r: String)
    requires
        parsable(text@),
    ensures
        r@ == subrip_rendered(cps_filtered(length_filtered(subrip_parsed(text@), length), cps_limit)),
{
    let mut track = SubtitleTrack::load(text, SubtitleFormat::SubRip);
    track.length_filter(length);
    track.cps_filter(cps_limit);
    track.save()
}

/// The blank cues of `s` that carry style `st`.
pub open spec fn blank_under(st: Seq<char>) -> spec_fn(EventView) -> bool {
    |e: EventView| e.text.len() == 0 && e.style == Some(st)
}

/// The count of a style in `blanks_by_style` is the number of blank cues
/// carrying that style.
pub proof fn lemma_blanks_by_style_count(s: Seq<EventView>, st: Seq<char>)
    ensures
        blanks_by_style(s).count(st) == s.filter(blank_under(st)).len(),
    decreases s.len(),
{
    reveal(Seq::filter);
    let p = |e: EventView| blank_with_style(e);
    let f = |e: EventView| e.style->0;
    if s.len() == 0 {
        broadcast use vstd::seq_lib::group_to_multiset_ensures;

        assert(s.filter(p).map_values(f) =~= Seq::<Seq<char>>::empty());
        assert(s.filter(p).map_values(f).to_multiset().len() == 0);
    } else {
        let t = s.drop_last();
        let e = s.last();
        lemma_blanks_by_style_count(t, st);
        if p(e) {
            assert(s.filter(p).map_values(f) =~= t.filter(p).map_values(f).push(f(e)));
            vstd::seq_lib::to_multiset_build(t.filter(p).map_values(f), f(e));
        } else {
            assert(s.filter(p).map_values(f) =~= t.filter(p).map_values(f));
        }
    }
}

/// A style with more blank cues than the noise threshold has every one of its
/// cues blanked; a style with no more keeps its cues as they are.
pub proof fn lemma_noisy_style_rule(s: Seq<EventView>, st: Seq<char>, e: EventView)
    requires
        e.style == Some(st),
    ensures
        s.filter(blank_under(st)).len() > NOISY_STYLE_BLANKS ==> suppressed(e, blanks_by_style(s)).text.len() == 0,
        s.filter(blank_under(st)).len() <= NOISY_STYLE_BLANKS ==> suppressed(e, blanks_by_style(s)) == e,
{
    lemma_blanks_by_style_count(s, st);
}

} // verus!
