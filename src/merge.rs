//! Combines a bottom and a top track into one track ordered by start time.

use vstd::prelude::*;

use crate::codec::{parsable, subrip_rendered};
use crate::event::{view_events, EventView, SubtitleFormat, SubtitleTrack, TimedTextEvent};
use crate::track::{convertible_to_subrip, loaded_as_subrip};

verus! {

/// The override that makes a cue render at the top of the frame.
pub open spec fn top_directive() -> Seq<char> {
    "{\\an8}"@
}

/// A cue with the top-position override put before its text.
pub open spec fn pinned_to_top(e: EventView) -> EventView {
    EventView { text: top_directive() + e.text, ..e }
}

/// `e` inserted into `s` after the leading cues that start no later than `e`.
pub open spec fn insert_by_start(s: Seq<EventView>, e: EventView) -> Seq<EventView>
    decreases s.len(),
{
    if s.len() == 0 {
        seq![e]
    } else if s[0].start <= e.start {
        seq![s[0]] + insert_by_start(s.drop_first(), e)
    } else {
        seq![e] + s
    }
}

/// The stable sort of `s` by start time: cues with equal start keep their
/// relative order.
pub open spec fn sort_by_start(s: Seq<EventView>) -> Seq<EventView>
    decreases s.len(),
{
    if s.len() == 0 {
        s
    } else {
        insert_by_start(sort_by_start(s.drop_last()), s.last())
    }
}

/// `s` with its cues numbered 1, 2, ... in order.
pub open spec fn renumbered(s: Seq<EventView>) -> Seq<EventView> {
    Seq::new(s.len(), |i: int| EventView { number: (i + 1) as nat, ..s[i] })
}

/// The merge of a bottom and a top sequence of cues: the top cues pinned to
/// the top of the frame, placed after the bottom cues, stably sorted by start
/// time, and renumbered.
pub open spec fn merged(bottom: Seq<EventView>, top: Seq<EventView>) -> Seq<EventView> {
    renumbered(sort_by_start(bottom + top.map_values(|e: EventView| pinned_to_top(e))))
}

pub open spec fn sorted_by_start(s: Seq<EventView>) -> bool {
    forall|i: int, j: int| 0 <= i < j < s.len() ==> s[i].start <= s[j].start
}

proof fn lemma_insert_at(s: Seq<EventView>, e: EventView, k: int)
    requires
        0 <= k <= s.len(),
        forall|j: int| 0 <= j < k ==> s[j].start <= e.start,
        k < s.len() ==> s[k].start > e.start,
    ensures
        insert_by_start(s, e) == s.take(k) + seq![e] + s.skip(k),
    decreases s.len(),
{
    if s.len() == 0 {
        assert(s.take(k) + seq![e] + s.skip(k) =~= seq![e]);
    } else if k == 0 {
        assert(s.take(k) + seq![e] + s.skip(k) =~= seq![e] + s);
    } else {
        let t = s.drop_first();
        assert forall|j: int| 0 <= j < k - 1 implies t[j].start <= e.start by {
            assert(t[j] == s[j + 1]);
        }
        lemma_insert_at(t, e, k - 1);
        assert(seq![s[0]] + (t.take(k - 1) + seq![e] + t.skip(k - 1)) =~= s.take(k) + seq![e]
            + s.skip(k));
    }
}

/// Index at which `insert_by_start` places `e`.
pub open spec fn insert_pos(s: Seq<EventView>, e: EventView) -> int
    decreases s.len(),
{
    if s.len() == 0 {
        0
    } else if s[0].start <= e.start {
        1 + insert_pos(s.drop_first(), e)
    } else {
        0
    }
}

proof fn lemma_insert_pos(s: Seq<EventView>, e: EventView)
    ensures
        0 <= insert_pos(s, e) <= s.len(),
        forall|j: int| 0 <= j < insert_pos(s, e) ==> s[j].start <= e.start,
        insert_pos(s, e) < s.len() ==> s[insert_pos(s, e)].start > e.start,
    decreases s.len(),
{
    if s.len() > 0 && s[0].start <= e.start {
        let t = s.drop_first();
        lemma_insert_pos(t, e);
        assert forall|j: int| 0 <= j < insert_pos(s, e) implies s[j].start <= e.start by {
            if j > 0 {
                assert(s[j] == t[j - 1]);
            }
        }
    }
}

/// The insertion keeps a sequence sorted and adds exactly `e`.
proof fn lemma_insert_sorted(s: Seq<EventView>, e: EventView)
    requires
        sorted_by_start(s),
    ensures
        sorted_by_start(insert_by_start(s, e)),
        insert_by_start(s, e).len() == s.len() + 1,
        insert_by_start(s, e).to_multiset() == s.to_multiset().insert(e),
{
    broadcast use vstd::seq_lib::group_seq_properties;

    let k = insert_pos(s, e);
    lemma_insert_pos(s, e);
    lemma_insert_at(s, e, k);
    let r = insert_by_start(s, e);
    assert(r =~= s.insert(k, e));
    assert forall|i: int, j: int| 0 <= i < j < r.len() implies r[i].start <= r[j].start by {
        if j < k {
        } else if j == k {
            assert(r[i] == s[i]);
        } else if i < k {
            assert(r[j] == s[j - 1]);
        } else if i == k {
            assert(r[j] == s[j - 1]);
            assert(s[k].start <= s[j - 1].start || j - 1 == k);
        } else {
            assert(r[i] == s[i - 1]);
            assert(r[j] == s[j - 1]);
        }
    }
}

/// The stable sort is sorted by start and holds the same cues.
pub proof fn lemma_sort_by_start(s: Seq<EventView>)
    ensures
        sorted_by_start(sort_by_start(s)),
        sort_by_start(s).len() == s.len(),
        sort_by_start(s).to_multiset() == s.to_multiset(),
    decreases s.len(),
{
    if s.len() == 0 {
    } else {
        lemma_sort_by_start(s.drop_last());
        lemma_insert_sorted(sort_by_start(s.drop_last()), s.last());
        assert(s == s.drop_last().push(s.last())) by {
            assert(s =~= s.drop_last().push(s.last()));
        }
        vstd::seq_lib::to_multiset_build(s.drop_last(), s.last());
    }
}

/// Inserts `e` into `out` after the leading cues that start no later than it.
fn insert_by_start_into(out: &mut Vec<TimedTextEvent>, e: TimedTextEvent)
    ensures
        view_events(final(out)@) == insert_by_start(view_events(old(out)@), e@),
{
    let n = out.len();
    let mut k: usize = 0;
    while k < n && out[k].start <= e.start
        invariant
            n == out@.len(),
            0 <= k <= n,
            forall|j: int| 0 <= j < k ==> (#[trigger] out@[j]).start <= e.start,
        decreases n - k,
    {
        k += 1;
    }
    let ghost s = view_events(out@);
    proof {
        lemma_insert_at(s, e@, k as int);
    }
    out.insert(k, e);
    assert(view_events(out@) =~= s.take(k as int) + seq![e@] + s.skip(k as int));
}

/// A cue with the top-position override put before its text.
pub fn pin_to_top(e: &TimedTextEvent) -> (r: TimedTextEvent)
    ensures
        r@ == pinned_to_top(e@),
{
    let mut text = String::from_str("{\\an8}");
    text.append(e.text.as_str());
    let mut r = e.duplicate();
    r.text = text;
    r
}

proof fn lemma_sort_step(all: Seq<EventView>, i: int)
    requires
        0 <= i < all.len(),
    ensures
        sort_by_start(all.take(i + 1)) == insert_by_start(sort_by_start(all.take(i)), all[i]),
{
    assert(all.take(i + 1).drop_last() =~= all.take(i));
}

/// Sets the sequence identifiers of `events` to 1, 2, ... in order.
pub fn renumber(events: &mut Vec<TimedTextEvent>)
    ensures
        view_events(final(events)@) == renumbered(view_events(old(events)@)),
{
    let n = events.len();
    let mut i: usize = 0;
    while i < n
        invariant
            n == events@.len(),
            n == old(events)@.len(),
            0 <= i <= n,
            forall|j: int|
                0 <= j < i ==> (#[trigger] events@[j])@ == (EventView {
                    number: (j + 1) as nat,
                    ..old(events)@[j]@
                }),
            forall|j: int| i <= j < n ==> #[trigger] events@[j] == old(events)@[j],
        decreases n - i,
    {
        events[i].number = i + 1;
        i += 1;
    }
    assert(view_events(events@) =~= renumbered(view_events(old(events)@)));
}

/// Merges a bottom and a top sequence of cues: top cues get the top-position
/// override, all cues are stably sorted by start (bottom cues first among
/// equal starts) and renumbered from 1.
pub fn merge_events(bottom: &Vec<TimedTextEvent>, top: &Vec<TimedTextEvent>) -> (r: Vec<
    TimedTextEvent,
>)
    ensures
        view_events(r@) == merged(view_events(bottom@), view_events(top@)),
{
    let ghost all = view_events(bottom@) + view_events(top@).map_values(
        |e: EventView| pinned_to_top(e),
    );
    let nb = bottom.len();
    let nt = top.len();
    let mut out: Vec<TimedTextEvent> = Vec::new();
    let mut i: usize = 0;
    while i < nb
        invariant
            nb == bottom@.len(),
            nt == top@.len(),
            all == view_events(bottom@) + view_events(top@).map_values(
                |e: EventView| pinned_to_top(e),
            ),
            0 <= i <= nb,
            view_events(out@) == sort_by_start(all.take(i as int)),
        decreases nb - i,
    {
        proof {
            lemma_sort_step(all, i as int);
        }
        insert_by_start_into(&mut out, bottom[i].duplicate());
        i += 1;
    }
    let mut j: usize = 0;
    while j < nt
        invariant
            nb == bottom@.len(),
            nt == top@.len(),
            all == view_events(bottom@) + view_events(top@).map_values(
                |e: EventView| pinned_to_top(e),
            ),
            0 <= j <= nt,
            view_events(out@) == sort_by_start(all.take(nb + j)),
        decreases nt - j,
    {
        proof {
            lemma_sort_step(all, (nb + j) as int);
        }
        insert_by_start_into(&mut out, pin_to_top(&top[j]));
        j += 1;
    }
    assert(all.take(nb + nt) =~= all);
    renumber(&mut out);
    out
}

/// A merge holds as many cues as its two inputs together, numbered 1, 2, ...
/// in order, and sorted by start time.
pub proof fn lemma_merged_count_and_numbering(bottom: Seq<EventView>, top: Seq<EventView>)
    ensures
        merged(bottom, top).len() == bottom.len() + top.len(),
        forall|i: int| 0 <= i < merged(bottom, top).len() ==> #[trigger] merged(bottom, top)[i].number == i + 1,
        sorted_by_start(merged(bottom, top)),
{
    let all = bottom + top.map_values(|e: EventView| pinned_to_top(e));
    lemma_sort_by_start(all);
    let m = merged(bottom, top);
    assert forall|i: int, j: int| 0 <= i < j < m.len() implies m[i].start <= m[j].start by {
        assert(m[i].start == sort_by_start(all)[i].start);
        assert(m[j].start == sort_by_start(all)[j].start);
    }
}

/// The SubRip content of the merge of two files' content: `bottom` stays at
/// the default position, `top` is pinned to the top of the frame.
pub fn merge_subtitle_files(
    bottom: &str,
    bottom_format: SubtitleFormat,
    top: &str,
    top_format: SubtitleFormat,
) -> (r: String)
    requires
        parsable(bottom@),
        parsable(top@),
        convertible_to_subrip(bottom@, bottom_format),
        convertible_to_subrip(top@, top_format),
    ensures
        r@ == subrip_rendered(
            merged(loaded_as_subrip(bottom@, bottom_format), loaded_as_subrip(top@, top_format)),
        ),
{
    let b = SubtitleTrack::load_as_subrip(bottom, bottom_format);
    let t = SubtitleTrack::load_as_subrip(top, top_format);
    let events = merge_events(&b.events, &t.events);
    let out = SubtitleTrack::from_events(SubtitleFormat::SubRip, events);
    out.save()
}

} // verus!
