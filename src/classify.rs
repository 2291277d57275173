//! Classification of a track's predominant language.

use lingua::LanguageDetectorBuilder;
use vstd::multiset::Multiset;
use vstd::prelude::*;

use crate::event::{SubtitleTrack, TimedTextEvent};
use crate::tally::{code_tally, most_common_code, tally_codes};

verus! {

/// A language that the classifier can tell apart.
#[derive(Clone, Copy, Debug, PartialEq, Eq, Structural, Hash)]
pub enum Language {
    Chinese,
    English,
}

/// Relies on lingua's `LanguageDetectorBuilder::from_languages(..).build()`
/// and `LanguageDetector::detect_language_of`, applied to each text in turn;
/// `from_languages` panics on an empty candidate list. Each outcome is no
/// language or one of the candidates; which one is not stated, since on an
/// exact tie lingua picks by the order of a hash map.
#[verifier::external_body]
fn detect_languages(candidates: &[Language], texts: &Vec<String>) -> (r: Vec<Option<Language>>)
    requires
        candidates@.len() > 0,
    ensures
        r@.len() == texts@.len(),
        forall|i: int|
            0 <= i < r@.len() ==> (#[trigger] r@[i] is None || candidates@.contains(r@[i]->0)),
{
    let langs: Vec<lingua::Language> = candidates.iter().map(|l| match l {
        Language::Chinese => lingua::Language::Chinese,
        Language::English => lingua::Language::English,
    }).collect();
    let detector = LanguageDetectorBuilder::from_languages(&langs).build();
    texts.iter().map(|t| detector.detect_language_of(t.as_str()).map(|l| match l {
        lingua::Language::Chinese => Language::Chinese,
        lingua::Language::English => Language::English,
    })).collect()
}

/// The code under which a classification outcome is counted; codes follow
/// the order "no language", Chinese, English.
pub open spec fn outcome_code(o: Option<Language>) -> u8 {
    match o {
        None => 0,
        Some(Language::Chinese) => 1,
        Some(Language::English) => 2,
    }
}

pub open spec fn outcome_of_code(k: u8) -> Option<Language> {
    if k == 1 {
        Some(Language::Chinese)
    } else if k == 2 {
        Some(Language::English)
    } else {
        None
    }
}

/// `k` is counted most often in `m`, and is the smallest such code.
pub open spec fn is_most_common(m: Multiset<u8>, k: u8) -> bool {
    &&& m.count(k) > 0
    &&& forall|j: u8| #[trigger] m.count(j) <= m.count(k)
    &&& forall|j: u8| #[trigger] m.count(j) == m.count(k) ==> k <= j
}

/// How often each classification outcome occurs.
pub open spec fn outcome_tally(outcomes: Seq<Option<Language>>) -> Multiset<u8> {
    outcomes.map_values(|o: Option<Language>| outcome_code(o)).to_multiset()
}

/// The most frequent of the outcomes, "no language" counted like a language;
/// ties go to "no language", then Chinese, then English. None when there are
/// no outcomes.
pub open spec fn predominant_outcome(outcomes: Seq<Option<Language>>) -> Option<Language> {
    let m = outcome_tally(outcomes);
    if outcomes.len() == 0 {
        None
    } else {
        outcome_of_code(choose|k: u8| is_most_common(m, k))
    }
}

fn code_of(o: Option<Language>) -> (k: u8)
    ensures
        k == outcome_code(o),
{
    match o {
        None => 0,
        Some(Language::Chinese) => 1,
        Some(Language::English) => 2,
    }
}

fn texts_of(events: &Vec<TimedTextEvent>) -> (r: Vec<String>)
    ensures
        r@.len() == events@.len(),
        forall|i: int| 0 <= i < r@.len() ==> #[trigger] r@[i]@ == events@[i].text@,
{
    let mut r: Vec<String> = Vec::new();
    let mut i: usize = 0;
    while i < events.len()
        invariant
            0 <= i <= events@.len(),
            r@.len() == i,
            forall|j: int| 0 <= j < i ==> #[trigger] r@[j]@ == events@[j].text@,
        decreases events@.len() - i,
    {
        r.push(events[i].text.clone());
        i += 1;
    }
    r
}

/// The most frequent of the classification outcomes of a track's cues.
pub fn predominant_language_of(outcomes: &Vec<Option<Language>>) -> (r: Option<Language>)
    ensures
        r == predominant_outcome(outcomes@),
        r is Some ==> outcomes@.contains(r),
{
    broadcast use vstd::seq_lib::group_to_multiset_ensures;

    let n = outcomes.len();
    let mut codes: Vec<u8> = Vec::new();
    let mut i: usize = 0;
    while i < n
        invariant
            n == outcomes@.len(),
            0 <= i <= n,
            codes@ == outcomes@.take(i as int).map_values(|o: Option<Language>| outcome_code(o)),
        decreases n - i,
    {
        let k = code_of(outcomes[i]);
        codes.push(k);
        i += 1;
        assert(codes@ =~= outcomes@.take(i as int).map_values(
            |o: Option<Language>| outcome_code(o),
        ));
    }
    assert(outcomes@.take(n as int) =~= outcomes@);
    let tally = tally_codes(&codes);
    let top = most_common_code(&tally);
    let ghost m = outcome_tally(outcomes@);
    assert(code_tally(tally) == m);
    match top {
        Some(k) => {
            assert(is_most_common(m, k));
            proof {
                let c = choose|c: u8| is_most_common(m, c);
                assert(m.count(c) == m.count(k));
            }
            assert(codes@.len() == outcomes@.len());
            assert(codes@.contains(k));
            let ghost j = choose|j: int| 0 <= j < codes@.len() && codes@[j] == k;
            assert(outcome_code(outcomes@[j]) == k);
            if k == 1 {
                Some(Language::Chinese)
            } else if k == 2 {
                Some(Language::English)
            } else {
                None
            }
        },
        None => {
            proof {
                if outcomes@.len() > 0 {
                    let c = outcome_code(outcomes@[0]);
                    assert(codes@[0] == c);
                    assert(codes@.contains(c));
                    assert(m.count(c) > 0);
                }
            }
            None
        },
    }
}

impl SubtitleTrack {
    /// The most frequent language over the track's cues, each classified
    /// among `languages`; a language it returns is one of `languages`.
    pub fn detect_predominant_language(&self, languages: &[Language]) -> (r: Option<Language>)
        requires
            languages@.len() > 0,
        ensures
            self@.events.len() == 0 ==> r is None,
            r is Some ==> languages@.contains(r->0),
            exists|outcomes: Seq<Option<Language>>|
                outcomes.len() == self@.events.len() && (forall|i: int|
                    0 <= i < outcomes.len() ==> (#[trigger] outcomes[i] is None || languages@.contains(
                        outcomes[i]->0,
                    ))) && r == predominant_outcome(outcomes),
    {
        let texts = texts_of(&self.events);
        let found = detect_languages(languages, &texts);
        let r = predominant_language_of(&found);
        proof {
            if r is Some {
                let j = choose|j: int| 0 <= j < found@.len() && found@[j] == r;
                assert(found@[j] is Some);
            }
        }
        r
    }
}

} // verus!
