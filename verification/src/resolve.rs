//! Fuzzy resolution: from a free-text query to the one device it names.
//!
//! Every device name is scored against the query with the skim matcher of
//! the `fuzzy-matcher` crate, both lowered first, so that case plays no
//! part. Devices without a positive score are no candidates at all. The
//! candidates are ranked by falling score, equal scores in the order of the
//! device list, and the first of the ranking is selected.

use crate::device::{record_views, DeviceRecord, DeviceView};
use vstd::prelude::*;

verus! {

/// What `str::to_lowercase` returns for a text: its lowercase form by the
/// Unicode rules of the standard library.
pub uninterp spec fn lowercase_text(text: Seq<char>) -> Seq<char>;

/// What `SkimMatcherV2::default().fuzzy_match(choice, pattern)` returns: the
/// score of the best alignment of `pattern` as a subsequence of `choice`, or
/// `None` where there is no alignment.
pub uninterp spec fn skim_score(choice: Seq<char>, pattern: Seq<char>) -> Option<i64>;

/// `str::to_lowercase` gives the lowercase form of the text, which depends
/// on the text alone.
pub assume_specification[ str::to_lowercase ](text: &str) -> (lower: String)
    ensures
        lower@ == lowercase_text(text@),
;

/// The longest text, in characters, that is handed to the matcher.
///
/// The matcher adds up a few tens of points for each character in 32-bit
/// arithmetic; texts of this length keep every sum far inside that range.
pub const MATCH_LIMIT: usize = 65536;

/// Calls `fuzzy_match` of `fuzzy_matcher::FuzzyMatcher` on a fresh
/// `SkimMatcherV2::default()`.
///
/// A fresh matcher has empty scratch buffers and the default scoring
/// configuration, so the score depends on the two texts alone; the contract
/// names it and says no more. The matcher's 32-bit score arithmetic is only
/// known to stay in range for texts of bounded length, hence the bound.
#[verifier::external_body]
fn skim_match(choice: &str, pattern: &str) -> (score: Option<i64>)
    requires
        choice@.len() <= MATCH_LIMIT,
        pattern@.len() <= MATCH_LIMIT,
    ensures
        score == skim_score(choice@, pattern@),
{
    fuzzy_matcher::FuzzyMatcher::fuzzy_match(
        &fuzzy_matcher::skim::SkimMatcherV2::default(),
        choice,
        pattern,
    )
}

/// A device that matched the query, with its score.
#[derive(Clone, Copy, Debug, PartialEq, Eq, Structural)]
pub struct ScoredCandidate {
    /// Position of the device in the list that was searched.
    pub index: usize,
    /// Similarity of the device's name to the query; always positive.
    pub score: i64,
}

/// The outcome of a resolution.
#[derive(Debug, PartialEq, Eq)]
pub enum Resolution {
    /// No device matched the query.
    NoMatch,
    /// Exactly one device matched.
    Unique(ScoredCandidate),
    /// Several devices matched. `ranked` lists them all, best first, for
    /// display; `chosen` is the first of them and is selected without
    /// further asking.
    Ambiguous { chosen: ScoredCandidate, ranked: Vec<ScoredCandidate> },
}

/// The mathematical content of a [`Resolution`].
pub enum ResolutionView {
    NoMatch,
    Unique(ScoredCandidate),
    Ambiguous { chosen: ScoredCandidate, ranked: Seq<ScoredCandidate> },
}

impl View for Resolution {
    type V = ResolutionView;

    open spec fn view(&self) -> ResolutionView {
        match self {
            Resolution::NoMatch => ResolutionView::NoMatch,
            Resolution::Unique(candidate) => ResolutionView::Unique(*candidate),
            Resolution::Ambiguous { chosen, ranked } => ResolutionView::Ambiguous {
                chosen: *chosen,
                ranked: ranked@,
            },
        }
    }
}

impl ResolutionView {
    /// The candidate that the resolution selects, if any.
    pub open spec fn selected(self) -> Option<ScoredCandidate> {
        match self {
            ResolutionView::NoMatch => None,
            ResolutionView::Unique(candidate) => Some(candidate),
            ResolutionView::Ambiguous { chosen, ranked } => Some(chosen),
        }
    }
}

/// The score of a device name against a query. Both are lowered before they
/// are matched. A text whose lowercase form is longer than [`MATCH_LIMIT`]
/// is not matched and has no score.
pub open spec fn match_score(name: Seq<char>, query: Seq<char>) -> Option<i64> {
    let choice = lowercase_text(name);
    let pattern = lowercase_text(query);
    if choice.len() <= MATCH_LIMIT && pattern.len() <= MATCH_LIMIT {
        skim_score(choice, pattern)
    } else {
        None
    }
}

/// The scores of all devices of a list against a query, in list order.
pub open spec fn device_scores(devices: Seq<DeviceView>, query: Seq<char>) -> Seq<Option<i64>> {
    Seq::new(devices.len(), |i: int| match_score(devices[i].name, query))
}

/// Whether the device at `index` is a candidate: it has a score and the
/// score is positive.
pub open spec fn is_candidate(scores: Seq<Option<i64>>, index: int) -> bool {
    &&& 0 <= index < scores.len()
    &&& scores[index] matches Some(score)
    &&& score > 0
}

/// The ranking order: higher score first, equal scores by list position.
pub open spec fn ranks_before(a: ScoredCandidate, b: ScoredCandidate) -> bool {
    a.score > b.score || (a.score == b.score && a.index < b.index)
}

/// The first position at or after `from` whose entry scores below `score`:
/// where a new candidate with that score goes.
pub open spec fn insert_position(ranked: Seq<ScoredCandidate>, score: i64, from: int) -> int
    decreases ranked.len() - from,
{
    if 0 <= from < ranked.len() && ranked[from].score >= score {
        insert_position(ranked, score, from + 1)
    } else {
        from
    }
}

/// The ranked candidates of a list of scores: the devices with a positive
/// score, by falling score, equal scores in list order.
pub open spec fn ranking(scores: Seq<Option<i64>>) -> Seq<ScoredCandidate>
    decreases scores.len(),
{
    if scores.len() == 0 {
        Seq::empty()
    } else {
        let before = ranking(scores.drop_last());
        let index = (scores.len() - 1) as usize;
        match scores.last() {
            Some(score) => if score > 0 {
                before.insert(
                    insert_position(before, score, 0),
                    ScoredCandidate { index, score },
                )
            } else {
                before
            },
            None => before,
        }
    }
}

/// What is selected from a ranking: nothing from an empty one, the only
/// candidate of one, and the first of several.
pub open spec fn selection(ranked: Seq<ScoredCandidate>) -> ResolutionView {
    if ranked.len() == 0 {
        ResolutionView::NoMatch
    } else if ranked.len() == 1 {
        ResolutionView::Unique(ranked[0])
    } else {
        ResolutionView::Ambiguous { chosen: ranked[0], ranked }
    }
}

/// What a ranking of `scores` has to be: its entries are candidates with
/// their scores, every candidate is among them, and they stand in ranking
/// order.
pub open spec fn is_ranking(scores: Seq<Option<i64>>, ranked: Seq<ScoredCandidate>) -> bool {
    &&& forall|k: int|
        0 <= k < ranked.len() ==> {
            &&& is_candidate(scores, (#[trigger] ranked[k]).index as int)
            &&& scores[ranked[k].index as int] == Some(ranked[k].score)
        }
    &&& forall|i: int|
        #[trigger] is_candidate(scores, i) ==> exists|k: int|
            0 <= k < ranked.len() && (#[trigger] ranked[k]).index == i
    &&& forall|a: int, b: int|
        0 <= a < b < ranked.len() ==> ranks_before(#[trigger] ranked[a], #[trigger] ranked[b])
}

/// `insert_position` stops behind the entries that score at least `score`
/// and in front of the first that scores less.
pub proof fn lemma_insert_position(ranked: Seq<ScoredCandidate>, score: i64, from: int)
    requires
        0 <= from <= ranked.len(),
    ensures
        from <= insert_position(ranked, score, from) <= ranked.len(),
        forall|k: int|
            from <= k < insert_position(ranked, score, from) ==> (#[trigger] ranked[k]).score
                >= score,
        insert_position(ranked, score, from) < ranked.len() ==> ranked[insert_position(
            ranked,
            score,
            from,
        )].score < score,
    decreases ranked.len() - from,
{
    if from < ranked.len() && ranked[from].score >= score {
        lemma_insert_position(ranked, score, from + 1);
    }
}

/// `ranking` gives a ranking: exactly the candidates, in ranking order.
pub proof fn lemma_ranking_is_ranking(scores: Seq<Option<i64>>)
    requires
        scores.len() <= usize::MAX,
    ensures
        is_ranking(scores, ranking(scores)),
    decreases scores.len(),
{
    if scores.len() > 0 {
        let front = scores.drop_last();
        let before = ranking(front);
        let last = scores.len() - 1;
        lemma_ranking_is_ranking(front);
        assert forall|i: int| is_candidate(front, i) == (is_candidate(scores, i) && i != last) by {
            if 0 <= i < front.len() {
                assert(front[i] == scores[i]);
            }
        }
        if is_candidate(scores, last) {
            let score = scores.last()->0;
            let slot = insert_position(before, score, 0);
            let entry = ScoredCandidate { index: last as usize, score };
            let after = before.insert(slot, entry);
            lemma_insert_position(before, score, 0);
            assert(after == ranking(scores));
            assert forall|k: int| 0 <= k < after.len() implies {
                &&& is_candidate(scores, (#[trigger] after[k]).index as int)
                &&& scores[after[k].index as int] == Some(after[k].score)
            } by {
                if k < slot {
                    assert(after[k] == before[k]);
                    assert(is_candidate(front, before[k].index as int));
                } else if k > slot {
                    assert(after[k] == before[k - 1]);
                    assert(is_candidate(front, before[k - 1].index as int));
                }
            }
            assert forall|i: int| #[trigger] is_candidate(scores, i) implies exists|k: int|
                0 <= k < after.len() && (#[trigger] after[k]).index == i by {
                if i == last {
                    assert(after[slot].index == i);
                } else {
                    assert(is_candidate(front, i));
                    let k = choose|k: int| 0 <= k < before.len() && (#[trigger] before[k]).index == i;
                    if k < slot {
                        assert(after[k].index == i);
                    } else {
                        assert(after[k + 1] == before[k]);
                        assert(after[k + 1].index == i);
                    }
                }
            }
            assert forall|a: int, b: int| 0 <= a < b < after.len() implies ranks_before(
                #[trigger] after[a],
                #[trigger] after[b],
            ) by {
                let x = if a < slot { before[a] } else if a == slot { entry } else { before[a - 1] };
                let y = if b < slot { before[b] } else if b == slot { entry } else { before[b - 1] };
                assert(after[a] == x);
                assert(after[b] == y);
                if a < slot {
                    assert(is_candidate(front, before[a].index as int));
                }
                if b > slot {
                    if slot < b - 1 {
                        assert(ranks_before(before[slot], before[b - 1]));
                    }
                }
            }
        } else {
            assert(before == ranking(scores));
            assert forall|k: int| 0 <= k < before.len() implies {
                &&& is_candidate(scores, (#[trigger] before[k]).index as int)
                &&& scores[before[k].index as int] == Some(before[k].score)
            } by {
                assert(is_candidate(front, before[k].index as int));
            }
            assert forall|i: int| #[trigger] is_candidate(scores, i) implies exists|k: int|
                0 <= k < before.len() && (#[trigger] before[k]).index == i by {
                assert(is_candidate(front, i));
            }
        }
    }
}

/// Two rankings of the same scores agree on their first `upto` entries.
proof fn lemma_rankings_agree(
    scores: Seq<Option<i64>>,
    a: Seq<ScoredCandidate>,
    b: Seq<ScoredCandidate>,
    upto: int,
)
    requires
        is_ranking(scores, a),
        is_ranking(scores, b),
        0 <= upto <= a.len(),
    ensures
        upto <= b.len(),
        forall|j: int| 0 <= j < upto ==> a[j] == b[j],
    decreases upto,
{
    if upto > 0 {
        let k = upto - 1;
        lemma_rankings_agree(scores, a, b, k);
        assert(is_candidate(scores, a[k].index as int));
        let m = choose|m: int| 0 <= m < b.len() && (#[trigger] b[m]).index == a[k].index;
        assert(b[m] == a[k]);
        if m < k {
            assert(a[m] == b[m]);
            assert(ranks_before(a[m], a[k]));
        } else if m > k {
            assert(ranks_before(b[k], b[m]));
            assert(is_candidate(scores, b[k].index as int));
            let p = choose|p: int| 0 <= p < a.len() && (#[trigger] a[p]).index == b[k].index;
            assert(a[p] == b[k]);
            if p < k {
                assert(a[p] == b[p]);
                assert(ranks_before(b[p], b[k]));
            } else if p > k {
                assert(ranks_before(a[k], a[p]));
            }
        }
    }
}

/// The conditions of [`is_ranking`] leave no choice: a sequence that meets
/// them is the ranking.
pub proof fn lemma_ranking_is_unique(scores: Seq<Option<i64>>, ranked: Seq<ScoredCandidate>)
    requires
        scores.len() <= usize::MAX,
        is_ranking(scores, ranked),
    ensures
        ranked == ranking(scores),
{
    lemma_ranking_is_ranking(scores);
    lemma_rankings_agree(scores, ranked, ranking(scores), ranked.len() as int);
    lemma_rankings_agree(scores, ranking(scores), ranked, ranking(scores).len() as int);
    assert(ranked =~= ranking(scores));
}

/// The candidate that stands for the device at `index`.
pub open spec fn candidate_at(scores: Seq<Option<i64>>, index: int) -> ScoredCandidate {
    ScoredCandidate { index: index as usize, score: scores[index]->0 }
}

/// The selection policy, stated over the scores alone.
///
/// Without a candidate nothing is selected. With exactly one candidate that
/// one is selected. With several, the selected candidate has the highest
/// score of all, and of the candidates that share that score it is the
/// first in the list.
pub proof fn lemma_selection_policy(scores: Seq<Option<i64>>)
    requires
        scores.len() <= usize::MAX,
    ensures
        selection(ranking(scores)) is NoMatch <==> forall|i: int| !is_candidate(scores, i),
        selection(ranking(scores)) is Unique <==> exists|i: int|
            #![trigger is_candidate(scores, i)]
            is_candidate(scores, i) && forall|j: int| is_candidate(scores, j) ==> j == i,
        selection(ranking(scores)).selected() matches Some(chosen) ==> {
            &&& is_candidate(scores, chosen.index as int)
            &&& chosen == candidate_at(scores, chosen.index as int)
            &&& forall|i: int|
                #![trigger is_candidate(scores, i)]
                is_candidate(scores, i) && i != chosen.index ==> ranks_before(
                    chosen,
                    candidate_at(scores, i),
                )
        },
{
    let ranked = ranking(scores);
    lemma_ranking_is_ranking(scores);
    if ranked.len() == 0 {
        assert forall|i: int| !is_candidate(scores, i) by {
            if is_candidate(scores, i) {
                let k = choose|k: int| 0 <= k < ranked.len() && (#[trigger] ranked[k]).index == i;
            }
        }
    } else {
        let chosen = ranked[0];
        assert(is_candidate(scores, chosen.index as int));
        assert forall|i: int|
            #![trigger is_candidate(scores, i)]
            is_candidate(scores, i) && i != chosen.index implies ranks_before(
            chosen,
            candidate_at(scores, i),
        ) by {
            let k = choose|k: int| 0 <= k < ranked.len() && (#[trigger] ranked[k]).index == i;
            assert(ranks_before(ranked[0], ranked[k]));
            assert(ranked[k] == candidate_at(scores, i));
        }
        if ranked.len() == 1 {
            assert forall|j: int| is_candidate(scores, j) implies j == chosen.index by {
                let k = choose|k: int| 0 <= k < ranked.len() && (#[trigger] ranked[k]).index == j;
            }
        } else {
            let other = ranked[1];
            assert(ranks_before(ranked[0], ranked[1]));
            assert(is_candidate(scores, other.index as int));
            assert(other.index != chosen.index);
        }
    }
}

/// Resolution is case-insensitive: two queries with the same lowercase
/// form score every name alike, and so do two names with the same
/// lowercase form against every query.
pub proof fn lemma_score_ignores_case(name: Seq<char>, other_name: Seq<char>, query: Seq<char>, other_query: Seq<char>)
    ensures
        lowercase_text(query) == lowercase_text(other_query) ==> match_score(name, query)
            == match_score(name, other_query),
        lowercase_text(name) == lowercase_text(other_name) ==> match_score(name, query)
            == match_score(other_name, query),
{
}

/// Two queries with the same lowercase form resolve alike on every list
/// of devices.
pub proof fn lemma_resolution_ignores_case(
    devices: Seq<DeviceView>,
    query: Seq<char>,
    other_query: Seq<char>,
)
    ensures
        lowercase_text(query) == lowercase_text(other_query) ==> selection(
            ranking(device_scores(devices, query)),
        ) == selection(ranking(device_scores(devices, other_query))),
{
    if lowercase_text(query) == lowercase_text(other_query) {
        assert(device_scores(devices, query) =~= device_scores(devices, other_query));
    }
}

/// Scores one device name against a query, ignoring case.
pub fn score_name(name: &str, query: &str) -> (score: Option<i64>)
    ensures
        score == match_score(name@, query@),
{
    let choice = name.to_lowercase();
    let pattern = query.to_lowercase();
    if choice.as_str().unicode_len() <= MATCH_LIMIT && pattern.as_str().unicode_len()
        <= MATCH_LIMIT {
        skim_match(choice.as_str(), pattern.as_str())
    } else {
        None
    }
}

/// Scores every device of a list against a query.
pub fn score_devices(devices: &Vec<DeviceRecord>, query: &str) -> (scores: Vec<Option<i64>>)
    ensures
        scores@ == device_scores(record_views(devices@), query@),
{
    let mut scores: Vec<Option<i64>> = Vec::new();
    let mut i: usize = 0;
    while i < devices.len()
        invariant
            i <= devices.len(),
            scores.len() == i,
            forall|k: int|
                0 <= k < i ==> scores[k] == match_score(#[trigger] devices[k].name@, query@),
        decreases devices.len() - i,
    {
        scores.push(score_name(devices[i].name.as_str(), query));
        i += 1;
    }
    scores
}

/// Finds the place of a new candidate with `score` in a ranking.
fn insert_slot(ranked: &Vec<ScoredCandidate>, score: i64) -> (slot: usize)
    ensures
        slot == insert_position(ranked@, score, 0),
        slot <= ranked.len(),
{
    let mut slot: usize = 0;
    while slot < ranked.len() && ranked[slot].score >= score
        invariant
            slot <= ranked.len(),
            insert_position(ranked@, score, 0) == insert_position(ranked@, score, slot as int),
        decreases ranked.len() - slot,
    {
        slot += 1;
    }
    slot
}

/// Ranks the candidates among a list of scores.
///
/// `scores[i]` is the score of the device at position `i`, `None` where the
/// device did not match. Devices without a positive score are left out.
pub fn rank_candidates(scores: &Vec<Option<i64>>) -> (ranked: Vec<ScoredCandidate>)
    ensures
        ranked@ == ranking(scores@),
        is_ranking(scores@, ranked@),
{
    let mut ranked: Vec<ScoredCandidate> = Vec::new();
    let mut i: usize = 0;
    while i < scores.len()
        invariant
            i <= scores.len(),
            ranked@ == ranking(scores@.take(i as int)),
        decreases scores.len() - i,
    {
        assert(scores@.take(i + 1).drop_last() == scores@.take(i as int));
        match scores[i] {
            Some(score) => {
                if score > 0 {
                    let slot = insert_slot(&ranked, score);
                    ranked.insert(slot, ScoredCandidate { index: i, score });
                }
            },
            None => {},
        }
        i += 1;
    }
    assert(scores@.take(scores.len() as int) == scores@);
    proof {
        lemma_ranking_is_ranking(scores@);
    }
    ranked
}

/// Selects from a ranking: nothing from an empty one, else its first entry.
pub fn select(ranked: Vec<ScoredCandidate>) -> (resolution: Resolution)
    ensures
        resolution@ == selection(ranked@),
{
    if ranked.len() == 0 {
        Resolution::NoMatch
    } else if ranked.len() == 1 {
        Resolution::Unique(ranked[0])
    } else {
        let chosen = ranked[0];
        Resolution::Ambiguous { chosen, ranked }
    }
}

/// Resolves from scores that are already known: ranks the candidates and
/// selects from the ranking.
pub fn resolve_scores(scores: &Vec<Option<i64>>) -> (resolution: Resolution)
    ensures
        resolution@ == selection(ranking(scores@)),
        resolution@.selected() matches Some(chosen) ==> chosen.index < scores.len(),
{
    let ranked = rank_candidates(scores);
    select(ranked)
}

/// Resolves a query against a list of devices.
///
/// The result names the selected device by its position in `devices`.
pub fn resolve(devices: &Vec<DeviceRecord>, query: &str) -> (resolution: Resolution)
    ensures
        resolution@ == selection(ranking(device_scores(record_views(devices@), query@))),
        resolution@.selected() matches Some(chosen) ==> chosen.index < devices.len(),
{
    let scores = score_devices(devices, query);
    resolve_scores(&scores)
}

impl Resolution {
    /// The candidate that was selected, if any.
    pub fn selected(&self) -> (candidate: Option<ScoredCandidate>)
        ensures
            candidate == self@.selected(),
    {
        match self {
            Resolution::NoMatch => None,
            Resolution::Unique(candidate) => Some(*candidate),
            Resolution::Ambiguous { chosen, ranked } => Some(*chosen),
        }
    }

    /// The selected device itself, looked up in the list that was searched.
    pub fn device<'a>(&self, devices: &'a Vec<DeviceRecord>) -> (device: Option<&'a DeviceRecord>)
        ensures
            device == match self@.selected() {
                Some(chosen) => if chosen.index < devices.len() {
                    Some(&devices[chosen.index as int])
                } else {
                    None
                },
                None => None,
            },
    {
        match self.selected() {
            Some(chosen) => if chosen.index < devices.len() {
                Some(&devices[chosen.index])
            } else {
                None
            },
            None => None,
        }
    }
}

} // verus!
