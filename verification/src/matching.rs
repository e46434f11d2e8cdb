//! Scoring every record of a catalog against a query, and deciding between
//! one match, several, and none.
//!
//! Scores are whole numbers of millionths: 1 000 000 is the score of a title
//! that is the query, letter for letter.

use crate::catalog::{record_type, records, ChartInfo, ChartRecord};
use crate::chart_type::ChartType;
use crate::match_laws::lemma_resolved;
use crate::order::{lemma_insert_by_key_at, sort_by_key};
use crate::query::{ChartQuery, QueryView};
use crate::similarity::{similarity, similarity_score, SCORE_ONE};
use crate::text::{chars_of, contains, has_text, uppercase};
use crate::tokens::{covers, covers_words, tokens, word_texts, words_of};
use vstd::prelude::*;

verus! {

/// A record scoring no more than this is no candidate: two tenths.
pub const MIN_SCORE: u32 = 200_000;

/// What a record gains whose category is the one asked for: fifteen hundredths.
pub const AFFINITY_BONUS: u32 = 150_000;

/// The usual distance under which the two best candidates count as tied:
/// fifteen hundredths.
pub const DEFAULT_AMBIGUITY_GAP: u32 = 150_000;

/// A record of the catalog with its score against the query.
#[derive(Debug, PartialEq, Eq)]
pub struct ChartMatch {
    pub chart: ChartInfo,
    /// The score, in millionths.
    pub score: u32,
}

/// What a [`ChartMatch`] holds.
pub struct Candidate {
    pub chart: ChartRecord,
    pub score: nat,
}

impl View for ChartMatch {
    type V = Candidate;

    open spec fn view(&self) -> Candidate {
        Candidate { chart: self.chart@, score: self.score as nat }
    }
}

impl Clone for ChartMatch {
    fn clone(&self) -> (r: Self)
        ensures
            r@ == self@,
    {
        ChartMatch { chart: self.chart.clone(), score: self.score }
    }
}

/// What each of the given matches holds, in their order.
pub open spec fn candidates(matches: Seq<ChartMatch>) -> Seq<Candidate> {
    matches.map_values(|m: ChartMatch| m@)
}

/// What a match that may be absent holds.
pub open spec fn candidate_of(m: Option<ChartMatch>) -> Option<Candidate> {
    match m {
        Some(x) => Some(x@),
        None => None,
    }
}

/// What a chart that may be absent holds.
pub open spec fn record_of(c: Option<ChartInfo>) -> Option<ChartRecord> {
    match c {
        Some(x) => Some(x@),
        None => None,
    }
}

/// What the outcome of a resolution holds.
pub open spec fn outcome_of(r: (Option<ChartInfo>, Vec<ChartMatch>)) -> (
    Option<ChartRecord>,
    Seq<Candidate>,
) {
    (record_of(r.0), candidates(r.1@))
}

/// The title is that of a continuation page.
pub open spec fn is_continuation(name: Seq<char>) -> bool {
    contains(name, ", CONT."@)
}

/// The record's category is the one asked for, and one was asked for.
pub open spec fn has_affinity(query_type: ChartType, r: ChartRecord) -> bool {
    query_type != ChartType::Unknown && record_type(r) == query_type
}

/// The score of a record against an upper-case query: the likeness of the
/// query and the upper-case title, and the bonus where the category agrees.
pub open spec fn match_score(query: Seq<char>, query_type: ChartType, r: ChartRecord) -> nat {
    similarity(query, uppercase(r.chart_name)) + if has_affinity(query_type, r) {
        150_000nat
    } else {
        0nat
    }
}

/// The record as a candidate, if it is one: no continuation page, and a
/// score above two tenths.
pub open spec fn candidate(query: Seq<char>, query_type: ChartType, r: ChartRecord) -> Option<
    Candidate,
> {
    if !is_continuation(r.chart_name) && match_score(query, query_type, r) > 200_000 {
        Some(Candidate { chart: r, score: match_score(query, query_type, r) })
    } else {
        None
    }
}

/// [`candidate`] for a given query, as a function of the record.
pub open spec fn candidate_for(query: Seq<char>, query_type: ChartType) -> spec_fn(
    ChartRecord,
) -> Option<Candidate> {
    |r: ChartRecord| candidate(query, query_type, r)
}

/// The candidates among the records, in the catalog's order.
pub open spec fn scored(charts: Seq<ChartRecord>, query: Seq<char>, query_type: ChartType) -> Seq<
    Candidate,
> {
    charts.filter_map(candidate_for(query, query_type))
}

/// The key by which candidates are ranked: the higher score comes first.
pub open spec fn rank_key() -> spec_fn(Candidate) -> int {
    |m: Candidate| -(m.score as int)
}

/// The candidates from the highest score down; those of one score stay in
/// the order they had.
pub open spec fn ranked(c: Seq<Candidate>) -> Seq<Candidate> {
    sort_by_key(c, rank_key())
}

/// The words of the candidate's upper-case title cover the words asked for.
pub open spec fn covers_query(asked: Seq<Seq<char>>) -> spec_fn(Candidate) -> bool {
    |m: Candidate| covers(tokens(uppercase(m.chart.chart_name)), asked)
}

/// The candidates whose titles cover every word asked for.
pub open spec fn covering(c: Seq<Candidate>, asked: Seq<Seq<char>>) -> Seq<Candidate> {
    c.filter(covers_query(asked))
}

/// The candidate's score is within `gap` of `best`.
pub open spec fn within(best: nat, gap: nat) -> spec_fn(Candidate) -> bool {
    |m: Candidate| m.score + gap >= best
}

/// The candidates whose score is within `gap` of the first one's.
pub open spec fn near_best(c: Seq<Candidate>, gap: nat) -> Seq<Candidate>
    recommends
        c.len() > 0,
{
    c.filter(within(c[0].score, gap))
}

/// The candidates that the words of the query single out: none for a query
/// of one word or less.
pub open spec fn singled_out(c: Seq<Candidate>, asked: Seq<Seq<char>>) -> Seq<Candidate> {
    if asked.len() > 1 {
        covering(c, asked)
    } else {
        Seq::empty()
    }
}

/// The scores never rise from one candidate to the next.
pub open spec fn descending(c: Seq<Candidate>) -> bool {
    forall|i: int, j: int| 0 <= i <= j < c.len() ==> c[i].score >= c[j].score
}

/// The decision over ranked candidates: the chart that matches, if one does,
/// and the candidates to show.
///
/// A first candidate with a score of exactly one is the match. Failing that,
/// a query of several words is held against the words of each title: where one
/// title alone covers them it is the match, where several do they are shown
/// and none is chosen. Failing that too, the first candidate is the match
/// unless the second is less than `gap` behind it: then all that are within
/// `gap` of the first are shown and none is chosen.
pub open spec fn chosen(c: Seq<Candidate>, asked: Seq<Seq<char>>, gap: nat) -> (
    Option<ChartRecord>,
    Seq<Candidate>,
) {
    if c.len() == 0 {
        (None, Seq::empty())
    } else if c[0].score == 1_000_000 {
        (Some(c[0].chart), c)
    } else if singled_out(c, asked).len() == 1 {
        (Some(singled_out(c, asked)[0].chart), c)
    } else if singled_out(c, asked).len() > 1 {
        (None, singled_out(c, asked))
    } else if c.len() > 1 && c[0].score - c[1].score < gap {
        (None, near_best(c, gap))
    } else {
        (Some(c[0].chart), c)
    }
}

/// The outcome of resolving a query against a catalog.
pub open spec fn resolved(charts: Seq<ChartRecord>, query: QueryView, gap: nat) -> (
    Option<ChartRecord>,
    Seq<Candidate>,
) {
    let text = uppercase(query.chart_name);
    chosen(ranked(scored(charts, text, query.chart_type)), tokens(text), gap)
}

/// Scores one record against an upper-case query.
pub fn score_chart(query_upper: &str, query_type: ChartType, chart: &ChartInfo) -> (m: Option<
    ChartMatch,
>)
    ensures
        candidate_of(m) == candidate(query_upper@, query_type, chart@),
{
    let name = chars_of(chart.chart_name.as_str());
    if has_text(&name, ", CONT.") {
        return None;
    }
    let title = chart.chart_name.as_str().to_uppercase();
    let mut score: u32 = similarity_score(query_upper, title.as_str());
    if query_type != ChartType::Unknown && chart.chart_type() == query_type {
        score = score + AFFINITY_BONUS;
    }
    if score > MIN_SCORE {
        Some(ChartMatch { chart: chart.clone(), score })
    } else {
        None
    }
}

/// Scores every record of the catalog against an upper-case query and keeps
/// the candidates, in the catalog's order.
pub fn score_catalog(charts: &[ChartInfo], query_upper: &str, query_type: ChartType) -> (found: Vec<
    ChartMatch,
>)
    ensures
        candidates(found@) == scored(records(charts@), query_upper@, query_type),
{
    let ghost all = records(charts@);
    let ghost f = candidate_for(query_upper@, query_type);
    let mut found: Vec<ChartMatch> = Vec::new();
    let mut i: usize = 0;
    assert(all.take(0).filter_map(f) =~= Seq::<Candidate>::empty());
    while i < charts.len()
        invariant
            i <= charts.len(),
            all == records(charts@),
            f == candidate_for(query_upper@, query_type),
            candidates(found@) == all.take(i as int).filter_map(f),
        decreases charts.len() - i,
    {
        let m = score_chart(query_upper, query_type, &charts[i]);
        assert(all[i as int] == charts@[i as int]@);
        let ghost before = candidates(found@);
        proof {
            all.lemma_filter_map_take_succ(f, i as int);
        }
        match m {
            Some(x) => {
                found.push(x);
                assert(candidates(found@) =~= before + seq![x@]);
            },
            None => {
                assert(before + Seq::<Candidate>::empty() =~= before);
            },
        }
        i += 1;
    }
    assert(all.take(charts.len() as int) =~= all);
    found
}

/// Puts the matches in order, from the highest score down; matches of one
/// score stay in the order they had.
pub fn rank_matches(found: &Vec<ChartMatch>) -> (r: Vec<ChartMatch>)
    ensures
        candidates(r@) == ranked(candidates(found@)),
{
    let ghost all = candidates(found@);
    let mut r: Vec<ChartMatch> = Vec::new();
    let mut i: usize = 0;
    assert(all.take(0) =~= Seq::<Candidate>::empty());
    assert(candidates(r@) =~= ranked(all.take(0)));
    while i < found.len()
        invariant
            i <= found.len(),
            all == candidates(found@),
            r.len() == i,
            candidates(r@) == ranked(all.take(i as int)),
        decreases found.len() - i,
    {
        let x = found[i].clone();
        let mut at: usize = r.len();
        while at > 0 && r[at - 1].score < x.score
            invariant
                at <= r.len(),
                forall|k: int| at <= k < r.len() ==> r@[k].score < x.score,
            decreases at,
        {
            at -= 1;
        }
        let ghost before = candidates(r@);
        proof {
            assert(all.take(i + 1).drop_last() =~= all.take(i as int));
            assert(all.take(i + 1).last() == x@);
            assert forall|k: int| at <= k < before.len() implies (rank_key())(before[k]) > (
            rank_key())(x@) by {
                assert(before[k] == r@[k]@);
            }
            if at > 0 {
                assert(before[at - 1] == r@[at - 1]@);
            }
            lemma_insert_by_key_at(before, x@, rank_key(), at as int);
        }
        r.insert(at, x);
        assert(candidates(r@) =~= before.insert(at as int, x@));
        i += 1;
    }
    assert(all.take(found.len() as int) =~= all);
    r
}

/// The matches that are marked to be kept, where the marks say of each
/// match whether `wanted` holds of it.
fn kept_matches(
    found: &Vec<ChartMatch>,
    marks: &Vec<bool>,
    Ghost(wanted): Ghost<spec_fn(Candidate) -> bool>,
) -> (kept: Vec<ChartMatch>)
    requires
        marks.len() == found.len(),
        forall|k: int| 0 <= k < found.len() ==> marks@[k] == wanted(#[trigger] found@[k]@),
    ensures
        candidates(kept@) == candidates(found@).filter(wanted),
{
    let ghost all = candidates(found@);
    let mut kept: Vec<ChartMatch> = Vec::new();
    let mut i: usize = 0;
    proof {
        reveal(Seq::filter);
        assert(all.take(0) =~= Seq::<Candidate>::empty());
    }
    assert(candidates(kept@) =~= all.take(0).filter(wanted));
    while i < found.len()
        invariant
            i <= found.len(),
            marks.len() == found.len(),
            all == candidates(found@),
            forall|k: int| 0 <= k < found.len() ==> marks@[k] == wanted(#[trigger] found@[k]@),
            candidates(kept@) == all.take(i as int).filter(wanted),
        decreases found.len() - i,
    {
        let ghost before = candidates(kept@);
        proof {
            reveal(Seq::filter);
            assert(all.take(i + 1).drop_last() =~= all.take(i as int));
            assert(all.take(i + 1).last() == found@[i as int]@);
        }
        if marks[i] {
            let x = found[i].clone();
            kept.push(x);
            assert(candidates(kept@) =~= before.push(x@));
        }
        i += 1;
    }
    assert(all.take(found.len() as int) =~= all);
    kept
}

/// The matches whose upper-case titles cover every word asked for.
pub fn covering_matches(found: &Vec<ChartMatch>, asked: &Vec<Vec<char>>) -> (kept: Vec<ChartMatch>)
    ensures
        candidates(kept@) == covering(candidates(found@), word_texts(asked@)),
{
    let mut marks: Vec<bool> = Vec::new();
    for i in 0..found.len()
        invariant
            marks.len() == i,
            forall|k: int|
                0 <= k < i ==> marks@[k] == (covers_query(word_texts(asked@)))(
                    #[trigger] found@[k]@,
                ),
    {
        let title = found[i].chart.chart_name.as_str().to_uppercase();
        let words = words_of(&chars_of(title.as_str()));
        marks.push(covers_words(&words, asked));
    }
    kept_matches(found, &marks, Ghost(covers_query(word_texts(asked@))))
}

/// The matches whose score is within `gap` of `best`.
pub fn matches_within(found: &Vec<ChartMatch>, best: u32, gap: u32) -> (kept: Vec<ChartMatch>)
    ensures
        candidates(kept@) == candidates(found@).filter(within(best as nat, gap as nat)),
{
    let mut marks: Vec<bool> = Vec::new();
    for i in 0..found.len()
        invariant
            marks.len() == i,
            forall|k: int|
                0 <= k < i ==> marks@[k] == (within(best as nat, gap as nat))(
                    #[trigger] found@[k]@,
                ),
    {
        marks.push(found[i].score as u64 + gap as u64 >= best as u64);
    }
    kept_matches(found, &marks, Ghost(within(best as nat, gap as nat)))
}

/// Decides over ranked matches: the chart that matches, if one does, and the
/// matches to show. `query_upper` is the upper-case query, `gap` the distance,
/// in millionths, under which the two best count as tied.
pub fn choose_match(found: Vec<ChartMatch>, query_upper: &str, gap: u32) -> (r: (
    Option<ChartInfo>,
    Vec<ChartMatch>,
))
    ensures
        outcome_of(r) == chosen(candidates(found@), tokens(query_upper@), gap as nat),
{
    let ghost c = candidates(found@);
    let ghost asked = tokens(query_upper@);
    if found.len() == 0 {
        let none: Vec<ChartMatch> = Vec::new();
        assert(candidates(none@) =~= Seq::<Candidate>::empty());
        return (None, none);
    }
    assert(c[0] == found@[0]@);
    if found[0].score == SCORE_ONE {
        let best = found[0].chart.clone();
        return (Some(best), found);
    }
    let words = words_of(&chars_of(query_upper));
    if words.len() > 1 {
        let full = covering_matches(&found, &words);
        assert(candidates(full@) == singled_out(c, asked));
        if full.len() == 1 {
            assert(candidates(full@)[0] == full@[0]@);
            let only = full[0].chart.clone();
            return (Some(only), found);
        } else if full.len() > 1 {
            return (None, full);
        }
    }
    assert(singled_out(c, asked).len() == 0);
    if found.len() > 1 {
        assert(c[1] == found@[1]@);
        if (found[0].score as i64) - (found[1].score as i64) < gap as i64 {
            let close = matches_within(&found, found[0].score, gap);
            return (None, close);
        }
    }
    let best = found[0].chart.clone();
    (Some(best), found)
}

/// Resolves a query against a catalog: the chart that matches, if exactly one
/// does, and the candidates from the best score down. `ambiguity_threshold`
/// is the distance, in millionths, under which the two best count as tied.
pub fn find_chart_by_name(charts: &[ChartInfo], query: &ChartQuery, ambiguity_threshold: u32) -> (r:
    (Option<ChartInfo>, Vec<ChartMatch>))
    ensures
        outcome_of(r) == resolved(records(charts@), query@, ambiguity_threshold as nat),
        descending(candidates(r.1@)),
        r.0 is Some ==> r.1.len() > 0,
{
    proof {
        lemma_resolved(records(charts@), query@, ambiguity_threshold as nat);
    }
    let text = query.chart_name.as_str().to_uppercase();
    let found = score_catalog(charts, text.as_str(), query.chart_type);
    let in_order = rank_matches(&found);
    choose_match(in_order, text.as_str(), ambiguity_threshold)
}

} // verus!
