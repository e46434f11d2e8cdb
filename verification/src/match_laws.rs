//! What holds of every resolution, proved from the definitions in
//! [`crate::matching`].

use crate::catalog::ChartRecord;
use crate::chart_type::ChartType;
use crate::matching::{
    candidate, candidate_for, chosen, covers_query, descending, has_affinity, is_continuation,
    match_score, near_best, rank_key, ranked, resolved, scored, singled_out, within, Candidate,
};
use crate::order::{
    ascending, lemma_filter_ascending, lemma_insert_by_key_behind, lemma_insert_by_key_front,
    lemma_sort_by_key, lemma_sort_by_key_members,
};
use crate::query::QueryView;
use crate::similarity::lemma_similarity_range;
use crate::text::uppercase;
use crate::tokens::tokens;
use vstd::prelude::*;

verus! {

/// The record at `i` scores exactly one, no candidate scores more, and every
/// candidate before it that scores one holds the very same record.
pub open spec fn leads(
    charts: Seq<ChartRecord>,
    query: Seq<char>,
    query_type: ChartType,
    i: int,
) -> bool {
    &&& 0 <= i < charts.len()
    &&& !is_continuation(charts[i].chart_name)
    &&& match_score(query, query_type, charts[i]) == 1_000_000
    &&& forall|j: int|
        0 <= j < charts.len() && !is_continuation((#[trigger] charts[j]).chart_name)
            ==> match_score(query, query_type, charts[j]) <= 1_000_000
    &&& forall|j: int|
        0 <= j < i && !is_continuation((#[trigger] charts[j]).chart_name) && match_score(
            query,
            query_type,
            charts[j],
        ) == 1_000_000 ==> charts[j] == charts[i]
}

/// A score is the likeness, which is at most one, and the bonus if it is due.
pub proof fn lemma_match_score_range(query: Seq<char>, query_type: ChartType, r: ChartRecord)
    ensures
        match_score(query, query_type, r) <= 1_150_000,
        !has_affinity(query_type, r) ==> match_score(query, query_type, r) <= 1_000_000,
{
    lemma_similarity_range(query, uppercase(r.chart_name));
}

/// A record whose upper-case title is the upper-case query scores one, and
/// the bonus on top where its category is the one asked for.
pub proof fn lemma_exact_title_score(query: Seq<char>, query_type: ChartType, r: ChartRecord)
    requires
        query == uppercase(r.chart_name),
    ensures
        match_score(query, query_type, r) == if has_affinity(query_type, r) {
            1_150_000nat
        } else {
            1_000_000nat
        },
{
    lemma_similarity_range(query, uppercase(r.chart_name));
}

/// Every candidate is a record of the catalog that is no continuation page,
/// with its score, which is above two tenths.
pub proof fn lemma_scored_members(
    charts: Seq<ChartRecord>,
    query: Seq<char>,
    query_type: ChartType,
    m: Candidate,
)
    requires
        scored(charts, query, query_type).contains(m),
    ensures
        charts.contains(m.chart),
        !is_continuation(m.chart.chart_name),
        m.score == match_score(query, query_type, m.chart),
        200_000 < m.score <= 1_150_000,
{
    let f = candidate_for(query, query_type);
    charts.lemma_filter_map_contains(f, m);
    let t = choose|t: ChartRecord| #[trigger] charts.contains(t) && f(t) == Some(m);
    assert(candidate(query, query_type, t) == Some(m));
    lemma_match_score_range(query, query_type, t);
}

/// The ranking holds the candidates and nothing else, from the highest
/// score down.
pub proof fn lemma_ranked(c: Seq<Candidate>)
    ensures
        descending(ranked(c)),
        ranked(c).len() == c.len(),
        ranked(c).to_multiset() == c.to_multiset(),
{
    lemma_sort_by_key(c, rank_key());
    let r = ranked(c);
    assert forall|i: int, j: int| 0 <= i <= j < r.len() implies r[i].score >= r[j].score by {
        assert((rank_key())(r[i]) <= (rank_key())(r[j]));
    }
}

/// What a filter keeps of candidates in descending order is in descending order.
pub proof fn lemma_filter_descending(c: Seq<Candidate>, keep: spec_fn(Candidate) -> bool)
    requires
        descending(c),
    ensures
        descending(c.filter(keep)),
{
    assert(ascending(c, rank_key())) by {
        assert forall|i: int, j: int| 0 <= i <= j < c.len() implies (rank_key())(c[i]) <= (
        rank_key())(c[j]) by {
            assert(c[i].score >= c[j].score);
        }
    }
    lemma_filter_ascending(c, rank_key(), keep);
    let r = c.filter(keep);
    assert forall|i: int, j: int| 0 <= i <= j < r.len() implies r[i].score >= r[j].score by {
        assert((rank_key())(r[i]) <= (rank_key())(r[j]));
    }
}

/// The candidates that a decision shows are among those it was given, and
/// in descending order if those were; a chart that it chooses is the chart
/// of one of them.
pub proof fn lemma_chosen(c: Seq<Candidate>, asked: Seq<Seq<char>>, gap: nat)
    ensures
        forall|k: int|
            0 <= k < chosen(c, asked, gap).1.len() ==> c.contains(
                #[trigger] chosen(c, asked, gap).1[k],
            ),
        descending(c) ==> descending(chosen(c, asked, gap).1),
        chosen(c, asked, gap).0 matches Some(chart) ==> exists|k: int|
            0 <= k < chosen(c, asked, gap).1.len() && (#[trigger] chosen(c, asked, gap).1[k]).chart
                == chart,
        chosen(c, asked, gap).0 is None && c.len() > 0 ==> chosen(c, asked, gap).1.len() > 0,
{
    let shown = chosen(c, asked, gap).1;
    let single = singled_out(c, asked);
    assert forall|k: int| 0 <= k < shown.len() implies c.contains(#[trigger] shown[k]) by {
        if shown == c {
            assert(c[k] == shown[k]);
        } else if shown == single {
            assert(single.contains(single[k]));
            c.lemma_filter_contains_rev(covers_query(asked), single[k]);
        } else {
            let near = near_best(c, gap);
            assert(near.contains(near[k]));
            c.lemma_filter_contains_rev(within(c[0].score, gap), near[k]);
        }
    }
    if descending(c) {
        lemma_filter_descending(c, covers_query(asked));
        if c.len() > 0 {
            lemma_filter_descending(c, within(c[0].score, gap));
        }
    }
    if c.len() > 0 {
        if c[0].score != 1_000_000 && single.len() == 1 {
            assert(single.contains(single[0]));
            c.lemma_filter_contains_rev(covers_query(asked), single[0]);
            let k = choose|k: int| 0 <= k < c.len() && c[k] == single[0];
            assert(shown[k].chart == single[0].chart);
        } else {
            assert(shown[0] == c[0] || chosen(c, asked, gap).0 is None);
        }
        if chosen(c, asked, gap).0 is None && single.len() <= 1 {
            c.lemma_filter_contains(within(c[0].score, gap), 0);
        }
    }
}

/// Whatever the catalog and the query: the candidates shown are records of
/// the catalog that are no continuation pages, each with its score, which is
/// above two tenths; they stand from the highest score down; a chart that is
/// chosen is the chart of one of them; and none is shown only where the
/// catalog holds no candidate at all.
pub proof fn lemma_resolved(charts: Seq<ChartRecord>, query: QueryView, gap: nat)
    ensures
        descending(resolved(charts, query, gap).1),
        forall|k: int|
            0 <= k < resolved(charts, query, gap).1.len() ==> {
                let m = #[trigger] resolved(charts, query, gap).1[k];
                &&& charts.contains(m.chart)
                &&& !is_continuation(m.chart.chart_name)
                &&& m.score == match_score(uppercase(query.chart_name), query.chart_type, m.chart)
                &&& 200_000 < m.score <= 1_150_000
            },
        resolved(charts, query, gap).0 matches Some(chart) ==> exists|k: int|
            0 <= k < resolved(charts, query, gap).1.len() && (#[trigger] resolved(
                charts,
                query,
                gap,
            ).1[k]).chart == chart,
        resolved(charts, query, gap).1.len() == 0 <==> scored(
            charts,
            uppercase(query.chart_name),
            query.chart_type,
        ).len() == 0,
{
    broadcast use vstd::seq_lib::group_to_multiset_ensures;

    let text = uppercase(query.chart_name);
    let c = scored(charts, text, query.chart_type);
    let r = ranked(c);
    let shown = resolved(charts, query, gap).1;
    lemma_ranked(c);
    lemma_chosen(r, tokens(text), gap);
    assert forall|k: int| 0 <= k < shown.len() implies {
        let m = #[trigger] shown[k];
        &&& charts.contains(m.chart)
        &&& !is_continuation(m.chart.chart_name)
        &&& m.score == match_score(text, query.chart_type, m.chart)
        &&& 200_000 < m.score <= 1_150_000
    } by {
        let m = shown[k];
        assert(r.contains(m));
        assert(r.to_multiset().count(m) > 0);
        assert(c.contains(m));
        lemma_scored_members(charts, text, query.chart_type, m);
    }
}

/// A record that leads the catalog is the first of the ranking.
pub proof fn lemma_leading_record_ranks_first(
    charts: Seq<ChartRecord>,
    query: Seq<char>,
    query_type: ChartType,
    i: int,
)
    requires
        leads(charts, query, query_type, i),
    ensures
        ranked(scored(charts, query, query_type)).len() > 0,
        ranked(scored(charts, query, query_type))[0] == (Candidate {
            chart: charts[i],
            score: 1_000_000,
        }),
    decreases charts.len(),
{
    let f = candidate_for(query, query_type);
    let head = charts.drop_last();
    let last = charts.last();
    let c_head = scored(head, query, query_type);
    let r_head = ranked(c_head);
    let best = Candidate { chart: charts[i], score: 1_000_000 };
    assert(candidate(query, query_type, charts[i]) == Some(best));
    assert forall|j: int| 0 <= j < head.len() implies head[j] == charts[j] by {}
    if i < charts.len() - 1 {
        assert(leads(head, query, query_type, i));
        lemma_leading_record_ranks_first(head, query, query_type, i);
        match f(last) {
            Some(m) => {
                assert((c_head + seq![m]).drop_last() =~= c_head);
                assert(charts[charts.len() - 1] == last);
                lemma_insert_by_key_behind(r_head, m, rank_key());
            },
            None => {},
        }
    } else {
        assert((c_head + seq![best]).drop_last() =~= c_head);
        if exists|j: int|
            0 <= j < i && !is_continuation((#[trigger] charts[j]).chart_name) && match_score(
                query,
                query_type,
                charts[j],
            ) == 1_000_000 {
            let j = choose|j: int|
                0 <= j < i && !is_continuation((#[trigger] charts[j]).chart_name) && match_score(
                    query,
                    query_type,
                    charts[j],
                ) == 1_000_000;
            assert(charts[j] == charts[i]);
            assert(leads(head, query, query_type, j)) by {
                assert forall|k: int|
                    0 <= k < j && !is_continuation((#[trigger] head[k]).chart_name) && match_score(
                        query,
                        query_type,
                        head[k],
                    ) == 1_000_000 implies head[k] == head[j] by {
                    assert(charts[k] == charts[i]);
                }
            }
            lemma_leading_record_ranks_first(head, query, query_type, j);
            lemma_insert_by_key_behind(r_head, best, rank_key());
        } else {
            lemma_sort_by_key_members(c_head, rank_key());
            assert forall|k: int| 0 <= k < r_head.len() implies (rank_key())(#[trigger] r_head[k])
                > (rank_key())(best) by {
                let e = r_head[k];
                assert(c_head.contains(e));
                head.lemma_filter_map_contains(f, e);
                let t = choose|t: ChartRecord| #[trigger] head.contains(t) && f(t) == Some(e);
                let j = choose|j: int| 0 <= j < head.len() && head[j] == t;
                assert(charts[j] == t);
                assert(candidate(query, query_type, t) == Some(e));
            }
            lemma_insert_by_key_front(r_head, best, rank_key());
        }
    }
}

/// A query that is the title of a record, but for the case of its letters,
/// resolves to that record, which leads the candidates with a score of
/// exactly one.
///
/// This holds of a record that can be chosen and is the first to be found:
/// it is no continuation page, it gains no bonus (with the bonus its score is
/// above one), no other record scores above one, and any record before it
/// in the catalog that scores one as well holds the very same record.
pub proof fn lemma_exact_title_resolves(
    charts: Seq<ChartRecord>,
    query: QueryView,
    gap: nat,
    i: int,
)
    requires
        0 <= i < charts.len(),
        uppercase(query.chart_name) == uppercase(charts[i].chart_name),
        !is_continuation(charts[i].chart_name),
        !has_affinity(query.chart_type, charts[i]),
        forall|j: int|
            0 <= j < charts.len() && !is_continuation((#[trigger] charts[j]).chart_name)
                ==> match_score(uppercase(query.chart_name), query.chart_type, charts[j])
                <= 1_000_000,
        forall|j: int|
            0 <= j < i && !is_continuation((#[trigger] charts[j]).chart_name) && match_score(
                uppercase(query.chart_name),
                query.chart_type,
                charts[j],
            ) == 1_000_000 ==> charts[j] == charts[i],
    ensures
        resolved(charts, query, gap).0 == Some(charts[i]),
        resolved(charts, query, gap).1 == ranked(
            scored(charts, uppercase(query.chart_name), query.chart_type),
        ),
        resolved(charts, query, gap).1[0] == (Candidate { chart: charts[i], score: 1_000_000 }),
{
    let text = uppercase(query.chart_name);
    lemma_exact_title_score(text, query.chart_type, charts[i]);
    lemma_leading_record_ranks_first(charts, text, query.chart_type, i);
}

/// A query that asks for no category, and is the title of a record but for
/// the case of its letters, resolves to the first record of the catalog that
/// has that title in upper case, with a score of exactly one.
pub proof fn lemma_exact_title_resolves_without_category(
    charts: Seq<ChartRecord>,
    query: QueryView,
    gap: nat,
    i: int,
)
    requires
        0 <= i < charts.len(),
        query.chart_type == ChartType::Unknown,
        uppercase(query.chart_name) == uppercase(charts[i].chart_name),
        !is_continuation(charts[i].chart_name),
        forall|j: int|
            0 <= j < i && !is_continuation((#[trigger] charts[j]).chart_name) ==> uppercase(
                charts[j].chart_name,
            ) != uppercase(query.chart_name),
    ensures
        resolved(charts, query, gap).0 == Some(charts[i]),
        resolved(charts, query, gap).1[0] == (Candidate { chart: charts[i], score: 1_000_000 }),
{
    let text = uppercase(query.chart_name);
    assert forall|j: int|
        0 <= j < charts.len() && !is_continuation(
            (#[trigger] charts[j]).chart_name,
        ) implies match_score(text, query.chart_type, charts[j]) <= 1_000_000 by {
        lemma_match_score_range(text, query.chart_type, charts[j]);
    }
    assert forall|j: int|
        0 <= j < i && !is_continuation((#[trigger] charts[j]).chart_name) && match_score(
            text,
            query.chart_type,
            charts[j],
        ) == 1_000_000 implies charts[j] == charts[i] by {
        lemma_similarity_range(text, uppercase(charts[j].chart_name));
    }
    lemma_exact_title_resolves(charts, query, gap, i);
}

/// Where the best candidate does not score exactly one, the words of the
/// query single out no candidate, and the second candidate is less than `gap`
/// behind the first, no chart is chosen, and the candidates shown are those
/// within `gap` of the first: the first and the second among them.
pub proof fn lemma_near_tie_is_ambiguous(c: Seq<Candidate>, asked: Seq<Seq<char>>, gap: nat)
    requires
        c.len() >= 2,
        c[0].score != 1_000_000,
        singled_out(c, asked).len() == 0,
        c[0].score - c[1].score < gap,
    ensures
        chosen(c, asked, gap).0 is None,
        chosen(c, asked, gap).1 == near_best(c, gap),
        near_best(c, gap).contains(c[0]),
        near_best(c, gap).contains(c[1]),
        forall|k: int|
            0 <= k < c.len() && (#[trigger] c[k]).score + gap >= c[0].score ==> near_best(
                c,
                gap,
            ).contains(c[k]),
        forall|k: int|
            0 <= k < near_best(c, gap).len() ==> (#[trigger] near_best(c, gap)[k]).score + gap
                >= c[0].score,
{
    let keep = within(c[0].score, gap);
    assert forall|k: int| 0 <= k < c.len() && (#[trigger] c[k]).score + gap
        >= c[0].score implies near_best(c, gap).contains(c[k]) by {
        c.lemma_filter_contains(keep, k);
    }
    assert(c[0].score + gap >= c[0].score);
    assert(c[1].score + gap >= c[0].score);
    assert forall|k: int| 0 <= k < near_best(c, gap).len() implies (#[trigger] near_best(
        c,
        gap,
    )[k]).score + gap >= c[0].score by {
        c.lemma_filter_pred(keep, k);
    }
}

} // verus!
