//! Ranking of scored candidates and the decision that follows from it.

use crate::candidate::{MediaType, MetadataCandidate};
use crate::decision::{
    apply_metadata_decision, BookMetadataState, MetadataDecision, SCORE_THRESHOLD,
};
use crate::scorer::{
    candidate_score, japanese_context, optional_str, score_candidate_with_context, ScoreContext,
};
use crate::text::strings;
use vstd::prelude::*;

verus! {

/// A candidate below this score, 55 points, is not shown.
pub const MIN_SCORE: u32 = 55_000;

/// How many candidates a result lists at most.
pub const MAX_CANDIDATES: usize = 5;

/// A candidate with its confidence, in thousandths of a point.
#[derive(Debug)]
pub struct RankedCandidate {
    pub candidate: MetadataCandidate,
    pub score: u32,
}

/// What one resolution attempt hands back.
#[derive(Debug)]
pub struct SearchResult {
    /// Best first, at most `MAX_CANDIDATES`, none below `MIN_SCORE`.
    pub ranked_candidates: Vec<RankedCandidate>,
    /// The first query that was generated, whichever query found the winner.
    pub search_query_used: String,
    /// Present exactly when a single candidate survived the ranking.
    pub decision: Option<MetadataDecision>,
}

impl SearchResult {
    /// A result lists at least one and at most `MAX_CANDIDATES` candidates,
    /// best first, none of them anime or below the minimum score, and holds a
    /// decision exactly when it lists one candidate.
    pub open spec fn well_formed(&self) -> bool {
        &&& 0 < self.ranked_candidates@.len() <= MAX_CANDIDATES
        &&& sorted_descending(self.ranked_candidates@)
        &&& all_eligible(self.ranked_candidates@)
        &&& decision_matches(self.decision, self.ranked_candidates@)
    }
}

/// Whether a scored candidate may appear in a result.
pub open spec fn eligible(e: RankedCandidate) -> bool {
    e.candidate.media_type != MediaType::Anime && e.score >= MIN_SCORE
}

/// `e` placed behind every entry that scores at least as much.
pub open spec fn insert_by_score(sorted: Seq<RankedCandidate>, e: RankedCandidate) -> Seq<
    RankedCandidate,
>
    decreases sorted.len(),
{
    if sorted.len() == 0 {
        seq![e]
    } else if sorted.last().score >= e.score {
        sorted.push(e)
    } else {
        insert_by_score(sorted.drop_last(), e).push(sorted.last())
    }
}

/// The eligible entries of `pool`, best first; among equal scores the one
/// that came first in `pool` stays first.
pub open spec fn eligible_by_score(pool: Seq<RankedCandidate>) -> Seq<RankedCandidate>
    decreases pool.len(),
{
    if pool.len() == 0 {
        Seq::empty()
    } else if eligible(pool.last()) {
        insert_by_score(eligible_by_score(pool.drop_last()), pool.last())
    } else {
        eligible_by_score(pool.drop_last())
    }
}

/// The first `n` entries of `s`, or all of them if there are fewer.
pub open spec fn first_n(s: Seq<RankedCandidate>, n: int) -> Seq<RankedCandidate> {
    if s.len() <= n {
        s
    } else {
        s.take(n)
    }
}

/// What a result lists for a pool of scored candidates.
pub open spec fn ranking(pool: Seq<RankedCandidate>) -> Seq<RankedCandidate> {
    first_n(eligible_by_score(pool), MAX_CANDIDATES as int)
}

/// No entry scores more than the one before it.
pub open spec fn sorted_descending(s: Seq<RankedCandidate>) -> bool {
    forall|i: int, j: int|
        0 <= i <= j < s.len() ==> (#[trigger] s[i]).score >= (#[trigger] s[j]).score
}

/// Every entry may appear in a result.
pub open spec fn all_eligible(s: Seq<RankedCandidate>) -> bool {
    forall|i: int| 0 <= i < s.len() ==> eligible(#[trigger] s[i])
}

/// Inserting at the place behind the last entry that scores at least as much
/// is what `insert_by_score` does.
pub proof fn lemma_insert_position(sorted: Seq<RankedCandidate>, e: RankedCandidate, p: int)
    requires
        0 <= p <= sorted.len(),
        forall|k: int| p <= k < sorted.len() ==> sorted[k].score < e.score,
        p > 0 ==> sorted[p - 1].score >= e.score,
    ensures
        insert_by_score(sorted, e) == sorted.insert(p, e),
    decreases sorted.len(),
{
    if sorted.len() == 0 {
        assert(sorted.insert(p, e) =~= seq![e]);
    } else if p == sorted.len() {
        assert(sorted.insert(p, e) =~= sorted.push(e));
    } else {
        lemma_insert_position(sorted.drop_last(), e, p);
        assert(sorted.drop_last().insert(p, e).push(sorted.last()) =~= sorted.insert(p, e));
    }
}

/// In a descending list `insert_by_score` puts `e` at the one place that has
/// every entry scoring at least as much before it and every lower one behind.
pub proof fn lemma_insert_point(sorted: Seq<RankedCandidate>, e: RankedCandidate) -> (p: int)
    requires
        sorted_descending(sorted),
    ensures
        0 <= p <= sorted.len(),
        forall|k: int| 0 <= k < p ==> (#[trigger] sorted[k]).score >= e.score,
        forall|k: int| p <= k < sorted.len() ==> (#[trigger] sorted[k]).score < e.score,
        insert_by_score(sorted, e) == sorted.insert(p, e),
    decreases sorted.len(),
{
    if sorted.len() == 0 {
        assert(sorted.insert(0, e) =~= seq![e]);
        0
    } else if sorted.last().score >= e.score {
        assert(sorted.insert(sorted.len() as int, e) =~= sorted.push(e));
        assert forall|k: int| 0 <= k < sorted.len() implies (#[trigger] sorted[k]).score
            >= e.score by {
            assert(sorted[k].score >= sorted[sorted.len() - 1].score);
        }
        sorted.len() as int
    } else {
        let front = sorted.drop_last();
        assert(sorted_descending(front)) by {
            assert forall|i: int, j: int| 0 <= i <= j < front.len() implies front[i].score
                >= front[j].score by {
                assert(sorted[i].score >= sorted[j].score);
            }
        }
        let p = lemma_insert_point(front, e);
        assert(front.insert(p, e).push(sorted.last()) =~= sorted.insert(p, e));
        assert forall|k: int| 0 <= k < p implies (#[trigger] sorted[k]).score >= e.score by {
            assert(front[k].score >= e.score);
        }
        assert forall|k: int| p <= k < sorted.len() implies (#[trigger] sorted[k]).score
            < e.score by {
            if k < front.len() {
                assert(front[k].score < e.score);
            }
        }
        p
    }
}

/// The eligible entries by score are descending, eligible, and drawn from the
/// pool.
pub proof fn lemma_eligible_by_score(pool: Seq<RankedCandidate>)
    ensures
        sorted_descending(eligible_by_score(pool)),
        all_eligible(eligible_by_score(pool)),
        eligible_by_score(pool).len() <= pool.len(),
        forall|i: int|
            0 <= i < eligible_by_score(pool).len() ==> pool.contains(
                #[trigger] eligible_by_score(pool)[i],
            ),
    decreases pool.len(),
{
    let out = eligible_by_score(pool);
    if pool.len() > 0 {
        let front = pool.drop_last();
        let rest = eligible_by_score(front);
        lemma_eligible_by_score(front);
        assert forall|i: int| 0 <= i < rest.len() implies pool.contains(#[trigger] rest[i]) by {
            assert(front.contains(rest[i]));
            let k = choose|k: int| 0 <= k < front.len() && front[k] == rest[i];
            assert(pool[k] == rest[i]);
        }
        assert(pool[pool.len() - 1] == pool.last());
        if eligible(pool.last()) {
            let p = lemma_insert_point(rest, pool.last());
            assert forall|i: int| 0 <= i < out.len() implies eligible(#[trigger] out[i])
                && pool.contains(out[i]) by {
                if i < p {
                    assert(out[i] == rest[i]);
                } else if i > p {
                    assert(out[i] == rest[i - 1]);
                }
            }
        }
    }
}

/// Every ranking is descending by score, free of anime and of entries below
/// the minimum score, and at most `MAX_CANDIDATES` long.
pub proof fn lemma_ranking_is_well_formed(pool: Seq<RankedCandidate>)
    ensures
        sorted_descending(ranking(pool)),
        all_eligible(ranking(pool)),
        ranking(pool).len() <= MAX_CANDIDATES,
        forall|i: int|
            0 <= i < ranking(pool).len() ==> (#[trigger] ranking(pool)[i]).candidate.media_type
                != MediaType::Anime && ranking(pool)[i].score >= MIN_SCORE && pool.contains(
                ranking(pool)[i],
            ),
{
    lemma_eligible_by_score(pool);
    let all = eligible_by_score(pool);
    let r = ranking(pool);
    assert forall|i: int| 0 <= i < r.len() implies eligible(#[trigger] r[i]) && pool.contains(
        r[i],
    ) by {
        assert(r[i] == all[i]);
    }
}

/// Places `e` behind every entry that scores at least as much.
pub fn insert_ranked(sorted: &mut Vec<RankedCandidate>, e: RankedCandidate)
    ensures
        final(sorted)@ == insert_by_score(old(sorted)@, e),
{
    let mut p: usize = sorted.len();
    while p > 0 && sorted[p - 1].score < e.score
        invariant
            p <= sorted.len(),
            sorted@ == old(sorted)@,
            forall|k: int| p <= k < sorted.len() ==> (#[trigger] sorted@[k]).score < e.score,
        decreases p,
    {
        p -= 1;
    }
    proof {
        lemma_insert_position(sorted@, e, p as int);
    }
    sorted.insert(p, e);
}

/// Sorts the scored candidates best first, keeping the order of discovery
/// among equal scores, drops anime and everything below `MIN_SCORE`, and keeps
/// the first `MAX_CANDIDATES`.
pub fn rank_candidates(scored: Vec<RankedCandidate>) -> (ranked: Vec<RankedCandidate>)
    ensures
        ranked@ == ranking(scored@),
        sorted_descending(ranked@),
        all_eligible(ranked@),
        ranked.len() <= MAX_CANDIDATES,
{
    let ghost pool = scored@;
    let mut sorted: Vec<RankedCandidate> = Vec::new();
    for e in it: scored
        invariant
            it.seq() == pool,
            sorted@ == eligible_by_score(pool.take(it.index())),
    {
        proof {
            assert(pool.take(it.index() + 1).drop_last() =~= pool.take(it.index()));
            assert(pool.take(it.index() + 1).last() == e);
        }
        let keep = match e.candidate.media_type {
            MediaType::Anime => false,
            _ => e.score >= MIN_SCORE,
        };
        if keep {
            insert_ranked(&mut sorted, e);
        }
    }
    proof {
        assert(pool.take(pool.len() as int) =~= pool);
        lemma_ranking_is_well_formed(pool);
    }
    if sorted.len() > MAX_CANDIDATES {
        sorted.truncate(MAX_CANDIDATES);
    }
    sorted
}

/// Whether `scored` is `pool` with each candidate scored against the search
/// title and author, in the same order.
pub open spec fn is_scored_pool(
    scored: Seq<RankedCandidate>,
    pool: Seq<(MetadataCandidate, String)>,
    title: Seq<char>,
    author: Option<Seq<char>>,
    is_japanese: bool,
) -> bool {
    &&& scored.len() == pool.len()
    &&& forall|i: int|
        0 <= i < pool.len() ==> (#[trigger] scored[i]).candidate == pool[i].0 && scored[i].score
            == candidate_score(pool[i].0@, title, author, is_japanese)
}

/// Scores every candidate of the pool against the book's own title and author.
/// The query that found a candidate plays no part in its score.
pub fn score_pool(
    pool: Vec<(MetadataCandidate, String)>,
    title: &str,
    author: Option<&str>,
    ctx: &ScoreContext,
) -> (scored: Vec<RankedCandidate>)
    ensures
        is_scored_pool(scored@, pool@, title@, optional_str(author), ctx.is_japanese),
{
    let ghost all = pool@;
    let mut scored: Vec<RankedCandidate> = Vec::new();
    for entry in it: pool
        invariant
            it.seq() == all,
            is_scored_pool(
                scored@,
                all.take(it.index()),
                title@,
                optional_str(author),
                ctx.is_japanese,
            ),
    {
        let (candidate, _query) = entry;
        let score = score_candidate_with_context(&candidate, title, author, None, Some(ctx));
        scored.push(RankedCandidate { candidate, score });
    }
    proof {
        assert(all.take(all.len() as int) =~= all);
    }
    scored
}

/// What is decided for a ranking: nothing unless exactly one candidate is
/// left; that one is confirmed and applied exactly when it reaches the
/// threshold.
pub open spec fn decision_matches(d: Option<MetadataDecision>, ranked: Seq<RankedCandidate>) -> bool {
    if ranked.len() == 1 {
        &&& d is Some
        &&& d->0.confirmed == (ranked[0].score >= SCORE_THRESHOLD)
        &&& d->0.apply == d->0.confirmed
        &&& d->0.score == ranked[0].score
        &&& d->0.candidate@ == ranked[0].candidate@
    } else {
        d is None
    }
}

/// Decides for a ranking. With several candidates left the choice is the
/// user's, and nothing is decided.
pub fn decide(ranked: &Vec<RankedCandidate>, flags: &BookMetadataState) -> (d: Option<
    MetadataDecision,
>)
    ensures
        decision_matches(d, ranked@),
{
    if ranked.len() == 1 {
        Some(apply_metadata_decision(ranked[0].candidate.duplicate(), ranked[0].score, flags))
    } else {
        None
    }
}

/// What a resolution hands back for the queries that were generated and the
/// scored candidates that they found.
pub open spec fn outcome_matches(
    r: Option<SearchResult>,
    queries: Seq<Seq<char>>,
    scored: Seq<RankedCandidate>,
) -> bool {
    if queries.len() == 0 || ranking(scored).len() == 0 {
        r is None
    } else {
        &&& r is Some
        &&& r->0.ranked_candidates@ == ranking(scored)
        &&& r->0.search_query_used@ == queries[0]
        &&& decision_matches(r->0.decision, ranking(scored))
    }
}

/// Ranks the scored candidates and decides. There is no result when no query
/// could be generated or no candidate survives the ranking; that is an
/// ordinary outcome. The query reported is the first one generated.
pub fn conclude(variations: &Vec<String>, scored: Vec<RankedCandidate>, flags: &BookMetadataState) -> (r:
    Option<SearchResult>)
    ensures
        outcome_matches(r, strings(variations@), scored@),
        r matches Some(result) ==> result.well_formed(),
{
    if variations.len() == 0 {
        return None;
    }
    let ranked = rank_candidates(scored);
    if ranked.len() == 0 {
        return None;
    }
    let decision = decide(&ranked, flags);
    Some(
        SearchResult {
            ranked_candidates: ranked,
            search_query_used: variations[0].clone(),
            decision,
        },
    )
}

/// The outcome of a search whose queries found the candidates of `pool`.
pub open spec fn resolution_matches(
    r: Option<SearchResult>,
    queries: Seq<Seq<char>>,
    pool: Seq<(MetadataCandidate, String)>,
    title: Seq<char>,
    path: Option<Seq<char>>,
    author: Option<Seq<char>>,
) -> bool {
    exists|scored: Seq<RankedCandidate>|
        is_scored_pool(scored, pool, title, author, japanese_context(title, path))
            && outcome_matches(r, queries, scored)
}

/// Scores, ranks and decides for the candidates that the queries found.
pub fn resolve(
    title: &str,
    path: Option<&str>,
    author: Option<&str>,
    variations: &Vec<String>,
    pool: Vec<(MetadataCandidate, String)>,
    flags: &BookMetadataState,
) -> (r: Option<SearchResult>)
    ensures
        resolution_matches(
            r,
            strings(variations@),
            pool@,
            title@,
            optional_str(path),
            optional_str(author),
        ),
        variations.len() == 0 || pool.len() == 0 ==> r is None,
        r matches Some(result) ==> result.well_formed(),
{
    let ctx = ScoreContext::new(title, path);
    let scored = score_pool(pool, title, author, &ctx);
    proof {
        lemma_eligible_by_score(scored@);
    }
    conclude(variations, scored, flags)
}

impl SearchResult {
    /// Whether the result is well formed. A result that `resolve` or
    /// `conclude` hands out always is; one that was put together by hand or
    /// changed afterwards need not be.
    pub fn is_well_formed(&self) -> (b: bool)
        ensures
            b == self.well_formed(),
    {
        let ranked = &self.ranked_candidates;
        if ranked.len() == 0 || ranked.len() > MAX_CANDIDATES {
            return false;
        }
        let mut i: usize = 0;
        while i < ranked.len()
            invariant
                i <= ranked.len(),
                0 < ranked.len() <= MAX_CANDIDATES,
                ranked@ == self.ranked_candidates@,
                forall|k: int| 0 <= k < i ==> eligible(#[trigger] ranked@[k]),
                forall|j: int, k: int|
                    0 <= j <= k < i ==> (#[trigger] ranked@[j]).score >= (
                    #[trigger] ranked@[k]).score,
            decreases ranked.len() - i,
        {
            let entry = &ranked[i];
            let keep = match entry.candidate.media_type {
                MediaType::Anime => false,
                _ => entry.score >= MIN_SCORE,
            };
            if !keep {
                proof {
                    assert(!eligible(ranked@[i as int]));
                }
                return false;
            }
            if i > 0 && ranked[i - 1].score < entry.score {
                proof {
                    assert(ranked@[i - 1].score < ranked@[i as int].score);
                }
                return false;
            }
            proof {
                assert forall|j: int, k: int| 0 <= j <= k < i + 1 implies (
                #[trigger] ranked@[j]).score >= (#[trigger] ranked@[k]).score by {
                    if k == i && j < i {
                        assert(ranked@[j].score >= ranked@[i - 1].score);
                    }
                }
            }
            i += 1;
        }
        if ranked.len() == 1 {
            match &self.decision {
                Some(d) => d.confirmed == (ranked[0].score >= SCORE_THRESHOLD) && d.apply
                    == d.confirmed && d.score == ranked[0].score && d.candidate.same_as(
                    &ranked[0].candidate,
                ),
                None => false,
            }
        } else {
            self.decision.is_none()
        }
    }
}

} // verus!
