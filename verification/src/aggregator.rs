//! The fan-out of a search, as a protocol: the queries are asked one after
//! another; each query goes to every catalogue at once, and the next query
//! is not asked before every catalogue has answered the one before. The
//! caller sends the requests and hands each answer over as it arrives; an
//! answer that never came is handed over as an empty one.

use crate::candidate::{views, CandidateView, MetadataCandidate};
use crate::text::strings;
use vstd::prelude::*;

verus! {

/// A candidate as plain values, with the query that found it.
pub open spec fn tagged_views(pool: Seq<(MetadataCandidate, String)>) -> Seq<
    (CandidateView, Seq<char>),
> {
    Seq::new(pool.len(), |i: int| (pool[i].0@, pool[i].1@))
}

/// Each of the candidates with `query` as the query that found it.
pub open spec fn tagged(candidates: Seq<CandidateView>, query: Seq<char>) -> Seq<
    (CandidateView, Seq<char>),
> {
    Seq::new(candidates.len(), |i: int| (candidates[i], query))
}

/// The state of one search between its answers.
pub struct Aggregator {
    queries: Vec<String>,
    sources: usize,
    round: usize,
    answered: usize,
    pool: Vec<(MetadataCandidate, String)>,
}

impl Aggregator {
    #[verifier::type_invariant]
    spec fn well_formed(&self) -> bool {
        &&& self.round <= self.queries.len()
        &&& self.round < self.queries.len() ==> self.answered < self.sources
        &&& self.round == self.queries.len() ==> self.answered == 0
    }

    /// The queries of the search, in the order in which they are asked.
    pub closed spec fn queries(&self) -> Seq<Seq<char>> {
        strings(self.queries@)
    }

    /// How many catalogues answer each query.
    pub closed spec fn sources(&self) -> nat {
        self.sources as nat
    }

    /// How many queries have been answered by every catalogue.
    pub closed spec fn round(&self) -> nat {
        self.round as nat
    }

    /// How many catalogues have answered the query that is being asked.
    pub closed spec fn answered(&self) -> nat {
        self.answered as nat
    }

    /// The candidates found so far, in the order of their arrival.
    pub closed spec fn pool(&self) -> Seq<(CandidateView, Seq<char>)> {
        tagged_views(self.pool@)
    }

    /// Whether every query has been answered by every catalogue.
    pub open spec fn is_finished(&self) -> bool {
        self.round() == self.queries().len()
    }

    /// How many answers have been handed over.
    pub open spec fn answers_recorded(&self) -> nat {
        self.round() * self.sources() + self.answered()
    }

    /// How many answers the whole search takes.
    pub open spec fn answers_needed(&self) -> nat {
        self.queries().len() * self.sources()
    }

    /// Begins a search. With no catalogue to ask there is nothing to wait
    /// for, and the search is finished at once.
    pub fn new(queries: Vec<String>, sources: usize) -> (a: Aggregator)
        ensures
            a.queries() == strings(queries@),
            a.sources() == sources,
            a.answered() == 0,
            a.pool().len() == 0,
            a.round() == (if sources == 0 {
                queries.len()
            } else {
                0
            }),
    {
        let round = if sources == 0 {
            queries.len()
        } else {
            0
        };
        Aggregator { queries, sources, round, answered: 0, pool: Vec::new() }
    }

    /// Whether the search is finished. It is finished exactly when as many
    /// answers have been handed over as it takes, whatever they held.
    pub fn finished(&self) -> (b: bool)
        ensures
            b == self.is_finished(),
            self.sources() > 0 ==> b == (self.answers_recorded() == self.answers_needed()),
            self.answers_recorded() <= self.answers_needed(),
    {
        proof {
            use_type_invariant(self);
            let r = self.round as int;
            let n = self.queries.len() as int;
            let m = self.sources as int;
            let k = self.answered as int;
            assert(strings(self.queries@).len() == n);
            if r < n {
                assert(r * m + k < n * m) by (nonlinear_arith)
                    requires
                        0 <= r < n,
                        0 <= k < m,
                ;
            }
        }
        self.round == self.queries.len()
    }

    /// The query to send to every catalogue now; none when the search is
    /// finished.
    pub fn current_query(&self) -> (q: Option<&String>)
        ensures
            match q {
                Some(s) => !self.is_finished() && s@ == self.queries()[self.round() as int],
                None => self.is_finished(),
            },
    {
        proof {
            use_type_invariant(self);
            assert(strings(self.queries@).len() == self.queries.len());
        }
        if self.round < self.queries.len() {
            Some(&self.queries[self.round])
        } else {
            None
        }
    }

    /// Takes the answer of one catalogue to the query that is being asked.
    /// Its candidates join the pool, each with that query; when the last
    /// catalogue has answered, the next query is due. An empty answer counts
    /// like any other. After the search is finished nothing changes.
    pub fn record(self, candidates: Vec<MetadataCandidate>) -> (next: Aggregator)
        ensures
            next.queries() == self.queries(),
            next.sources() == self.sources(),
            self.is_finished() ==> next.pool() == self.pool() && next.round() == self.round()
                && next.answered() == self.answered(),
            !self.is_finished() ==> next.pool() == self.pool() + tagged(
                views(candidates@),
                self.queries()[self.round() as int],
            ),
            !self.is_finished() ==> next.answers_recorded() == self.answers_recorded() + 1,
            !self.is_finished() && self.answered() + 1 < self.sources() ==> next.round()
                == self.round() && next.answered() == self.answered() + 1,
            !self.is_finished() && self.answered() + 1 == self.sources() ==> next.round()
                == self.round() + 1 && next.answered() == 0,
    {
        proof {
            use_type_invariant(&self);
            assert(strings(self.queries@).len() == self.queries.len());
        }
        if self.round >= self.queries.len() {
            return self;
        }
        let Aggregator { queries, sources, round, answered, pool } = self;
        let ghost before = tagged_views(pool@);
        let ghost found = views(candidates@);
        let ghost query = queries@[round as int]@;
        let mut pool = pool;
        proof {
            assert(before + tagged(found.take(0), query) =~= before);
        }
        for c in it: candidates
            invariant
                round < queries.len(),
                query == queries@[round as int]@,
                found == views(it.seq()),
                tagged_views(pool@) == before + tagged(found.take(it.index()), query),
        {
            let tag = queries[round].clone();
            proof {
                assert(tagged_views(pool@.push((c, tag))) =~= tagged_views(pool@).push(
                    (c@, tag@),
                ));
                assert(found[it.index()] == c@);
                assert(before + tagged(found.take(it.index() + 1), query) =~= (before + tagged(
                    found.take(it.index()),
                    query,
                )).push((c@, query)));
            }
            pool.push((c, tag));
        }
        proof {
            assert(found.take(found.len() as int) =~= found);
            assert((round * sources + answered) + 1 == (round + 1) * sources + 0 || answered + 1
                < sources) by (nonlinear_arith)
                requires
                    answered < sources,
            ;
        }
        if answered + 1 == sources {
            Aggregator { queries, sources, round: round + 1, answered: 0, pool }
        } else {
            Aggregator { queries, sources, round, answered: answered + 1, pool }
        }
    }

    /// The candidates that were found, in the order of their arrival, each
    /// with the query that found it.
    pub fn into_pool(self) -> (pool: Vec<(MetadataCandidate, String)>)
        ensures
            tagged_views(pool@) == self.pool(),
    {
        self.pool
    }
}

} // verus!
