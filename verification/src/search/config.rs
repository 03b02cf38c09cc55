//! What to search for and where.

use vstd::prelude::*;
use crate::search::query::{SearchQuery, SearchWorker, WorkerView};
use crate::text::{split_nonempty, string_views, tokens};

verus! {

/// The character between two paths of a search.
pub const PATH_SEPARATOR: char = ';';

/// The character between two globs of a search.
pub const GLOB_SEPARATOR: char = ' ';

/// The roots, the file name globs and the queries of one search.
#[derive(Debug, Clone)]
pub struct SearchConfig {
    /// The files and directories to search, separated by `;`.
    pub paths: String,
    /// The globs that include or exclude files by name, separated by a
    /// space. A later glob wins over an earlier one, and `!` in front of a
    /// glob excludes.
    pub globs: String,
    /// The queries, in the order in which they apply.
    pub queries: Vec<SearchQuery>,
}

/// The views of a sequence of workers.
pub open spec fn worker_views(workers: Seq<SearchWorker>) -> Seq<WorkerView> {
    workers.map_values(|worker: SearchWorker| worker@)
}

/// The test for a query that forms a stage: its text is not empty.
pub open spec fn is_stage() -> spec_fn(SearchQuery) -> bool {
    |query: SearchQuery| query.query@.len() > 0
}

/// The views of a sequence of workers, each of which may be missing.
pub open spec fn attempt_views(attempts: Seq<Option<SearchWorker>>) -> Seq<Option<WorkerView>> {
    attempts.map_values(
        |attempt: Option<SearchWorker>|
            match attempt {
                Some(worker) => Some(worker@),
                None => None,
            },
    )
}

/// What compiling each stage gives: the queries with a text, in order; the
/// worker of the first stage counts the lines.
pub open spec fn attempts(queries: Seq<SearchQuery>) -> Seq<Option<WorkerView>> {
    let stages = queries.filter(is_stage());
    Seq::new(stages.len(), |i: int| stages[i].spec_search_worker(i == 0))
}

/// Picks the workers that exist.
pub open spec fn existing() -> spec_fn(Option<WorkerView>) -> Option<WorkerView> {
    |attempt: Option<WorkerView>| attempt
}

/// The workers that are kept. The first stage must have compiled: without
/// its worker there are no workers at all. A later stage that did not
/// compile is left out.
pub open spec fn selected(attempts: Seq<Option<WorkerView>>) -> Seq<WorkerView> {
    if attempts.len() == 0 || attempts[0] is None {
        Seq::empty()
    } else {
        attempts.filter_map(existing())
    }
}

/// The workers of a list of queries.
pub open spec fn planned_workers(queries: Seq<SearchQuery>) -> Seq<WorkerView> {
    selected(attempts(queries))
}

/// Only the first worker counts lines, and each worker scans with the
/// context on both sides of a match that its query asks for.
pub proof fn lemma_first_worker_counts_lines(queries: Seq<SearchQuery>)
    ensures
        forall|i: int|
            0 <= i < planned_workers(queries).len() ==> {
                let worker = #[trigger] planned_workers(queries)[i];
                &&& worker.searcher.line_number == (i == 0)
                &&& worker.searcher.before_context == worker.searcher.after_context
            },
{
    let all = attempts(queries);
    if all.len() > 0 && all[0] is Some {
        lemma_existing_in_order(all, all.len() as int);
        assert(all.take(all.len() as int) =~= all);
    }
}

/// The workers that exist among the first `n` attempts: each of them is the
/// worker of a stage, and the first attempt, if it exists, comes first and
/// is the only worker that counts lines.
proof fn lemma_existing_in_order(all: Seq<Option<WorkerView>>, n: int)
    requires
        0 <= n <= all.len(),
        exists|queries: Seq<SearchQuery>| all == attempts(queries),
        all.len() > 0,
        all[0] is Some,
    ensures
        n > 0 ==> all.take(n).filter_map(existing()).len() > 0,
        forall|i: int|
            0 <= i < all.take(n).filter_map(existing()).len() ==> {
                let worker = #[trigger] all.take(n).filter_map(existing())[i];
                &&& worker.searcher.line_number == (i == 0)
                &&& worker.searcher.before_context == worker.searcher.after_context
            },
    decreases n,
{
    if n > 0 {
        lemma_existing_in_order(all, n - 1);
        let kept = all.take(n).filter_map(existing());
        let earlier = all.take(n - 1).filter_map(existing());
        assert(all.take(n).drop_last() =~= all.take(n - 1));
        if all[n - 1] is Some {
            assert(kept =~= earlier.push(all[n - 1]->0));
            assert forall|i: int| 0 <= i < kept.len() implies {
                let worker = #[trigger] kept[i];
                &&& worker.searcher.line_number == (i == 0)
                &&& worker.searcher.before_context == worker.searcher.after_context
            } by {
                if i < earlier.len() {
                    assert(kept[i] == earlier[i]);
                }
            }
        }
    }
}

/// The first stage of a list of queries is the first stage of any of its
/// prefixes that has one.
proof fn lemma_first_attempt_of_prefix(queries: Seq<SearchQuery>, n: int)
    requires
        0 <= n <= queries.len(),
        attempts(queries.take(n)).len() > 0,
    ensures
        attempts(queries).len() > 0,
        attempts(queries)[0] == attempts(queries.take(n))[0],
{
    assert(queries =~= queries.take(n) + queries.skip(n));
    Seq::filter_distributes_over_add(queries.take(n), queries.skip(n), is_stage());
}

/// Keeps the workers of the stages that compiled, unless the first stage
/// did not.
pub fn select_workers(compiled: Vec<Option<SearchWorker>>) -> (workers: Vec<SearchWorker>)
    ensures
        worker_views(workers@) == selected(attempt_views(compiled@)),
{
    let mut workers: Vec<SearchWorker> = Vec::new();
    let ghost all = attempt_views(compiled@);
    if compiled.len() == 0 || compiled[0].is_none() {
        assert(worker_views(workers@) =~= Seq::empty());
        return workers;
    }
    assert(all.take(0).filter_map(existing()) =~= worker_views(workers@));
    for attempt in it: compiled
        invariant
            it.seq() == compiled@,
            all == attempt_views(compiled@),
            worker_views(workers@) == all.take(it.index() as int).filter_map(existing()),
    {
        let ghost next = all.take(it.index() as int + 1);
        let ghost before = workers@;
        proof {
            assert(next.drop_last() =~= all.take(it.index() as int));
            assert(next.last() == all[it.index() as int]);
        }
        if let Some(worker) = attempt {
            workers.push(worker);
            proof {
                assert(next.last() == Some(worker@));
                assert(worker_views(workers@) =~= worker_views(before).push(worker@));
                assert(worker_views(before) + seq![worker@] =~= worker_views(before).push(
                    worker@,
                ));
            }
        }
    }
    assert(all.take(all.len() as int) =~= all);
    workers
}

impl SearchConfig {
    /// A search of nothing: no paths, no globs, no queries.
    pub fn default() -> (config: Self)
        ensures
            config.paths@ == Seq::<char>::empty(),
            config.globs@ == Seq::<char>::empty(),
            config.queries@ == Seq::<SearchQuery>::empty(),
    {
        SearchConfig { paths: String::new(), globs: String::new(), queries: Vec::new() }
    }

    /// A search of `paths`, filtered by `patterns`, with one empty query.
    pub fn with_paths_and_patterns(paths: String, patterns: String) -> (config: Self)
        ensures
            config.paths == paths,
            config.globs == patterns,
            config.queries@.len() == 1,
            config.queries@[0].query@ == Seq::<char>::empty(),
            !config.queries@[0].regex_syntax,
            config.queries@[0].ignore_case,
            !config.queries@[0].invert_match,
            config.queries@[0].extra_context == 0,
    {
        let mut queries = Vec::new();
        queries.push(SearchQuery::new());
        SearchConfig { paths, globs: patterns, queries }
    }

    /// The roots of the search: the non-empty pieces of `paths` between `;`.
    pub fn paths(&self) -> (roots: Vec<String>)
        ensures
            string_views(roots@) == tokens(self.paths@, PATH_SEPARATOR),
    {
        split_nonempty(self.paths.as_str(), PATH_SEPARATOR)
    }

    /// The globs of the search, in the order in which they apply: the
    /// non-empty pieces of `globs` between spaces.
    pub fn overrides(&self) -> (globs: Vec<String>)
        ensures
            string_views(globs@) == tokens(self.globs@, GLOB_SEPARATOR),
    {
        split_nonempty(self.globs.as_str(), GLOB_SEPARATOR)
    }

    /// Compiles the queries into workers. The result is empty where no query
    /// has a text or the first one with a text does not compile.
    pub fn workers(&self) -> (workers: Vec<SearchWorker>)
        ensures
            worker_views(workers@) == planned_workers(self.queries@),
    {
        let mut compiled: Vec<Option<SearchWorker>> = Vec::new();
        let ghost queries = self.queries@;
        proof {
            assert(queries.take(0) =~= Seq::empty());
            Seq::<SearchQuery>::empty().lemma_all_neg_filter_empty(is_stage());
            assert(attempt_views(compiled@) =~= attempts(queries.take(0)));
        }
        let mut i: usize = 0;
        while i < self.queries.len()
            invariant
                i <= self.queries@.len(),
                queries == self.queries@,
                attempt_views(compiled@) == attempts(queries.take(i as int)),
            decreases self.queries@.len() - i,
        {
            let query = &self.queries[i];
            let ghost stages = queries.take(i as int).filter(is_stage());
            proof {
                assert(queries.take(i as int + 1) =~= queries.take(i as int).push(*query));
                queries.take(i as int).lemma_filter_push(*query, is_stage());
            }
            if !query.query.as_str().is_empty() {
                let first = compiled.len() == 0;
                let attempt = match query.search_worker(first) {
                    Ok(worker) => Some(worker),
                    Err(_) => None,
                };
                proof {
                    assert(attempts(queries.take(i as int + 1)) =~= attempts(
                        queries.take(i as int),
                    ).push(query.spec_search_worker(first)));
                }
                if first && attempt.is_none() {
                    // Without the worker that counts the lines nothing can be searched.
                    proof {
                        lemma_first_attempt_of_prefix(queries, i as int + 1);
                    }
                    return Vec::new();
                }
                let ghost before = compiled@;
                compiled.push(attempt);
                proof {
                    assert(attempt_views(compiled@) =~= attempt_views(before).push(
                        query.spec_search_worker(first),
                    ));
                }
            }
            i += 1;
        }
        proof {
            assert(queries.take(i as int) =~= queries);
        }
        select_workers(compiled)
    }
}

} // verus!
