//! The walk over the files of a search: what a search needs before it
//! starts, and what a worker thread decides for each entry that it visits.

use vstd::prelude::*;
use std::sync::mpsc::Sender;
use crate::search::config::{
    planned_workers,
    worker_views,
    SearchConfig,
    GLOB_SEPARATOR,
    PATH_SEPARATOR,
};
use crate::search::query::{SearchWorker, WorkerView};
use crate::search::result::SearchResult;
use crate::text::{string_views, tokens};

verus! {

/// `std::sync::mpsc::Sender`: the sending end of the channel that carries
/// the results of a search.
#[verifier::external_type_specification]
#[verifier::external_body]
#[verifier::reject_recursive_types(T)]
pub struct ExSender<T>(Sender<T>);

/// `Sender::send`: hands the result to the channel and says whether the
/// receiving end still exists; it never blocks.
#[verifier::external_body]
fn send_result(tx: &Sender<SearchResult>, result: SearchResult) -> (delivered: bool) {
    tx.send(result).is_ok()
}

/// What the walker found at one path.
#[derive(Clone, Copy, Debug, PartialEq, Eq, Structural)]
pub enum EntryKind {
    /// The walker could not read the entry.
    Unreadable,
    /// A directory, a link, or anything else that is not a regular file.
    NotFile,
    /// A regular file.
    File,
}

/// What a worker thread does with an entry.
#[derive(Clone, Copy, Debug, PartialEq, Eq, Structural)]
pub enum VisitAction {
    /// The walk ends here; the entry is not scanned.
    Quit,
    /// The entry is passed over and the walk goes on.
    Skip,
    /// The entry is scanned.
    Scan,
}

/// Whether the walk goes on after an entry.
#[derive(Clone, Copy, Debug, PartialEq, Eq, Structural)]
pub enum WalkDecision {
    Continue,
    Quit,
}

/// The action for an entry: once the stop signal is seen nothing more is
/// scanned; otherwise regular files are scanned and everything else is
/// passed over.
pub open spec fn visit_action(cancelled: bool, kind: EntryKind) -> VisitAction {
    if cancelled {
        VisitAction::Quit
    } else if kind == EntryKind::File {
        VisitAction::Scan
    } else {
        VisitAction::Skip
    }
}

/// The decision after a scan, where `delivered` says whether the result
/// reached the consumer: the walk ends once nobody receives.
pub open spec fn decision_after_send(delivered: bool) -> WalkDecision {
    if delivered {
        WalkDecision::Continue
    } else {
        WalkDecision::Quit
    }
}

/// Decides what a worker thread does with an entry, given the stop signal
/// as the thread sees it at this moment.
pub fn visit(cancelled: bool, kind: EntryKind) -> (action: VisitAction)
    ensures
        action == visit_action(cancelled, kind),
{
    if cancelled {
        VisitAction::Quit
    } else {
        match kind {
            EntryKind::File => VisitAction::Scan,
            _ => VisitAction::Skip,
        }
    }
}

/// Decides whether the walk goes on after a result was handed to the
/// channel.
pub fn after_send(delivered: bool) -> (decision: WalkDecision)
    ensures
        decision == decision_after_send(delivered),
{
    if delivered {
        WalkDecision::Continue
    } else {
        WalkDecision::Quit
    }
}

/// Sends the result of a scan to the consumer. A file that could not be
/// scanned is passed over: nothing is sent and the walk goes on.
pub fn deliver(tx: &Sender<SearchResult>, scanned: Option<SearchResult>) -> (decision:
    WalkDecision)
    ensures
        scanned is None ==> decision == WalkDecision::Continue,
{
    match scanned {
        Some(result) => after_send(send_result(tx, result)),
        None => WalkDecision::Continue,
    }
}

/// Why a search could not be started.
#[derive(Clone, Copy, Debug, PartialEq, Eq, Structural)]
pub enum SpawnError {
    /// No query has a text, or the first one that has does not compile.
    NoWorkers,
    /// No path was given.
    NoPath,
}

/// Everything a search needs before its first thread starts.
pub struct SearchPlan {
    /// The workers of the queries; the first one scans the files, the
    /// others add highlight spans.
    pub workers: Vec<SearchWorker>,
    /// The roots of the walk; the first one seeds it.
    pub roots: Vec<String>,
    /// The globs that include or exclude files, in the order in which they
    /// apply.
    pub globs: Vec<String>,
    /// The number of threads of the walk.
    pub threads: usize,
    /// Whether binary files are searched.
    pub search_binary: bool,
}

/// The mathematical content of a [`SearchPlan`].
pub struct PlanView {
    pub workers: Seq<WorkerView>,
    pub roots: Seq<Seq<char>>,
    pub globs: Seq<Seq<char>>,
    pub threads: usize,
    pub search_binary: bool,
}

impl View for SearchPlan {
    type V = PlanView;

    open spec fn view(&self) -> PlanView {
        PlanView {
            workers: worker_views(self.workers@),
            roots: string_views(self.roots@),
            globs: string_views(self.globs@),
            threads: self.threads,
            search_binary: self.search_binary,
        }
    }
}

/// The plan of a search of `roots` with `workers`: none where there is no
/// worker and, after that, none where there is no root.
pub open spec fn laid_out(
    workers: Seq<WorkerView>,
    roots: Seq<Seq<char>>,
    globs: Seq<Seq<char>>,
    threads: usize,
    search_binary: bool,
) -> Result<PlanView, SpawnError> {
    if workers.len() == 0 {
        Err(SpawnError::NoWorkers)
    } else if roots.len() == 0 {
        Err(SpawnError::NoPath)
    } else {
        Ok(PlanView { workers, roots, globs, threads, search_binary })
    }
}

/// The plan of the search that a configuration describes, on `threads`
/// threads.
pub open spec fn planned(config: SearchConfig, search_binary: bool, threads: usize) -> Result<
    PlanView,
    SpawnError,
> {
    laid_out(
        planned_workers(config.queries@),
        tokens(config.paths@, PATH_SEPARATOR),
        tokens(config.globs@, GLOB_SEPARATOR),
        threads,
        search_binary,
    )
}

/// Whether `result` is the plan, or the refusal, that `expected` describes.
pub open spec fn is_planned(
    result: Result<SearchPlan, SpawnError>,
    expected: Result<PlanView, SpawnError>,
) -> bool {
    match result {
        Ok(plan) => expected == Ok::<PlanView, SpawnError>(plan@),
        Err(error) => expected == Err::<PlanView, SpawnError>(error),
    }
}

/// The number of threads changes nothing of a search but the number of its
/// threads: the same configuration is refused for the same reason, or
/// planned with the same workers, roots and globs, whatever the number.
pub proof fn lemma_threads_change_only_threads(
    config: SearchConfig,
    search_binary: bool,
    few: usize,
    many: usize,
)
    ensures
        match planned(config, search_binary, few) {
            Ok(plan) => planned(config, search_binary, many) == Ok::<PlanView, SpawnError>(
                PlanView { threads: many, ..plan },
            ),
            Err(error) => planned(config, search_binary, many) == Err::<PlanView, SpawnError>(
                error,
            ),
        },
{
}

/// The number of threads that is used where none is asked for.
pub const DEFAULT_THREADS: usize = 2;

/// The number of threads of a walk: the number asked for, or, where that is
/// zero, what the machine offers, and never less than two.
pub open spec fn thread_count(requested: usize, available: Option<usize>) -> usize {
    if requested != 0 {
        requested
    } else {
        match available {
            Some(n) => if n < DEFAULT_THREADS {
                DEFAULT_THREADS
            } else {
                n
            },
            None => DEFAULT_THREADS,
        }
    }
}

/// Computes the number of threads of a walk.
pub fn resolve_threads(requested: usize, available: Option<usize>) -> (threads: usize)
    ensures
        threads == thread_count(requested, available),
        threads > 0,
{
    if requested != 0 {
        requested
    } else {
        match available {
            Some(n) => if n < DEFAULT_THREADS {
                DEFAULT_THREADS
            } else {
                n
            },
            None => DEFAULT_THREADS,
        }
    }
}

impl SearchPlan {
    /// Lays out a search of `roots` with `workers`. It fails where there is
    /// no worker and, after that, where there is no root.
    pub fn new(
        workers: Vec<SearchWorker>,
        roots: Vec<String>,
        globs: Vec<String>,
        threads: usize,
        search_binary: bool,
    ) -> (plan: Result<SearchPlan, SpawnError>)
        ensures
            is_planned(
                plan,
                laid_out(
                    worker_views(workers@),
                    string_views(roots@),
                    string_views(globs@),
                    threads,
                    search_binary,
                ),
            ),
            plan matches Ok(laid) ==> laid.workers == workers && laid.roots == roots && laid.globs
                == globs,
    {
        if workers.len() == 0 {
            return Err(SpawnError::NoWorkers);
        }
        if roots.len() == 0 {
            return Err(SpawnError::NoPath);
        }
        Ok(SearchPlan { workers, roots, globs, threads, search_binary })
    }

    /// The worker that scans the files: the one of the first query, which
    /// selects the lines and counts them. The workers of the later queries
    /// select nothing; they add their spans to the lines that are selected.
    pub fn scanning_worker(&self) -> (worker: Option<&SearchWorker>)
        ensures
            match worker {
                Some(first) => self.workers@.len() > 0 && *first == self.workers@[0],
                None => self.workers@.len() == 0,
            },
    {
        if self.workers.len() > 0 {
            Some(&self.workers[0])
        } else {
            None
        }
    }
}

/// Checks a configuration and lays out the search. It fails, before any
/// thread exists, where the queries give no worker and, after that, where no
/// path is given.
pub fn plan_search(
    config: &SearchConfig,
    search_binary: bool,
    number_of_threads: usize,
    available_parallelism: Option<usize>,
) -> (plan: Result<SearchPlan, SpawnError>)
    ensures
        is_planned(
            plan,
            planned(
                *config,
                search_binary,
                thread_count(number_of_threads, available_parallelism),
            ),
        ),
{
    let workers = config.workers();
    let roots = config.paths();
    let globs = config.overrides();
    let threads = resolve_threads(number_of_threads, available_parallelism);
    SearchPlan::new(workers, roots, globs, threads, search_binary)
}

} // verus!
