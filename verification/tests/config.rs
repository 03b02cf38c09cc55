use text_search::search::config::select_workers;
use text_search::search::{
    plan_search, resolve_threads, SearchConfig, SearchPlan, SearchQuery, SpawnError,
};
use text_search::text::split_nonempty;

fn query(text: &str, regex_syntax: bool) -> SearchQuery {
    let mut query = SearchQuery::new();
    query.query = String::from(text);
    query.regex_syntax = regex_syntax;
    query
}

fn config(paths: &str, globs: &str, queries: Vec<SearchQuery>) -> SearchConfig {
    let mut config =
        SearchConfig::with_paths_and_patterns(String::from(paths), String::from(globs));
    config.queries = queries;
    config
}

#[test]
fn default_config_is_empty() {
    let config = SearchConfig::default();
    assert_eq!(config.paths, "");
    assert_eq!(config.globs, "");
    assert!(config.queries.is_empty());
    assert!(config.paths().is_empty());
    assert!(config.overrides().is_empty());
    assert!(config.workers().is_empty());
}

#[test]
fn config_with_paths_and_patterns_has_one_empty_query() {
    let config = SearchConfig::with_paths_and_patterns(String::from("a;b"), String::from("*.rs"));
    assert_eq!(config.paths, "a;b");
    assert_eq!(config.globs, "*.rs");
    assert_eq!(config.queries.len(), 1);
    assert_eq!(config.queries[0].query, "");
    assert!(!config.queries[0].regex_syntax);
    assert!(config.queries[0].ignore_case);
    assert!(!config.queries[0].invert_match);
    assert_eq!(config.queries[0].extra_context, 0);
    assert!(config.workers().is_empty());
}

#[test]
fn paths_are_split_at_semicolons() {
    assert_eq!(config("a;b", "", vec![]).paths(), vec!["a", "b"]);
    assert_eq!(config(";a;;b c;", "", vec![]).paths(), vec!["a", "b c"]);
    assert_eq!(config("/one/two", "", vec![]).paths(), vec!["/one/two"]);
    assert!(config(";;;", "", vec![]).paths().is_empty());
    assert!(config("", "", vec![]).paths().is_empty());
}

#[test]
fn globs_are_split_at_spaces() {
    assert_eq!(config("", "*.txt *.cpp", vec![]).overrides(), vec!["*.txt", "*.cpp"]);
    assert_eq!(config("", "  *.rs   !target ", vec![]).overrides(), vec!["*.rs", "!target"]);
    assert_eq!(config("", "a;b", vec![]).overrides(), vec!["a;b"]);
    assert!(config("", "   ", vec![]).overrides().is_empty());
}

#[test]
fn split_keeps_the_order_and_any_characters() {
    assert_eq!(split_nonempty("b,a,,c", ','), vec!["b", "a", "c"]);
    assert_eq!(split_nonempty("😅,é", ','), vec!["😅", "é"]);
    assert_eq!(split_nonempty("no separator", ','), vec!["no separator"]);
    assert!(split_nonempty(",", ',').is_empty());
}

#[test]
fn queries_without_text_give_no_worker() {
    let config = config("a", "", vec![query("", false), query("x", false), query("", true)]);
    let workers = config.workers();
    assert_eq!(workers.len(), 1);
    assert!(workers[0].scan_options().line_number);
}

#[test]
fn only_the_first_worker_counts_lines() {
    let mut second = query("b+", true);
    second.extra_context = 2;
    second.invert_match = true;
    let config = config("a", "", vec![query("a", false), second, query("c", false)]);
    let workers = config.workers();
    assert_eq!(workers.len(), 3);
    assert!(workers[0].scan_options().line_number);
    assert!(!workers[1].scan_options().line_number);
    assert!(!workers[2].scan_options().line_number);
    assert_eq!(workers[1].scan_options().before_context, 2);
    assert_eq!(workers[1].scan_options().after_context, 2);
    assert!(workers[1].scan_options().invert_match);
    assert!(!workers[2].scan_options().invert_match);
}

#[test]
fn a_first_query_that_does_not_compile_gives_no_workers() {
    let config = config("a", "", vec![query("", false), query("(", true), query("x", false)]);
    assert!(config.workers().is_empty());
}

#[test]
fn a_later_query_that_does_not_compile_is_left_out() {
    let mut last = query("y", false);
    last.extra_context = 7;
    let config = config("a", "", vec![query("x", false), query("(", true), last]);
    let workers = config.workers();
    assert_eq!(workers.len(), 2);
    assert!(workers[0].scan_options().line_number);
    assert_eq!(workers[1].scan_options().before_context, 7);
    assert!(!workers[1].scan_options().line_number);
}

#[test]
fn a_search_without_workers_is_not_planned() {
    let no_query = config("a;b", "", vec![]);
    assert_eq!(plan_search(&no_query, false, 1, Some(8)).err(), Some(SpawnError::NoWorkers));
    let empty_query = config("a;b", "", vec![query("", false)]);
    assert_eq!(plan_search(&empty_query, false, 1, Some(8)).err(), Some(SpawnError::NoWorkers));
    let bad_query = config("a;b", "", vec![query("(", true)]);
    assert_eq!(plan_search(&bad_query, false, 1, Some(8)).err(), Some(SpawnError::NoWorkers));
    let nothing = config("", "", vec![]);
    assert_eq!(plan_search(&nothing, false, 1, Some(8)).err(), Some(SpawnError::NoWorkers));
}

#[test]
fn a_search_without_paths_is_not_planned() {
    let no_path = config(";;", "*.rs", vec![query("x", false)]);
    assert_eq!(plan_search(&no_path, false, 1, Some(8)).err(), Some(SpawnError::NoPath));
}

#[test]
fn a_plan_holds_what_the_walk_needs() {
    let config = config("src;tests", "*.rs !gen", vec![query("x", false), query("y", true)]);
    let plan = plan_search(&config, true, 3, Some(8)).unwrap();
    assert_eq!(plan.workers.len(), 2);
    assert!(plan.scanning_worker().unwrap().scan_options().line_number);
    assert_eq!(plan.roots, vec!["src", "tests"]);
    assert_eq!(plan.globs, vec!["*.rs", "!gen"]);
    assert_eq!(plan.threads, 3);
    assert!(plan.search_binary);

    let plan = plan_search(&config, false, 0, Some(8)).unwrap();
    assert_eq!(plan.threads, 8);
    assert!(!plan.search_binary);
}

#[test]
fn thread_count_is_what_was_asked_for_or_what_the_machine_has() {
    assert_eq!(resolve_threads(5, Some(16)), 5);
    assert_eq!(resolve_threads(1, None), 1);
    assert_eq!(resolve_threads(0, Some(16)), 16);
    assert_eq!(resolve_threads(0, Some(2)), 2);
    assert_eq!(resolve_threads(0, Some(1)), 2);
    assert_eq!(resolve_threads(0, None), 2);
}

#[test]
fn workers_are_kept_unless_the_first_is_missing() {
    let first = query("a", false).search_worker(true).ok();
    let mut third_query = query("c", false);
    third_query.extra_context = 3;
    let third = third_query.search_worker(false).ok();

    assert!(select_workers(Vec::new()).is_empty());
    assert!(select_workers(vec![None, third.clone()]).is_empty());

    let workers = select_workers(vec![first.clone(), None, third.clone()]);
    assert_eq!(workers.len(), 2);
    assert!(workers[0].scan_options().line_number);
    assert_eq!(workers[1].scan_options().before_context, 3);

    let workers = select_workers(vec![first, None, None]);
    assert_eq!(workers.len(), 1);
}

#[test]
fn a_plan_needs_workers_first_and_roots_second() {
    let worker = query("a", false).search_worker(true).unwrap();
    let roots = vec![String::from("src")];
    let globs = vec![String::from("*.rs")];

    let planned = SearchPlan::new(Vec::new(), Vec::new(), globs.clone(), 2, false);
    assert_eq!(planned.err(), Some(SpawnError::NoWorkers));
    let planned = SearchPlan::new(Vec::new(), roots.clone(), globs.clone(), 2, false);
    assert_eq!(planned.err(), Some(SpawnError::NoWorkers));
    let planned = SearchPlan::new(vec![worker.clone()], Vec::new(), globs.clone(), 2, false);
    assert_eq!(planned.err(), Some(SpawnError::NoPath));

    let plan = SearchPlan::new(vec![worker], roots, globs, 4, true).unwrap();
    assert_eq!(plan.workers.len(), 1);
    assert_eq!(plan.roots, vec!["src"]);
    assert_eq!(plan.globs, vec!["*.rs"]);
    assert_eq!(plan.threads, 4);
    assert!(plan.search_binary);
    assert!(plan.scanning_worker().is_some());
}

#[test]
fn the_thread_count_changes_nothing_else_of_a_plan() {
    let config = config("src;tests", "*.rs", vec![query("x", false), query("y", true)]);
    let one = plan_search(&config, false, 1, Some(8)).unwrap();
    let many = plan_search(&config, false, 32, Some(8)).unwrap();
    assert_eq!(one.roots, many.roots);
    assert_eq!(one.globs, many.globs);
    assert_eq!(one.workers.len(), many.workers.len());
    for (left, right) in one.workers.iter().zip(many.workers.iter()) {
        assert_eq!(left.scan_options(), right.scan_options());
    }
    assert_eq!(one.threads, 1);
    assert_eq!(many.threads, 32);
}
