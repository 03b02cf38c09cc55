use text_search::search::spans::{add_span, add_spans};
use text_search::search::{SearchQuery, SearchSink, SearchWorker};

fn worker(text: &str, regex_syntax: bool, invert_match: bool, first: bool) -> SearchWorker {
    let mut query = SearchQuery::new();
    query.query = String::from(text);
    query.regex_syntax = regex_syntax;
    query.invert_match = invert_match;
    query.search_worker(first).unwrap()
}

#[test]
fn a_span_takes_its_place_in_the_order() {
    assert_eq!(add_span(&vec![], (2, 4)), vec![(2, 4)]);
    assert_eq!(add_span(&vec![(5, 7)], (1, 3)), vec![(1, 3), (5, 7)]);
    assert_eq!(add_span(&vec![(1, 3)], (5, 7)), vec![(1, 3), (5, 7)]);
    assert_eq!(add_span(&vec![(1, 2), (8, 9)], (4, 6)), vec![(1, 2), (4, 6), (8, 9)]);
}

#[test]
fn a_span_joins_what_it_overlaps_or_touches() {
    assert_eq!(add_span(&vec![(1, 3), (5, 7)], (3, 5)), vec![(1, 7)]);
    assert_eq!(add_span(&vec![(1, 3), (5, 7)], (2, 6)), vec![(1, 7)]);
    assert_eq!(add_span(&vec![(1, 3), (5, 7), (9, 11)], (6, 8)), vec![(1, 3), (5, 8), (9, 11)]);
    assert_eq!(add_span(&vec![(2, 4)], (0, 9)), vec![(0, 9)]);
    assert_eq!(add_span(&vec![(0, 9)], (2, 4)), vec![(0, 9)]);
    assert_eq!(add_span(&vec![(1, 3)], (3, 3)), vec![(1, 3)]);
    assert_eq!(add_span(&vec![(1, 3)], (4, 4)), vec![(1, 3), (4, 4)]);
}

#[test]
fn spans_are_added_one_after_the_other() {
    assert_eq!(add_spans(vec![(1, 3)], &vec![]), vec![(1, 3)]);
    assert_eq!(add_spans(vec![], &vec![(4, 5), (7, 9)]), vec![(4, 5), (7, 9)]);
    assert_eq!(
        add_spans(vec![(0, 2), (6, 8)], &vec![(1, 3), (4, 5), (8, 9)]),
        vec![(0, 3), (4, 5), (6, 9)]
    );
}

#[test]
fn later_stages_add_their_spans_to_matched_lines() {
    let stages = vec![worker("foo", false, false, true), worker("o+b", true, false, false)];
    let mut sink = SearchSink::for_stages(&stages).unwrap();
    sink.matched(1, b"foobar foo\n".to_vec()).unwrap();
    sink.matched(2, b"foo bar\n".to_vec()).unwrap();
    sink.finish().unwrap();
    let entries = sink.into_entries();
    assert_eq!(entries.len(), 2);
    assert_eq!(entries[0].lines[0].matches, vec![(0, 4), (7, 10)]);
    assert_eq!(entries[1].lines[0].matches, vec![(0, 3)]);
}

#[test]
fn later_stages_leave_context_lines_alone() {
    let mut first = SearchQuery::new();
    first.query = String::from("foo");
    first.extra_context = 1;
    let stages = vec![first.search_worker(true).unwrap(), worker("bar", false, false, false)];
    let mut sink = SearchSink::for_stages(&stages).unwrap();
    sink.matched(1, b"foo bar\n".to_vec()).unwrap();
    sink.context(2, b"bar\n".to_vec()).unwrap();
    sink.finish().unwrap();
    let entries = sink.into_entries();
    assert_eq!(entries.len(), 1);
    assert_eq!(entries[0].lines[0].matches, vec![(0, 3), (4, 7)]);
    assert!(entries[0].lines[1].matches.is_empty());
}

#[test]
fn an_inverted_later_stage_adds_nothing() {
    let stages = vec![worker("foo", false, false, true), worker("bar", false, true, false)];
    let sink = SearchSink::for_stages(&stages).unwrap();
    assert_eq!(sink.find_highlights(b"foo bar"), vec![(0, 3)]);

    let stages = vec![worker("foo", false, false, true), worker("bar", false, false, false)];
    let sink = SearchSink::for_stages(&stages).unwrap();
    assert_eq!(sink.find_highlights(b"foo bar"), vec![(0, 3), (4, 7)]);
    assert_eq!(sink.first_matcher().find_at(b"foo bar", 0), Some((0, 3)));
}

#[test]
fn three_stages_join_in_turn() {
    let stages = vec![
        worker("b", false, false, true),
        worker("ab", false, false, false),
        worker("c+", true, false, false),
    ];
    let sink = SearchSink::for_stages(&stages).unwrap();
    assert_eq!(sink.find_highlights(b"abcc b"), vec![(0, 4), (5, 6)]);
}

#[test]
fn without_stages_there_is_no_sink() {
    let stages: Vec<SearchWorker> = Vec::new();
    assert!(SearchSink::for_stages(&stages).is_none());
}

#[test]
fn the_first_stage_decides_whether_entries_stay_open() {
    let mut first = SearchQuery::new();
    first.query = String::from("x");
    first.extra_context = 2;
    let stages = vec![first.search_worker(true).unwrap()];
    let mut sink = SearchSink::for_stages(&stages).unwrap();
    sink.matched(1, b"x\n".to_vec()).unwrap();
    sink.matched(2, b"x\n".to_vec()).unwrap();
    sink.finish().unwrap();
    assert_eq!(sink.into_entries().len(), 1);

    let stages = vec![worker("x", false, false, true)];
    let mut sink = SearchSink::for_stages(&stages).unwrap();
    sink.matched(1, b"x\n".to_vec()).unwrap();
    sink.matched(2, b"x\n".to_vec()).unwrap();
    sink.finish().unwrap();
    assert_eq!(sink.into_entries().len(), 2);
}
