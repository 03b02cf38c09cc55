use std::path::PathBuf;

use text_search::search::{
    assemble, CompiledMatcher, LineEvent, SearchQuery, SearchResultEntry,
    SearchResultEntryBuilder, SearchResultLine, SearchSink,
};

fn matcher_for(text: &str) -> CompiledMatcher {
    let mut query = SearchQuery::new();
    query.query = String::from(text);
    query.matcher().unwrap()
}

fn numbers(entries: &[SearchResultEntry]) -> Vec<Vec<u64>> {
    entries
        .iter()
        .map(|entry| entry.lines.iter().map(|line| line.line_number).collect())
        .collect()
}

#[test]
fn line_without_occurrences_is_not_matched() {
    let context = SearchResultLine { line_number: 1, bytes: b"abc".to_vec(), matches: Vec::new() };
    assert!(!context.is_matched());
    let matched =
        SearchResultLine { line_number: 1, bytes: b"abc".to_vec(), matches: vec![(0, 1)] };
    assert!(matched.is_matched());
}

#[test]
fn default_entry_is_empty() {
    let entry = SearchResultEntry::default();
    assert_eq!(entry.matched_line_number, 0);
    assert!(entry.lines.is_empty());
}

#[test]
fn builder_starts_without_an_entry() {
    let mut builder = SearchResultEntryBuilder::new();
    assert!(builder.take().is_none());
}

#[test]
fn builder_collects_lines_until_taken() {
    let matcher = matcher_for("b");
    let mut builder = SearchResultEntryBuilder::new();
    builder.with_context(4, b"aaa\n".to_vec());
    builder.with_match_line(&matcher, 5, b"abba\n".to_vec());
    builder.with_context(6, b"ccc\n".to_vec());

    let entry = builder.take().unwrap();
    assert_eq!(entry.matched_line_number, 5);
    assert_eq!(entry.lines.len(), 3);
    assert_eq!(entry.lines[0].line_number, 4);
    assert_eq!(entry.lines[0].bytes, b"aaa\n");
    assert!(entry.lines[0].matches.is_empty());
    assert_eq!(entry.lines[1].line_number, 5);
    assert_eq!(entry.lines[1].bytes, b"abba\n");
    assert_eq!(entry.lines[1].matches, vec![(1, 2), (2, 3)]);
    assert_eq!(entry.lines[2].line_number, 6);
    assert!(entry.lines[2].matches.is_empty());
    assert!(builder.take().is_none());
}

#[test]
fn builder_calls_chain() {
    let matcher = matcher_for("x");
    let mut builder = SearchResultEntryBuilder::new();
    builder.with_match_line(&matcher, 1, b"x".to_vec()).with_context(2, b"y".to_vec());
    let entry = builder.take().unwrap();
    assert_eq!(entry.matched_line_number, 1);
    assert_eq!(entry.lines.len(), 2);
}

#[test]
fn builder_takes_occurrences_that_are_already_known() {
    let mut builder = SearchResultEntryBuilder::new();
    builder.push_match_line(9, b"hello".to_vec(), vec![(1, 3)]);
    let entry = builder.take().unwrap();
    assert_eq!(entry.matched_line_number, 9);
    assert_eq!(entry.lines[0].matches, vec![(1, 3)]);
    assert_eq!(entry.lines[0].bytes, b"hello");
}

#[test]
fn matched_line_number_is_the_last_match() {
    let matcher = matcher_for("x");
    let mut builder = SearchResultEntryBuilder::new();
    builder.with_match_line(&matcher, 3, b"x".to_vec());
    builder.with_match_line(&matcher, 4, b"xx".to_vec());
    builder.with_context(5, b"y".to_vec());
    assert_eq!(builder.take().unwrap().matched_line_number, 4);
}

#[test]
fn sink_without_context_closes_each_match() {
    let matcher = matcher_for("x");
    let mut sink = SearchSink::new(&matcher, false);
    assert!(sink.matched(1, b"x\n".to_vec()).unwrap());
    assert!(sink.matched(2, b"ax\n".to_vec()).unwrap());
    assert!(sink.context_break().unwrap());
    assert!(sink.matched(7, b"x\n".to_vec()).unwrap());
    sink.finish().unwrap();
    let entries = sink.into_entries();
    assert_eq!(numbers(&entries), vec![vec![1], vec![2], vec![7]]);
    assert_eq!(entries[1].lines[0].matches, vec![(1, 2)]);
    assert_eq!(entries[2].matched_line_number, 7);
}

#[test]
fn sink_without_context_drops_context_lines() {
    let matcher = matcher_for("x");
    let mut sink = SearchSink::new(&matcher, false);
    assert!(sink.context(1, b"a\n".to_vec()).unwrap());
    assert!(sink.matched(2, b"x\n".to_vec()).unwrap());
    assert!(sink.context(3, b"b\n".to_vec()).unwrap());
    sink.finish().unwrap();
    assert_eq!(numbers(&sink.into_entries()), vec![vec![2]]);
}

#[test]
fn sink_with_context_keeps_an_entry_open_until_a_break() {
    let matcher = matcher_for("x");
    let mut sink = SearchSink::new(&matcher, true);
    sink.context(1, b"a\n".to_vec()).unwrap();
    sink.matched(2, b"x\n".to_vec()).unwrap();
    sink.context(3, b"b\n".to_vec()).unwrap();
    sink.matched(4, b"x\n".to_vec()).unwrap();
    sink.context(5, b"c\n".to_vec()).unwrap();
    sink.context_break().unwrap();
    sink.context(9, b"d\n".to_vec()).unwrap();
    sink.matched(10, b"x\n".to_vec()).unwrap();
    sink.finish().unwrap();
    let entries = sink.into_entries();
    assert_eq!(numbers(&entries), vec![vec![1, 2, 3, 4, 5], vec![9, 10]]);
    assert_eq!(entries[0].matched_line_number, 4);
    assert_eq!(entries[1].matched_line_number, 10);
}

#[test]
fn sink_drops_context_that_no_match_came_to() {
    let matcher = matcher_for("x");
    let mut sink = SearchSink::new(&matcher, true);
    sink.context(1, b"a\n".to_vec()).unwrap();
    sink.context(2, b"b\n".to_vec()).unwrap();
    sink.context_break().unwrap();
    sink.matched(5, b"x\n".to_vec()).unwrap();
    sink.context_break().unwrap();
    sink.context(8, b"c\n".to_vec()).unwrap();
    sink.finish().unwrap();
    assert_eq!(numbers(&sink.into_entries()), vec![vec![5]]);
}

#[test]
fn sink_keeps_an_open_entry_out_of_the_results() {
    let matcher = matcher_for("x");
    let mut sink = SearchSink::new(&matcher, true);
    sink.matched(1, b"x\n".to_vec()).unwrap();
    sink.context_break().unwrap();
    sink.matched(5, b"x\n".to_vec()).unwrap();
    assert_eq!(numbers(&sink.into_entries()), vec![vec![1]]);
}

#[test]
fn breaks_without_lines_give_no_entries() {
    let matcher = matcher_for("x");
    let mut sink = SearchSink::new(&matcher, true);
    sink.context_break().unwrap();
    sink.context_break().unwrap();
    sink.finish().unwrap();
    sink.finish().unwrap();
    assert!(sink.into_entries().is_empty());
}

#[test]
fn sink_takes_occurrences_that_are_already_known() {
    let matcher = matcher_for("x");
    let mut sink = SearchSink::new(&matcher, false);
    sink.record_match(4, b"hello".to_vec(), vec![(0, 2), (3, 5)]);
    let entries = sink.into_entries();
    assert_eq!(numbers(&entries), vec![vec![4]]);
    assert_eq!(entries[0].lines[0].matches, vec![(0, 2), (3, 5)]);
    assert_eq!(entries[0].matched_line_number, 4);
}

#[test]
fn sink_result_carries_the_path() {
    let matcher = matcher_for("x");
    let mut sink = SearchSink::new(&matcher, false);
    sink.matched(3, b"x".to_vec()).unwrap();
    sink.finish().unwrap();
    let result = sink.into_result(PathBuf::from("dir/file.txt"));
    assert_eq!(result.path, PathBuf::from("dir/file.txt"));
    assert_eq!(numbers(&result.entries), vec![vec![3]]);
}

fn matched(line_number: u64, text: &str) -> LineEvent {
    LineEvent::Matched { line_number, bytes: text.as_bytes().to_vec() }
}

fn context(line_number: u64, text: &str) -> LineEvent {
    LineEvent::Context { line_number, bytes: text.as_bytes().to_vec() }
}

fn scan_of_two_groups() -> Vec<LineEvent> {
    vec![
        context(2, "b\n"),
        matched(3, "x\n"),
        context(4, "c\n"),
        LineEvent::ContextBreak,
        context(7, "f\n"),
        matched(8, "xx\n"),
        matched(9, "x\n"),
        context(10, "h\n"),
        LineEvent::Finish,
    ]
}

#[test]
fn entries_are_the_groups_between_breaks() {
    let matcher = matcher_for("x");
    let entries = assemble(&matcher, true, scan_of_two_groups());
    assert_eq!(numbers(&entries), vec![vec![2, 3, 4], vec![7, 8, 9, 10]]);
    assert_eq!(entries[0].matched_line_number, 3);
    assert_eq!(entries[1].matched_line_number, 9);
    assert_eq!(entries[1].lines[1].matches, vec![(0, 1), (1, 2)]);
    assert!(entries[1].lines[3].matches.is_empty());
}

#[test]
fn without_context_only_matched_lines_are_assembled() {
    let matcher = matcher_for("x");
    let entries = assemble(&matcher, false, scan_of_two_groups());
    assert_eq!(numbers(&entries), vec![vec![3], vec![8], vec![9]]);
}

#[test]
fn assembling_twice_gives_the_same_entries() {
    let matcher = matcher_for("x");
    let first = assemble(&matcher, true, scan_of_two_groups());
    let again = assemble(&matcher.clone(), true, scan_of_two_groups());
    assert_eq!(numbers(&first), numbers(&again));
    for (left, right) in first.iter().zip(again.iter()) {
        assert_eq!(left.matched_line_number, right.matched_line_number);
        for (a, b) in left.lines.iter().zip(right.lines.iter()) {
            assert_eq!(a.bytes, b.bytes);
            assert_eq!(a.matches, b.matches);
        }
    }
}

#[test]
fn a_scan_that_never_ends_is_closed_by_the_assembler() {
    let matcher = matcher_for("x");
    let entries = assemble(&matcher, true, vec![matched(1, "x"), context(2, "y")]);
    assert_eq!(numbers(&entries), vec![vec![1, 2]]);
    assert!(assemble(&matcher, true, Vec::new()).is_empty());
}

#[test]
fn sink_handles_events_one_by_one() {
    let matcher = matcher_for("x");
    let mut sink = SearchSink::new(&matcher, true);
    for event in scan_of_two_groups() {
        sink.handle(event);
    }
    assert_eq!(numbers(&sink.into_entries()), vec![vec![2, 3, 4], vec![7, 8, 9, 10]]);
}
