//! The result assembler: it turns the events of one scan (matched line,
//! context line, context break, end of scan) into entries.

use vstd::prelude::*;
use std::path::PathBuf;
use crate::search::config::worker_views;
use crate::search::pattern::{
    find_all,
    lemma_occurrences_valid,
    occurrences,
    valid_spans,
    CompiledMatcher,
    PatternView,
};
use crate::search::query::{SearchWorker, WorkerView};
use crate::search::spans::{
    add_spans,
    covers,
    lemma_with_spans_covers,
    lemma_with_spans_valid,
    with_spans,
};
use crate::search::result::{
    entry_views,
    open_entry,
    EntryView,
    LineView,
    SearchResult,
    SearchResultEntry,
    SearchResultEntryBuilder,
};

verus! {

/// A scan of one file could not go on.
#[derive(Debug)]
pub struct SearchError;

/// The mathematical content of a [`SearchSink`].
pub struct SinkView {
    /// Whether the scan reports lines around each match.
    pub has_extra_context: bool,
    /// The entry that is being filled.
    pub open: Option<EntryView>,
    /// Whether the open entry holds a matched line.
    pub open_has_match: bool,
    /// The entries that were closed so far.
    pub results: Seq<EntryView>,
}

impl SinkView {
    /// Every line that the sink holds is well formed: the occurrences
    /// recorded in it are valid spans of its bytes.
    pub open spec fn wf(self) -> bool {
        &&& self.open matches Some(entry) ==> entry.wf()
        &&& forall|i: int| 0 <= i < self.results.len() ==> (#[trigger] self.results[i]).wf()
    }

    /// The state before the first event.
    pub open spec fn start(has_extra_context: bool) -> SinkView {
        SinkView { has_extra_context, open: None, open_has_match: false, results: Seq::empty() }
    }

    /// Closes the open entry. It joins the results if it holds a matched
    /// line; context lines that no match came to are dropped.
    pub open spec fn flush(self) -> SinkView {
        SinkView {
            has_extra_context: self.has_extra_context,
            open: None,
            open_has_match: false,
            results: if self.open is Some && self.open_has_match {
                self.results.push(self.open->0)
            } else {
                self.results
            },
        }
    }

    /// A matched line arrives. It joins the open entry; without extra
    /// context the entry is closed at once.
    pub open spec fn matched(
        self,
        line_number: u64,
        bytes: Seq<u8>,
        matches: Seq<(usize, usize)>,
    ) -> SinkView {
        let added = SinkView {
            has_extra_context: self.has_extra_context,
            open: Some(open_entry(self.open).with_match(line_number, bytes, matches)),
            open_has_match: true,
            results: self.results,
        };
        if self.has_extra_context {
            added
        } else {
            added.flush()
        }
    }

    /// A context line arrives. It joins the open entry; a scan without extra
    /// context has no context lines, so there it is dropped.
    pub open spec fn context(self, line_number: u64, bytes: Seq<u8>) -> SinkView {
        if self.has_extra_context {
            SinkView {
                has_extra_context: self.has_extra_context,
                open: Some(open_entry(self.open).with_context(line_number, bytes)),
                open_has_match: self.open_has_match,
                results: self.results,
            }
        } else {
            self
        }
    }
}

/// What a scan reports, one event at a time.
pub enum ScanEvent {
    /// A matched line, with the occurrences of the pattern in it.
    Matched { line_number: u64, bytes: Seq<u8>, matches: Seq<(usize, usize)> },
    /// A line around a matched line.
    Context { line_number: u64, bytes: Seq<u8> },
    /// Lines were skipped since the last reported line.
    ContextBreak,
    /// The input has ended.
    Finish,
}

impl ScanEvent {
    /// Whether the event ends a group of lines.
    pub open spec fn is_boundary(self) -> bool {
        self is ContextBreak || self is Finish
    }
}

impl SinkView {
    /// The state after one more event.
    pub open spec fn step(self, event: ScanEvent) -> SinkView {
        match event {
            ScanEvent::Matched { line_number, bytes, matches } => self.matched(
                line_number,
                bytes,
                matches,
            ),
            ScanEvent::Context { line_number, bytes } => self.context(line_number, bytes),
            ScanEvent::ContextBreak => self.flush(),
            ScanEvent::Finish => self.flush(),
        }
    }

    /// The state after every event of `events`.
    pub open spec fn run(self, events: Seq<ScanEvent>) -> SinkView
        decreases events.len(),
    {
        if events.len() == 0 {
            self
        } else {
            self.run(events.drop_last()).step(events.last())
        }
    }
}

/// The entries of a whole scan: what the sink holds after the events of the
/// scan and its end.
pub open spec fn assembled(has_extra_context: bool, events: Seq<ScanEvent>) -> Seq<EntryView> {
    SinkView::start(has_extra_context).run(events).flush().results
}

/// The groups that the boundaries cut the events into, empty ones included.
pub open spec fn groups(events: Seq<ScanEvent>) -> Seq<Seq<ScanEvent>>
    decreases events.len(),
{
    if events.len() == 0 {
        seq![Seq::empty()]
    } else {
        let before = groups(events.drop_last());
        if events.last().is_boundary() {
            before.push(Seq::empty())
        } else {
            before.drop_last().push(before.last().push(events.last()))
        }
    }
}

/// The entry that holds the lines of a group, in order.
pub open spec fn entry_of(group: Seq<ScanEvent>) -> EntryView
    decreases group.len(),
{
    if group.len() == 0 {
        EntryView::empty()
    } else {
        let entry = entry_of(group.drop_last());
        match group.last() {
            ScanEvent::Matched { line_number, bytes, matches } => entry.with_match(
                line_number,
                bytes,
                matches,
            ),
            ScanEvent::Context { line_number, bytes } => entry.with_context(line_number, bytes),
            _ => entry,
        }
    }
}

/// The test for a group that holds a matched line.
pub open spec fn has_match() -> spec_fn(Seq<ScanEvent>) -> bool {
    |group: Seq<ScanEvent>| exists|i: int| 0 <= i < group.len() && group[i] is Matched
}

/// The entry of a matched line that stands alone, if the event is one.
pub open spec fn single_entry() -> spec_fn(ScanEvent) -> Option<EntryView> {
    |event: ScanEvent|
        match event {
            ScanEvent::Matched { line_number, bytes, matches } => Some(
                EntryView::empty().with_match(line_number, bytes, matches),
            ),
            _ => None,
        }
}

/// No event changes whether the scan reports context.
pub proof fn lemma_run_keeps_mode(start: SinkView, events: Seq<ScanEvent>)
    ensures
        start.run(events).has_extra_context == start.has_extra_context,
    decreases events.len(),
{
    if events.len() > 0 {
        lemma_run_keeps_mode(start, events.drop_last());
    }
}

/// Without extra context each matched line is an entry of its own, in the
/// order of the scan, and nothing else is reported: every entry holds
/// exactly one line, the matched line whose number it records.
pub proof fn lemma_single_line_entries(events: Seq<ScanEvent>)
    ensures
        SinkView::start(false).run(events).open is None,
        SinkView::start(false).run(events).results == events.filter_map(single_entry()),
        assembled(false, events) == events.filter_map(single_entry()),
        forall|i: int|
            0 <= i < assembled(false, events).len() ==> {
                let entry = #[trigger] assembled(false, events)[i];
                &&& entry.lines.len() == 1
                &&& entry.lines[0].line_number == entry.matched_line_number
            },
    decreases events.len(),
{
    if events.len() > 0 {
        lemma_single_line_entries(events.drop_last());
        lemma_run_keeps_mode(SinkView::start(false), events.drop_last());
        let before = SinkView::start(false).run(events.drop_last());
        let earlier = events.drop_last().filter_map(single_entry());
        match single_entry()(events.last()) {
            Some(entry) => {
                assert(before.step(events.last()).results == before.results.push(entry));
                assert(earlier + seq![entry] =~= earlier.push(entry));
            },
            None => {
                assert(before.step(events.last()).results == before.results);
            },
        }
    }
}

/// What the sink holds while the last group is still open: the entries of
/// the groups that are closed, and the lines of the open one.
proof fn lemma_run_by_groups(events: Seq<ScanEvent>)
    ensures
        groups(events).len() > 0,
        SinkView::start(true).run(events).results == groups(events).drop_last().filter(
            has_match(),
        ).map_values(|group: Seq<ScanEvent>| entry_of(group)),
        SinkView::start(true).run(events).open == (if groups(events).last().len() == 0 {
            None
        } else {
            Some(entry_of(groups(events).last()))
        }),
        SinkView::start(true).run(events).open_has_match == has_match()(groups(events).last()),
    decreases events.len(),
{
    let image = |group: Seq<ScanEvent>| entry_of(group);
    if events.len() == 0 {
        assert(groups(events).drop_last() =~= Seq::empty());
        Seq::<Seq<ScanEvent>>::empty().lemma_all_neg_filter_empty(has_match());
        assert(Seq::<Seq<ScanEvent>>::empty().map_values(image) =~= Seq::empty());
    } else {
        lemma_run_by_groups(events.drop_last());
        lemma_run_keeps_mode(SinkView::start(true), events.drop_last());
        let earlier = groups(events.drop_last());
        let before = SinkView::start(true).run(events.drop_last());
        let closed = earlier.drop_last();
        let last = earlier.last();
        if events.last().is_boundary() {
            assert(groups(events).drop_last() =~= earlier);
            assert(earlier =~= closed.push(last));
            closed.lemma_filter_push(last, has_match());
            if has_match()(last) {
                assert(last.len() > 0);
                assert(closed.filter(has_match()).push(last).map_values(image) =~= closed.filter(
                    has_match(),
                ).map_values(image).push(entry_of(last)));
            }
        } else {
            let grown = last.push(events.last());
            assert(groups(events).drop_last() =~= closed);
            assert(groups(events).last() == grown);
            assert(grown.drop_last() =~= last);
            if last.len() == 0 {
                assert(entry_of(last) == EntryView::empty());
            }
            if has_match()(last) {
                let i = choose|i: int| 0 <= i < last.len() && last[i] is Matched;
                assert(grown[i] is Matched);
            }
            if events.last() is Matched {
                assert(grown[grown.len() - 1] is Matched);
            }
            if has_match()(grown) && !(events.last() is Matched) {
                let i = choose|i: int| 0 <= i < grown.len() && grown[i] is Matched;
                assert(last[i] is Matched);
            }
        }
    }
}

/// With extra context the entries are the groups of lines between the
/// boundaries of the scan, in order: no entry holds lines of two groups, no
/// line of a group is missing from its entry, and a group without a matched
/// line gives no entry.
pub proof fn lemma_entries_are_groups(events: Seq<ScanEvent>)
    ensures
        assembled(true, events) == groups(events).filter(has_match()).map_values(
            |group: Seq<ScanEvent>| entry_of(group),
        ),
{
    let image = |group: Seq<ScanEvent>| entry_of(group);
    lemma_run_by_groups(events);
    let all = groups(events);
    let closed = all.drop_last();
    let last = all.last();
    assert(all =~= closed.push(last));
    closed.lemma_filter_push(last, has_match());
    if has_match()(last) {
        assert(last.len() > 0);
        assert(closed.filter(has_match()).push(last).map_values(image) =~= closed.filter(
            has_match(),
        ).map_values(image).push(entry_of(last)));
    }
}

/// Every entry of a scan holds a matched line: the one whose number the
/// entry records.
pub proof fn lemma_entries_hold_a_match(has_extra_context: bool, events: Seq<ScanEvent>)
    ensures
        forall|i: int|
            0 <= i < assembled(has_extra_context, events).len() ==> records_match(
                #[trigger] assembled(has_extra_context, events)[i],
            ),
{
    lemma_run_keeps_matches(has_extra_context, events);
}

/// The entry holds a line with the number that the entry records as its
/// last matched line.
pub open spec fn records_match(entry: EntryView) -> bool {
    exists|j: int|
        0 <= j < entry.lines.len() && (#[trigger] entry.lines[j]).line_number
            == entry.matched_line_number
}

proof fn lemma_run_keeps_matches(has_extra_context: bool, events: Seq<ScanEvent>)
    ensures
        ({
            let state = SinkView::start(has_extra_context).run(events);
            &&& forall|i: int|
                0 <= i < state.results.len() ==> records_match(#[trigger] state.results[i])
            &&& state.open_has_match ==> state.open is Some && records_match(state.open->0)
            &&& forall|i: int|
                0 <= i < state.flush().results.len() ==> records_match(
                    #[trigger] state.flush().results[i],
                )
        }),
    decreases events.len(),
{
    let state = SinkView::start(has_extra_context).run(events);
    if events.len() > 0 {
        lemma_run_keeps_matches(has_extra_context, events.drop_last());
        lemma_run_keeps_mode(SinkView::start(has_extra_context), events.drop_last());
        let before = SinkView::start(has_extra_context).run(events.drop_last());
        match events.last() {
            ScanEvent::Matched { line_number, bytes, matches } => {
                let entry = open_entry(before.open).with_match(line_number, bytes, matches);
                assert(entry.lines[entry.lines.len() - 1].line_number == line_number);
                assert(records_match(entry));
            },
            ScanEvent::Context { line_number, bytes } => {
                if before.open_has_match && has_extra_context {
                    let old_entry = before.open->0;
                    let entry = old_entry.with_context(line_number, bytes);
                    let j = choose|j: int|
                        0 <= j < old_entry.lines.len() && (
                        #[trigger] old_entry.lines[j]).line_number
                            == old_entry.matched_line_number;
                    assert(entry.lines[j].line_number == entry.matched_line_number);
                }
            },
            _ => {},
        }
    }
}

impl ScanEvent {
    /// The occurrences of a matched line are valid spans of its bytes.
    pub open spec fn wf(self) -> bool {
        self matches ScanEvent::Matched { line_number, bytes, matches } ==> valid_spans(
            bytes.len(),
            matches,
        )
    }
}

/// The line that an event reports, if it reports one.
pub open spec fn line_of() -> spec_fn(ScanEvent) -> Option<LineView> {
    |event: ScanEvent|
        match event {
            ScanEvent::Matched { line_number, bytes, matches } => Some(
                LineView { line_number, bytes, matches },
            ),
            ScanEvent::Context { line_number, bytes } => Some(
                LineView { line_number, bytes, matches: Seq::empty() },
            ),
            _ => None,
        }
}

/// An entry holds the lines of its group and no others, in the order of the
/// scan.
pub proof fn lemma_entry_lines(group: Seq<ScanEvent>)
    ensures
        entry_of(group).lines == group.filter_map(line_of()),
    decreases group.len(),
{
    if group.len() > 0 {
        lemma_entry_lines(group.drop_last());
        let earlier = group.drop_last().filter_map(line_of());
        match line_of()(group.last()) {
            Some(line) => {
                assert(earlier + seq![line] =~= earlier.push(line));
            },
            None => {},
        }
    }
}

/// One event leaves every line of the sink well formed.
pub proof fn lemma_step_keeps_lines_valid(state: SinkView, event: ScanEvent)
    requires
        state.wf(),
        event.wf(),
    ensures
        state.step(event).wf(),
{
    let entry = open_entry(state.open);
    assert(entry.wf());
    match event {
        ScanEvent::Matched { line_number, bytes, matches } => {
            let grown = entry.with_match(line_number, bytes, matches);
            assert(grown.wf()) by {
                assert forall|i: int| 0 <= i < grown.lines.len() implies (
                #[trigger] grown.lines[i]).wf() by {
                    if i < entry.lines.len() {
                        assert(grown.lines[i] == entry.lines[i]);
                    }
                }
            }
        },
        ScanEvent::Context { line_number, bytes } => {
            let grown = entry.with_context(line_number, bytes);
            assert(grown.wf()) by {
                assert forall|i: int| 0 <= i < grown.lines.len() implies (
                #[trigger] grown.lines[i]).wf() by {
                    if i < entry.lines.len() {
                        assert(grown.lines[i] == entry.lines[i]);
                    }
                }
            }
        },
        _ => {},
    }
}

/// The spans that a later stage adds to a line that the first stage
/// selected: the occurrences of its pattern, and none where the stage is
/// inverted, since the lines that such a stage selects hold no occurrence.
pub open spec fn stage_spans(stage: WorkerView, line: Seq<u8>) -> Seq<(usize, usize)> {
    if stage.searcher.invert_match {
        Seq::empty()
    } else {
        occurrences(stage.pattern, line, 0)
    }
}

/// The highlight spans of a matched line: the occurrences of the pattern of
/// the first stage, joined with the spans of each later stage in turn.
pub open spec fn highlights(pattern: PatternView, later: Seq<WorkerView>, line: Seq<u8>) -> Seq<
    (usize, usize),
>
    decreases later.len(),
{
    if later.len() == 0 {
        occurrences(pattern, line, 0)
    } else {
        with_spans(highlights(pattern, later.drop_last(), line), stage_spans(later.last(), line))
    }
}

/// The highlight spans of a line are valid spans of the line.
pub proof fn lemma_highlights_valid(pattern: PatternView, later: Seq<WorkerView>, line: Seq<u8>)
    ensures
        valid_spans(line.len(), highlights(pattern, later, line)),
    decreases later.len(),
{
    if later.len() == 0 {
        lemma_occurrences_valid(pattern, line, 0);
    } else {
        lemma_highlights_valid(pattern, later.drop_last(), line);
        lemma_occurrences_valid(later.last().pattern, line, 0);
        lemma_with_spans_valid(
            line.len(),
            highlights(pattern, later.drop_last(), line),
            stage_spans(later.last(), line),
        );
    }
}

/// A byte of a matched line is highlighted exactly where an occurrence of
/// the pattern of the first stage covers it, or a span of a later stage
/// does.
pub proof fn lemma_highlights_cover(
    pattern: PatternView,
    later: Seq<WorkerView>,
    line: Seq<u8>,
    at: int,
)
    ensures
        covers(highlights(pattern, later, line), at) <==> covers(occurrences(pattern, line, 0), at)
            || exists|j: int|
            0 <= j < later.len() && covers(stage_spans(#[trigger] later[j], line), at),
    decreases later.len(),
{
    if later.len() > 0 {
        let earlier = later.drop_last();
        lemma_highlights_cover(pattern, earlier, line, at);
        lemma_highlights_valid(pattern, earlier, line);
        lemma_occurrences_valid(later.last().pattern, line, 0);
        lemma_with_spans_covers(
            highlights(pattern, earlier, line),
            stage_spans(later.last(), line),
            line.len(),
            at,
        );
        if exists|j: int|
            0 <= j < earlier.len() && covers(stage_spans(#[trigger] earlier[j], line), at) {
            let j = choose|j: int|
                0 <= j < earlier.len() && covers(stage_spans(#[trigger] earlier[j], line), at);
            assert(later[j] == earlier[j]);
        }
        if exists|j: int|
            0 <= j < later.len() && covers(stage_spans(#[trigger] later[j], line), at) {
            let j = choose|j: int|
                0 <= j < later.len() && covers(stage_spans(#[trigger] later[j], line), at);
            if j < earlier.len() {
                assert(earlier[j] == later[j]);
            } else {
                assert(later[j] == later.last());
            }
        }
        if covers(stage_spans(later.last(), line), at) {
            assert(later[later.len() - 1] == later.last());
        }
    }
}

/// One event of a scan as the scanner hands it over: a matched line comes
/// without the spans in it.
pub enum LineEvent {
    /// A matched line.
    Matched { line_number: u64, bytes: Vec<u8> },
    /// A line around a matched line.
    Context { line_number: u64, bytes: Vec<u8> },
    /// Lines were skipped since the last reported line.
    ContextBreak,
    /// The input has ended.
    Finish,
}

impl LineEvent {
    /// What the event reports once the highlight spans of a matched line
    /// are found.
    pub open spec fn reported(self, pattern: PatternView, later: Seq<WorkerView>) -> ScanEvent {
        match self {
            LineEvent::Matched { line_number, bytes } => ScanEvent::Matched {
                line_number,
                bytes: bytes@,
                matches: highlights(pattern, later, bytes@),
            },
            LineEvent::Context { line_number, bytes } => ScanEvent::Context {
                line_number,
                bytes: bytes@,
            },
            LineEvent::ContextBreak => ScanEvent::ContextBreak,
            LineEvent::Finish => ScanEvent::Finish,
        }
    }
}

/// What a sequence of events reports.
pub open spec fn reported_events(
    events: Seq<LineEvent>,
    pattern: PatternView,
    later: Seq<WorkerView>,
) -> Seq<ScanEvent> {
    events.map_values(|event: LineEvent| event.reported(pattern, later))
}

/// The entries of a scan depend on nothing but the patterns and the lines
/// that the scan reports: scans that report the same lines give the same
/// entries.
pub proof fn lemma_same_scan_same_entries(
    has_extra_context: bool,
    pattern: PatternView,
    later: Seq<WorkerView>,
    first: Seq<LineEvent>,
    second: Seq<LineEvent>,
)
    requires
        first.len() == second.len(),
        forall|i: int|
            0 <= i < first.len() ==> (#[trigger] first[i]).reported(pattern, later)
                == second[i].reported(pattern, later),
    ensures
        assembled(has_extra_context, reported_events(first, pattern, later)) == assembled(
            has_extra_context,
            reported_events(second, pattern, later),
        ),
{
    assert(reported_events(first, pattern, later) =~= reported_events(second, pattern, later));
}

/// Collects the entries of one scan.
pub struct SearchSink<'m> {
    has_extra_context: bool,
    builder: SearchResultEntryBuilder,
    open_has_match: bool,
    results: Vec<SearchResultEntry>,
    matcher: &'m CompiledMatcher,
    stages: Option<&'m Vec<SearchWorker>>,
}

impl<'m> View for SearchSink<'m> {
    type V = SinkView;

    closed spec fn view(&self) -> SinkView {
        SinkView {
            has_extra_context: self.has_extra_context,
            open: self.builder@,
            open_has_match: self.open_has_match,
            results: entry_views(self.results@),
        }
    }
}

impl<'m> SearchSink<'m> {
    /// The pattern of the first stage, whose occurrences are recorded in
    /// matched lines.
    pub closed spec fn pattern(&self) -> PatternView {
        self.matcher@
    }

    /// The later stages, whose spans are added to matched lines.
    pub closed spec fn later(&self) -> Seq<WorkerView> {
        match self.stages {
            Some(stages) => if stages@.len() > 0 {
                worker_views(stages@).skip(1)
            } else {
                Seq::empty()
            },
            None => Seq::empty(),
        }
    }

    /// A sink before the first event of a scan with one stage.
    pub fn new(matcher: &'m CompiledMatcher, has_extra_context: bool) -> (sink: Self)
        ensures
            sink@ == SinkView::start(has_extra_context),
            sink@.wf(),
            sink.pattern() == matcher@,
            sink.later() == Seq::<WorkerView>::empty(),
    {
        let sink = SearchSink {
            has_extra_context,
            builder: SearchResultEntryBuilder::new(),
            open_has_match: false,
            results: Vec::new(),
            matcher,
            stages: None,
        };
        assert(sink@.results =~= Seq::empty());
        sink
    }

    /// A sink before the first event of a scan with the stages of a search.
    /// The first stage says whether entries stay open across lines, and its
    /// pattern gives the spans of a matched line; each later stage adds its
    /// spans to them. Without a stage there is no sink.
    pub fn for_stages(stages: &'m Vec<SearchWorker>) -> (sink: Option<Self>)
        ensures
            match sink {
                Some(sink) => {
                    &&& stages@.len() > 0
                    &&& sink@ == SinkView::start(stages@[0]@.searcher.before_context != 0)
                    &&& sink@.wf()
                    &&& sink.pattern() == stages@[0]@.pattern
                    &&& sink.later() == worker_views(stages@).skip(1)
                },
                None => stages@.len() == 0,
            },
    {
        if stages.len() == 0 {
            return None;
        }
        let first = &stages[0];
        let sink = SearchSink {
            has_extra_context: first.scan_options().before_context != 0,
            builder: SearchResultEntryBuilder::new(),
            open_has_match: false,
            results: Vec::new(),
            matcher: first.matcher(),
            stages: Some(stages),
        };
        assert(sink@.results =~= Seq::empty());
        Some(sink)
    }

    /// The matcher of the first stage, for the scanner that selects the
    /// lines.
    pub fn first_matcher(&self) -> (matcher: &'m CompiledMatcher)
        ensures
            matcher@ == self.pattern(),
    {
        self.matcher
    }

    /// Finds the highlight spans of a matched line.
    pub fn find_highlights(&self, line: &[u8]) -> (spans: Vec<(usize, usize)>)
        ensures
            spans@ == highlights(self.pattern(), self.later(), line@),
            valid_spans(line@.len(), spans@),
    {
        let mut spans = find_all(self.matcher, line);
        proof {
            lemma_highlights_valid(self.pattern(), self.later(), line@);
        }
        match self.stages {
            Some(stages) => if stages.len() > 0 {
                let ghost later = self.later();
                let mut i: usize = 1;
                assert(later.take(0) =~= Seq::empty());
                while i < stages.len()
                    invariant
                        1 <= i <= stages@.len(),
                        later == worker_views(stages@).skip(1),
                        later.len() == stages@.len() - 1,
                        spans@ == highlights(self.matcher@, later.take(i - 1), line@),
                    decreases stages@.len() - i,
                {
                    let stage = &stages[i];
                    proof {
                        assert(later.take(i as int).drop_last() =~= later.take(i - 1));
                        assert(later.take(i as int).last() == stage@);
                    }
                    if !stage.scan_options().invert_match {
                        let more = find_all(stage.matcher(), line);
                        spans = add_spans(spans, &more);
                    }
                    i += 1;
                }
                assert(later.take(later.len() as int) =~= later);
            },
            None => {},
        }
        spans
    }

    fn flush(&mut self)
        ensures
            final(self)@ == old(self)@.flush(),
            old(self)@.wf() ==> final(self)@.wf(),
            final(self).pattern() == old(self).pattern(),
            final(self).later() == old(self).later(),
    {
        proof {
            if self@.wf() {
                lemma_step_keeps_lines_valid(self@, ScanEvent::ContextBreak);
            }
        }
        let has_match = self.open_has_match;
        self.open_has_match = false;
        match self.builder.take() {
            Some(entry) => {
                if has_match {
                    let ghost before = self.results@;
                    self.results.push(entry);
                    assert(entry_views(self.results@) =~= entry_views(before).push(entry@));
                }
            },
            None => {},
        }
    }

    /// Takes in a matched line whose occurrences are already known.
    pub fn record_match(&mut self, line_number: u64, bytes: Vec<u8>, matches: Vec<(usize, usize)>)
        ensures
            final(self)@ == old(self)@.matched(line_number, bytes@, matches@),
            old(self)@.wf() && valid_spans(bytes@.len(), matches@) ==> final(self)@.wf(),
            final(self).pattern() == old(self).pattern(),
            final(self).later() == old(self).later(),
    {
        proof {
            if self@.wf() && valid_spans(bytes@.len(), matches@) {
                lemma_step_keeps_lines_valid(
                    self@,
                    ScanEvent::Matched { line_number, bytes: bytes@, matches: matches@ },
                );
            }
        }
        self.builder.push_match_line(line_number, bytes, matches);
        self.open_has_match = true;
        if !self.has_extra_context {
            self.flush();
        }
    }

    /// The scan reports a matched line. The scan is told to go on.
    pub fn matched(&mut self, line_number: u64, bytes: Vec<u8>) -> (keep_going: Result<
        bool,
        SearchError,
    >)
        ensures
            final(self)@ == old(self)@.matched(
                line_number,
                bytes@,
                highlights(old(self).pattern(), old(self).later(), bytes@),
            ),
            old(self)@.wf() ==> final(self)@.wf(),
            final(self).pattern() == old(self).pattern(),
            final(self).later() == old(self).later(),
            keep_going matches Ok(go) && go,
    {
        let matches = self.find_highlights(bytes.as_slice());
        self.record_match(line_number, bytes, matches);
        Ok(true)
    }

    /// The scan reports a line around a match. The scan is told to go on.
    pub fn context(&mut self, line_number: u64, bytes: Vec<u8>) -> (keep_going: Result<
        bool,
        SearchError,
    >)
        ensures
            final(self)@ == old(self)@.context(line_number, bytes@),
            old(self)@.wf() ==> final(self)@.wf(),
            final(self).pattern() == old(self).pattern(),
            final(self).later() == old(self).later(),
            keep_going matches Ok(go) && go,
    {
        proof {
            if self@.wf() {
                lemma_step_keeps_lines_valid(
                    self@,
                    ScanEvent::Context { line_number, bytes: bytes@ },
                );
            }
        }
        if self.has_extra_context {
            self.builder.with_context(line_number, bytes);
        }
        Ok(true)
    }

    /// The scan skipped lines: the open entry is closed. The scan is told to
    /// go on.
    pub fn context_break(&mut self) -> (keep_going: Result<bool, SearchError>)
        ensures
            final(self)@ == old(self)@.flush(),
            old(self)@.wf() ==> final(self)@.wf(),
            final(self).pattern() == old(self).pattern(),
            final(self).later() == old(self).later(),
            keep_going matches Ok(go) && go,
    {
        self.flush();
        Ok(true)
    }

    /// The scan reached the end of its input: the open entry is closed.
    pub fn finish(&mut self) -> (done: Result<(), SearchError>)
        ensures
            final(self)@ == old(self)@.flush(),
            old(self)@.wf() ==> final(self)@.wf(),
            final(self).pattern() == old(self).pattern(),
            final(self).later() == old(self).later(),
            done is Ok,
    {
        self.flush();
        Ok(())
    }

    /// Takes in one event of the scan.
    pub fn handle(&mut self, event: LineEvent)
        ensures
            final(self)@ == old(self)@.step(
                event.reported(old(self).pattern(), old(self).later()),
            ),
            old(self)@.wf() ==> final(self)@.wf(),
            final(self).pattern() == old(self).pattern(),
            final(self).later() == old(self).later(),
    {
        match event {
            LineEvent::Matched { line_number, bytes } => {
                let _ = self.matched(line_number, bytes);
            },
            LineEvent::Context { line_number, bytes } => {
                let _ = self.context(line_number, bytes);
            },
            LineEvent::ContextBreak => {
                let _ = self.context_break();
            },
            LineEvent::Finish => {
                let _ = self.finish();
            },
        }
    }

    /// The entries that were closed, in the order in which they were closed.
    pub fn into_entries(self) -> (entries: Vec<SearchResultEntry>)
        ensures
            entry_views(entries@) == self@.results,
    {
        self.results
    }

    /// The closed entries as the result of searching the file at `path`.
    pub fn into_result(self, path: PathBuf) -> (result: SearchResult)
        ensures
            result.path == path,
            entry_views(result.entries@) == self@.results,
    {
        SearchResult { path, entries: self.results }
    }
}

/// Assembles the entries of a whole scan with one stage from its events.
pub fn assemble(
    matcher: &CompiledMatcher,
    has_extra_context: bool,
    events: Vec<LineEvent>,
) -> (entries: Vec<SearchResultEntry>)
    ensures
        entry_views(entries@) == assembled(
            has_extra_context,
            reported_events(events@, matcher@, Seq::empty()),
        ),
        forall|i: int| 0 <= i < entries@.len() ==> (#[trigger] entries@[i])@.wf(),
{
    let mut sink = SearchSink::new(matcher, has_extra_context);
    let ghost reported = reported_events(events@, matcher@, Seq::empty());
    assert(reported.take(0) =~= Seq::empty());
    for event in it: events
        invariant
            it.seq() == events@,
            reported == reported_events(events@, matcher@, Seq::empty()),
            sink@ == SinkView::start(has_extra_context).run(reported.take(it.index() as int)),
            sink@.wf(),
            sink.pattern() == matcher@,
            sink.later() == Seq::<WorkerView>::empty(),
    {
        proof {
            let next = reported.take(it.index() as int + 1);
            assert(next.drop_last() =~= reported.take(it.index() as int));
            assert(next.last() == event.reported(matcher@, Seq::empty()));
        }
        sink.handle(event);
    }
    assert(reported.take(reported.len() as int) =~= reported);
    let _ = sink.finish();
    let entries = sink.into_entries();
    assert forall|i: int| 0 <= i < entries@.len() implies (#[trigger] entries@[i])@.wf() by {
        assert(entry_views(entries@)[i] == entries@[i]@);
    }
    entries
}

} // verus!
